use snake_ai::genetic::{
    cross_at, cross_population, roulette_index, selection, total_fitness, Individual, Population, PopulationOptions,
    RandomSource,
};
use snake_ai::network::Real;

#[derive(Clone, Copy, Debug, PartialEq)]
struct F(f64);

impl Real for F {
    fn zero() -> Self {
        F(0.0)
    }
    fn one() -> Self {
        F(1.0)
    }
    fn negated(self) -> Self {
        F(-self.0)
    }
    fn plus(self, other: Self) -> Self {
        F(self.0 + other.0)
    }
    fn times(self, other: Self) -> Self {
        F(self.0 * other.0)
    }
    fn divided_by(self, other: Self) -> Self {
        F(self.0 / other.0)
    }
    fn exp(self) -> Self {
        F(self.0.exp())
    }
    fn sqrt(self) -> Self {
        F(self.0.sqrt())
    }
    fn from_count(n: u64) -> Self {
        F(n as f64)
    }
    fn rank(self) -> i64 {
        // the key of f64::total_cmp: for numbers it orders as `<` does
        let bits = self.0.to_bits() as i64;
        bits ^ ((((bits >> 63) as u64) >> 1) as i64)
    }
}

/// Draws that cycle through a fixed list.
struct Cycle {
    values: Vec<f64>,
    next: usize,
}

impl Cycle {
    fn new(values: &[f64]) -> Self {
        Cycle { values: values.to_vec(), next: 0 }
    }
    fn draw(&mut self) -> f64 {
        let v = self.values[self.next % self.values.len()];
        self.next += 1;
        v
    }
}

impl RandomSource<F> for Cycle {
    fn unit(&mut self) -> F {
        F(self.draw())
    }
    fn between(&mut self, low: F, high: F) -> F {
        F(low.0 + (high.0 - low.0) * self.draw())
    }
}

fn genes(v: &[f64]) -> Vec<F> {
    v.iter().map(|x| F(*x)).collect()
}

fn individual(v: &[f64], evaluation: u64) -> Individual<F> {
    Individual { chromosomes: genes(v), evaluation }
}

#[test]
fn crossover_swaps_tails_at_the_point() {
    let a = genes(&[1.0, 2.0, 3.0, 4.0, 5.0]);
    let b = genes(&[6.0, 7.0, 8.0, 9.0, 10.0]);
    let (c, d) = cross_at(&a, &b, 2);
    assert_eq!(c, genes(&[1.0, 2.0, 8.0, 9.0, 10.0]));
    assert_eq!(d, genes(&[6.0, 7.0, 3.0, 4.0, 5.0]));
}

#[test]
fn random_crossover_point_is_inside() {
    for _ in 0..50 {
        let a = individual(&[1.0, 2.0, 3.0, 4.0, 5.0], 3);
        let b = individual(&[6.0, 7.0, 8.0, 9.0, 10.0], 4);
        let (c, d) = a.cross(b);
        assert_eq!(c.chromosomes.len(), 5);
        assert_eq!(d.chromosomes.len(), 5);
        let point = (0..5).find(|i| c.chromosomes[*i].0 > 5.0).unwrap();
        assert!(point >= 1 && point < 4);
        for i in 0..5 {
            let (x, y) = (i as f64 + 1.0, i as f64 + 6.0);
            if i < point {
                assert_eq!((c.chromosomes[i].0, d.chromosomes[i].0), (x, y));
            } else {
                assert_eq!((c.chromosomes[i].0, d.chromosomes[i].0), (y, x));
            }
        }
        assert_eq!(c.evaluation, 0);
    }
}

#[test]
fn short_chromosomes_are_not_crossed() {
    let (c, d) = individual(&[1.0, 2.0], 1).cross(individual(&[3.0, 4.0], 1));
    assert_eq!(c.chromosomes, genes(&[1.0, 2.0]));
    assert_eq!(d.chromosomes, genes(&[3.0, 4.0]));
}

#[test]
fn crossing_a_population_keeps_its_size() {
    let population = vec![
        individual(&[1.0, 1.0, 1.0], 1),
        individual(&[2.0, 2.0, 2.0], 1),
        individual(&[3.0, 3.0, 3.0], 1),
        individual(&[4.0, 4.0, 4.0], 1),
        individual(&[5.0, 5.0, 5.0], 1),
    ];
    let out = cross_population(population, &vec![true, false, true, true, false], 3);
    assert_eq!(out.len(), 5);
    assert_eq!(out[0].chromosomes, genes(&[2.0, 2.0, 2.0]));
    assert_eq!(out[1].chromosomes, genes(&[5.0, 5.0, 5.0]));
    // the odd one out of the crossing members stays as it is
    assert_eq!(out[4].chromosomes, genes(&[4.0, 4.0, 4.0]));
    assert_eq!(out[2].chromosomes, genes(&[1.0, 3.0, 3.0]));
    assert_eq!(out[3].chromosomes, genes(&[3.0, 1.0, 1.0]));
}

#[test]
fn roulette_follows_running_sums() {
    let members = vec![individual(&[1.0], 1), individual(&[2.0], 3), individual(&[3.0], 0), individual(&[4.0], 2)];
    assert_eq!(total_fitness(&members), 6);
    assert_eq!(roulette_index(&members, 0), 0);
    assert_eq!(roulette_index(&members, 1), 1);
    assert_eq!(roulette_index(&members, 3), 1);
    assert_eq!(roulette_index(&members, 4), 3);
    assert_eq!(roulette_index(&members, 5), 3);
}

#[test]
fn selection_never_picks_a_member_without_fitness() {
    let members = vec![individual(&[1.0], 0), individual(&[2.0], 5), individual(&[3.0], 0)];
    for _ in 0..20 {
        let chosen = selection(&members);
        assert_eq!(chosen.len(), 3);
        assert!(chosen.iter().all(|c| c.chromosomes == genes(&[2.0]) && c.evaluation == 5));
    }
}

#[test]
fn zero_fitness_falls_back_to_uniform_selection() {
    let members = vec![individual(&[1.0], 0), individual(&[2.0], 0)];
    let mut seen = [false, false];
    for _ in 0..200 {
        for c in selection(&members) {
            seen[(c.chromosomes[0].0 as usize) - 1] = true;
        }
    }
    assert_eq!(seen, [true, true]);
}

#[test]
fn mutation_changes_only_drawn_genes() {
    let mut ind = individual(&[1.0, 1.0, 1.0], 2);
    // unit draws 0.1 (< 0.5: mutate, then between draw 1.0 -> +0.5), 0.9 (keep), 0.1, 0.0 (-0.5)
    let mut rng = Cycle::new(&[0.1, 1.0, 0.9, 0.1, 0.0]);
    ind.mutate(F(0.5), F(0.5), &mut rng);
    assert_eq!(ind.chromosomes, genes(&[1.5, 1.0, 0.5]));
    assert_eq!(ind.evaluation, 2);
}

fn sum_fitness(c: &Vec<F>, offset: &u64) -> u64 {
    c.iter().map(|g| (g.0.abs() * 100.0) as u64).sum::<u64>() + offset
}

#[test]
fn population_size_and_fitness_survive_generations() {
    let options = PopulationOptions::new(6, 5, F(-1.0), F(1.0), F(0.9), F(0.3), F(0.3), 3);
    let mut rng = Cycle::new(&[0.13, 0.77, 0.42, 0.05, 0.91, 0.66, 0.29, 0.58]);
    let mut population = Population::new(options, sum_fitness, &1, &mut rng);
    assert_eq!(population.individuals().len(), 6);
    for _ in 0..4 {
        population.generate_new_population(sum_fitness, &1, &mut rng);
        assert_eq!(population.individuals().len(), 6);
        for member in population.individuals() {
            assert_eq!(member.chromosomes.len(), 5);
            assert_eq!(member.evaluation, sum_fitness(&member.chromosomes, &1));
        }
    }
    let best = population.get_best_score();
    assert!(population.individuals().iter().all(|m| m.evaluation <= best));
    let champion = population.get_best_chromosomes();
    assert_eq!(sum_fitness(&champion, &1), best);
    let last_best = population.individuals().iter().rposition(|m| m.evaluation == best).unwrap();
    assert_eq!(champion, population.individuals()[last_best].chromosomes);
    assert_eq!(population.n_of_generations(), 3);
}

#[test]
fn new_individual_draws_every_gene_in_range() {
    let mut rng = Cycle::new(&[0.0, 0.5, 0.75]);
    let ind = Individual::new(3, F(-1.0), F(1.0), &mut rng);
    assert_eq!(ind.chromosomes, genes(&[-1.0, 0.0, 0.5]));
    assert_eq!(ind.evaluation, 0);
}

#[test]
fn best_ties_go_to_the_last() {
    let options = PopulationOptions::new(3, 2, F(0.0), F(1.0), F(0.0), F(0.0), F(0.0), 1);
    let mut rng = Cycle::new(&[0.0, 0.5, 0.5, 0.5, 0.5, 0.0]);
    let population = Population::new(options, |c: &Vec<F>, _: &()| (c[0].0 * 2.0) as u64, &(), &mut rng);
    // genes: [0.0, 0.5], [0.5, 0.5], [0.5, 0.0]; fitness 0, 1, 1
    assert_eq!(population.get_best_score(), 1);
    assert_eq!(population.get_best_chromosomes(), genes(&[0.5, 0.0]));
}

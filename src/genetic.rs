//! A population of chromosomes evolved by roulette-wheel selection, single-point
//! crossover and mutation.
use vstd::prelude::*;
use itertools::Itertools;
use crate::network::Real;
use crate::spawn::random_below;

verus! {

/// A source of random numbers of type `W`.
pub trait RandomSource<W> {
    /// A value drawn uniformly from the interval from zero to one.
    fn unit(&mut self) -> W;

    /// A value drawn uniformly from the interval from `low` to `high`.
    fn between(&mut self, low: W, high: W) -> W;
}

/// A chromosome and its fitness.
#[derive(Debug)]
pub struct Individual<W> {
    pub chromosomes: Vec<W>,
    pub evaluation: u64,
}

/// The first `point` genes of `first`, then the rest of `second`.
pub open spec fn crossed<W>(first: Seq<W>, second: Seq<W>, point: int) -> Seq<W> {
    first.take(point) + second.skip(point)
}

/// A copy of `genes`.
pub fn copy_genes<W: Copy>(genes: &Vec<W>) -> (r: Vec<W>)
    ensures
        r@ == genes@,
{
    let n = genes.len();
    let mut out: Vec<W> = Vec::with_capacity(n);
    let mut i: usize = 0;
    while i < n
        invariant
            n == genes@.len(),
            i <= n,
            out@ == genes@.take(i as int),
        decreases n - i,
    {
        out.push(genes[i]);
        i = i + 1;
        proof {
            assert(out@ =~= genes@.take(i as int));
        }
    }
    proof {
        assert(genes@.take(n as int) =~= genes@);
    }
    out
}

/// Single-point crossover at `point`: the first child takes the genes before `point`
/// from `first` and the others from `second`, the second child the other way round.
pub fn cross_at<W: Copy>(first: &Vec<W>, second: &Vec<W>, point: usize) -> (r: (Vec<W>, Vec<W>))
    requires
        first@.len() == second@.len(),
        point <= first@.len(),
    ensures
        r.0@ == crossed(first@, second@, point as int),
        r.1@ == crossed(second@, first@, point as int),
        r.0@.len() == first@.len(),
        r.1@.len() == first@.len(),
        forall|i: int| 0 <= i < point ==> r.0@[i] == first@[i] && r.1@[i] == second@[i],
        forall|i: int| point <= i < first@.len() ==> r.0@[i] == second@[i] && r.1@[i] == first@[i],
{
    let mut a = copy_genes(first);
    let mut b = copy_genes(second);
    let mut rest_a = a.split_off(point);
    let mut rest_b = b.split_off(point);
    a.append(&mut rest_b);
    b.append(&mut rest_a);
    proof {
        assert(a@ =~= crossed(first@, second@, point as int));
        assert(b@ =~= crossed(second@, first@, point as int));
    }
    (a, b)
}

/// Relies on `itertools::Itertools::tuples`: consecutive items two by two, with an
/// odd last item left out.
#[verifier::external_body]
fn pair_up<T>(items: Vec<T>) -> (r: Vec<(T, T)>)
    ensures
        r@.len() == items@.len() / 2,
        forall|i: int| 0 <= i < r@.len() ==> #[trigger] r@[i] == (items@[2 * i], items@[2 * i + 1]),
{
    items.into_iter().tuples().collect()
}

/// `x` and `y` are the children of `a` and `b`: single-point crossover at a point from
/// one to two less than the length, or the parents' genes when there are fewer than
/// three.
pub open spec fn children_of<W>(a: Individual<W>, b: Individual<W>, x: Individual<W>, y: Individual<W>) -> bool {
    let n = a.chromosomes@.len();
    &&& n < 3 ==> x.chromosomes@ == a.chromosomes@ && y.chromosomes@ == b.chromosomes@
    &&& n >= 3 ==> exists|c: int|
        1 <= c < n - 1 && #[trigger] crossed(a.chromosomes@, b.chromosomes@, c) == x.chromosomes@ && crossed(
            b.chromosomes@,
            a.chromosomes@,
            c,
        ) == y.chromosomes@
}

impl<W: Real> Individual<W> {
    /// Two children by single-point crossover at a random point from one to two less
    /// than the length; with fewer than three genes no such point exists and the
    /// children are the parents. Children are not evaluated yet: their fitness is zero.
    pub fn cross(self, other: Self) -> (r: (Self, Self))
        requires
            self.chromosomes@.len() == other.chromosomes@.len(),
        ensures
            children_of(self, other, r.0, r.1),
            r.0.evaluation == 0 && r.1.evaluation == 0,
            r.0.chromosomes@.len() == self.chromosomes@.len(),
            r.1.chromosomes@.len() == self.chromosomes@.len(),
    {
        let n = self.chromosomes.len();
        if n < 3 {
            return (
                Individual { chromosomes: self.chromosomes, evaluation: 0 },
                Individual { chromosomes: other.chromosomes, evaluation: 0 },
            );
        }
        let point = 1 + random_below((n - 2) as u128) as usize;
        let (a, b) = cross_at(&self.chromosomes, &other.chromosomes, point);
        assert(crossed(self.chromosomes@, other.chromosomes@, point as int) == a@);
        (Individual { chromosomes: a, evaluation: 0 }, Individual { chromosomes: b, evaluation: 0 })
    }
}

/// The members whose flag equals `flag`, in order.
pub open spec fn picked<W>(members: Seq<Individual<W>>, flags: Seq<bool>, flag: bool) -> Seq<Individual<W>>
    decreases members.len(),
{
    if members.len() == 0 {
        seq![]
    } else {
        let rest = picked(members.drop_last(), flags.take(members.len() - 1), flag);
        if flags[members.len() - 1] == flag {
            rest.push(members.last())
        } else {
            rest
        }
    }
}

/// `crossed` is a crossover of `members` with flags `flags`: the members whose flag is
/// false first, in order; then the children of the flagged members, paired in order;
/// then an odd flagged member out, as it is.
pub open spec fn crossover_of<W>(members: Seq<Individual<W>>, flags: Seq<bool>, crossed: Seq<Individual<W>>) -> bool {
    let kept = picked(members, flags, false);
    let crossing = picked(members, flags, true);
    &&& flags.len() == members.len()
    &&& crossed.len() == members.len()
    &&& crossed.take(kept.len() as int) == kept
    &&& forall|j: int|
        0 <= j < crossing.len() / 2 ==> children_of(
            #[trigger] crossing[2 * j],
            crossing[2 * j + 1],
            crossed[kept.len() + 2 * j],
            crossed[kept.len() + 2 * j + 1],
        )
    &&& crossing.len() % 2 == 1 ==> crossed.last() == crossing.last()
}

/// `new` can follow from `old` by one generation: a roulette pick of as many members
/// (see [`selected_from`]), a crossover of the picks, then mutation, which keeps each
/// chromosome's length and changes genes by random real amounts.
pub open spec fn generation_step<W>(old: Seq<Individual<W>>, new: Seq<Individual<W>>) -> bool {
    exists|picks: Seq<Individual<W>>, flags: Seq<bool>, crossed: Seq<Individual<W>>|
        #[trigger] crossover_of(picks, flags, crossed) && picks.len() == old.len() && (forall|k: int|
            0 <= k < picks.len() ==> #[trigger] selected_from(picks[k], old)) && new.len() == crossed.len() && (
        forall|k: int|
            0 <= k < new.len() ==> (#[trigger] new[k]).chromosomes@.len() == crossed[k].chromosomes@.len())
}

/// Crossover of a whole population: `to_cross[i]` says whether member `i` takes part.
/// The members that do not take part come first, in order. The members that take
/// part follow, paired in order, each pair replaced by its two children; an odd one
/// out comes last, as it is.
pub fn cross_population<W: Real>(population: Vec<Individual<W>>, to_cross: &Vec<bool>, genes: usize) -> (r: Vec<
    Individual<W>,
>)
    requires
        to_cross@.len() == population@.len(),
        forall|i: int| 0 <= i < population@.len() ==> (#[trigger] population@[i]).chromosomes@.len() == genes,
    ensures
        r@.len() == population@.len(),
        forall|i: int| 0 <= i < r@.len() ==> (#[trigger] r@[i]).chromosomes@.len() == genes,
        crossover_of(population@, to_cross@, r@),
{
    let ghost all = population@;
    let ghost flags = to_cross@;
    let n = population.len();
    let mut crossing: Vec<Individual<W>> = Vec::new();
    let mut kept: Vec<Individual<W>> = Vec::new();
    let mut rest = population;
    let mut i: usize = 0;
    while i < n
        invariant
            n == to_cross@.len(),
            n == all.len(),
            flags == to_cross@,
            i <= n,
            rest@ == all.skip(i as int),
            kept@ == picked(all.take(i as int), flags.take(i as int), false),
            crossing@ == picked(all.take(i as int), flags.take(i as int), true),
            crossing@.len() + kept@.len() == i,
        decreases n - i,
    {
        proof {
            assert(all.take(i as int + 1).drop_last() =~= all.take(i as int));
            assert(flags.take(i as int + 1).take(i as int) =~= flags.take(i as int));
            assert(all.take(i as int + 1).last() == all[i as int]);
            assert(rest@[0] == all[i as int]);
        }
        let member = rest.remove(0);
        if to_cross[i] {
            crossing.push(member);
        } else {
            kept.push(member);
        }
        i = i + 1;
        proof {
            assert(rest@ =~= all.skip(i as int));
        }
    }
    proof {
        assert(all.take(n as int) =~= all);
        assert(flags.take(n as int) =~= flags);
        lemma_picked_lengths(all, flags, genes);
    }
    let ghost kept_all = kept@;
    let ghost crossing_all = crossing@;
    let odd = if crossing.len() % 2 == 1 {
        crossing.pop()
    } else {
        None
    };
    let ghost even = crossing@;
    assert(even =~= crossing_all.take(2 * (crossing_all.len() / 2) as int));
    let pairs = pair_up(crossing);
    let m = pairs.len();
    let ghost all_pairs = pairs@;
    let mut pairs = pairs;
    let mut k: usize = 0;
    while k < m
        invariant
            k <= m,
            m == all_pairs.len(),
            m == crossing_all.len() / 2,
            pairs@ == all_pairs.skip(k as int),
            forall|j: int| 0 <= j < m ==> #[trigger] all_pairs[j] == (crossing_all[2 * j], crossing_all[2 * j + 1]),
            forall|j: int| 0 <= j < crossing_all.len() ==> (#[trigger] crossing_all[j]).chromosomes@.len() == genes,
            kept@.len() == kept_all.len() + 2 * k,
            kept@.take(kept_all.len() as int) == kept_all,
            forall|j: int| 0 <= j < kept@.len() ==> (#[trigger] kept@[j]).chromosomes@.len() == genes,
            forall|j: int|
                0 <= j < k ==> children_of(
                    #[trigger] crossing_all[2 * j],
                    crossing_all[2 * j + 1],
                    kept@[kept_all.len() + 2 * j],
                    kept@[kept_all.len() + 2 * j + 1],
                ),
        decreases m - k,
    {
        proof {
            assert(pairs@[0] == all_pairs[k as int]);
        }
        let (first, second) = pairs.remove(0);
        let (a, b) = first.cross(second);
        let ghost before = kept@;
        kept.push(a);
        kept.push(b);
        proof {
            assert(kept@.take(kept_all.len() as int) =~= before.take(kept_all.len() as int));
            assert(kept@[kept_all.len() + 2 * k] == a);
            assert(kept@[kept_all.len() + 2 * k + 1] == b);
            assert forall|j: int| 0 <= j < k + 1 implies children_of(
                #[trigger] crossing_all[2 * j],
                crossing_all[2 * j + 1],
                kept@[kept_all.len() + 2 * j],
                kept@[kept_all.len() + 2 * j + 1],
            ) by {
                if j < k {
                    assert(kept@[kept_all.len() + 2 * j] == before[kept_all.len() + 2 * j]);
                    assert(kept@[kept_all.len() + 2 * j + 1] == before[kept_all.len() + 2 * j + 1]);
                }
            }
        }
        k = k + 1;
        proof {
            assert(pairs@ =~= all_pairs.skip(k as int));
        }
    }
    let ghost before_odd = kept@;
    match odd {
        Some(o) => kept.push(o),
        None => {},
    }
    proof {
        assert(kept@.take(kept_all.len() as int) =~= before_odd.take(kept_all.len() as int));
        assert forall|j: int| 0 <= j < crossing_all.len() / 2 implies children_of(
            #[trigger] crossing_all[2 * j],
            crossing_all[2 * j + 1],
            kept@[kept_all.len() + 2 * j],
            kept@[kept_all.len() + 2 * j + 1],
        ) by {
            assert(kept@[kept_all.len() + 2 * j] == before_odd[kept_all.len() + 2 * j]);
            assert(kept@[kept_all.len() + 2 * j + 1] == before_odd[kept_all.len() + 2 * j + 1]);
        }
    }
    kept
}

proof fn lemma_picked_lengths<W>(members: Seq<Individual<W>>, flags: Seq<bool>, genes: usize)
    requires
        flags.len() == members.len(),
        forall|i: int| 0 <= i < members.len() ==> (#[trigger] members[i]).chromosomes@.len() == genes,
    ensures
        forall|i: int|
            0 <= i < picked(members, flags, true).len() ==> (#[trigger] picked(members, flags, true)[i]).chromosomes@.len()
                == genes,
        forall|i: int|
            0 <= i < picked(members, flags, false).len() ==> (#[trigger] picked(members, flags, false)[i]).chromosomes@.len()
                == genes,
    decreases members.len(),
{
    if members.len() > 0 {
        let front = members.drop_last();
        assert forall|i: int| 0 <= i < front.len() implies (#[trigger] front[i]).chromosomes@.len() == genes by {
            assert(front[i] == members[i]);
        }
        lemma_picked_lengths(front, flags.take(members.len() - 1), genes);
        assert(members.last() == members[members.len() - 1]);
        let t = picked(front, flags.take(members.len() - 1), true);
        let f = picked(front, flags.take(members.len() - 1), false);
        assert forall|i: int| 0 <= i < t.push(members.last()).len() implies (#[trigger] t.push(
            members.last(),
        )[i]).chromosomes@.len() == genes by {
            if i < t.len() {
                assert(t.push(members.last())[i] == t[i]);
            }
        }
        assert forall|i: int| 0 <= i < f.push(members.last()).len() implies (#[trigger] f.push(
            members.last(),
        )[i]).chromosomes@.len() == genes by {
            if i < f.len() {
                assert(f.push(members.last())[i] == f[i]);
            }
        }
    }
}

/// The sum of the members' fitness.
pub open spec fn fitness_sum<W>(members: Seq<Individual<W>>) -> int
    decreases members.len(),
{
    if members.len() == 0 {
        0
    } else {
        fitness_sum(members.drop_last()) + members.last().evaluation
    }
}

/// Member `i` is the roulette's choice for the draw `r`: the first member whose
/// running fitness sum exceeds `r`.
pub open spec fn is_roulette_choice<W>(members: Seq<Individual<W>>, r: int, i: int) -> bool {
    0 <= i < members.len() && fitness_sum(members.take(i)) <= r < fitness_sum(members.take(i + 1))
}

proof fn lemma_fitness_sum_step<W>(members: Seq<Individual<W>>, i: int)
    requires
        0 <= i < members.len(),
    ensures
        fitness_sum(members.take(i + 1)) == fitness_sum(members.take(i)) + members[i].evaluation,
{
    assert(members.take(i + 1).drop_last() =~= members.take(i));
}

/// The sum of the members' fitness, which a `u128` always holds.
pub fn total_fitness<W>(members: &Vec<Individual<W>>) -> (r: u128)
    ensures
        r == fitness_sum(members@),
{
    let n = members.len();
    let mut total: u128 = 0;
    let mut i: usize = 0;
    while i < n
        invariant
            n == members@.len(),
            i <= n,
            total == fitness_sum(members@.take(i as int)),
            total <= i * 0xffff_ffff_ffff_ffffu128,
        decreases n - i,
    {
        proof {
            lemma_fitness_sum_step(members@, i as int);
            assert(i * 0xffff_ffff_ffff_ffffu128 + 0xffff_ffff_ffff_ffffu128 == (i + 1) * 0xffff_ffff_ffff_ffffu128)
                by (nonlinear_arith);
            assert((i + 1) * 0xffff_ffff_ffff_ffffu128 <= 0x1_0000_0000_0000_0000u128 * 0xffff_ffff_ffff_ffffu128)
                by (nonlinear_arith)
                requires
                    i < n,
                    n <= usize::MAX,
            ;
        }
        total = total + members[i].evaluation as u128;
        i = i + 1;
    }
    proof {
        assert(members@.take(n as int) =~= members@);
    }
    total
}

/// The roulette's choice for the draw `r` (see [`is_roulette_choice`]).
pub fn roulette_index<W>(members: &Vec<Individual<W>>, r: u128) -> (i: usize)
    requires
        r < fitness_sum(members@),
    ensures
        is_roulette_choice(members@, r as int, i as int),
{
    let n = members.len();
    let total = total_fitness(members);
    let mut running: u128 = 0;
    let mut i: usize = 0;
    while i < n
        invariant
            n == members@.len(),
            i <= n,
            total == fitness_sum(members@),
            running == fitness_sum(members@.take(i as int)),
            running <= r,
            running <= total,
        decreases n - i,
    {
        proof {
            lemma_fitness_sum_step(members@, i as int);
            lemma_fitness_sum_prefix(members@, i as int + 1);
        }
        running = running + members[i].evaluation as u128;
        if r < running {
            return i;
        }
        i = i + 1;
    }
    proof {
        assert(members@.take(n as int) =~= members@);
    }
    unreached()
}

proof fn lemma_fitness_sum_prefix<W>(members: Seq<Individual<W>>, k: int)
    requires
        0 <= k <= members.len(),
    ensures
        0 <= fitness_sum(members.take(k)) <= fitness_sum(members),
    decreases members.len() - k,
{
    if k == members.len() {
        assert(members.take(k) =~= members);
        lemma_fitness_sum_nonneg(members);
    } else {
        lemma_fitness_sum_prefix(members, k + 1);
        lemma_fitness_sum_step(members, k);
        lemma_fitness_sum_nonneg(members.take(k));
    }
}

proof fn lemma_fitness_sum_nonneg<W>(members: Seq<Individual<W>>)
    ensures
        fitness_sum(members) >= 0,
    decreases members.len(),
{
    if members.len() > 0 {
        lemma_fitness_sum_nonneg(members.drop_last());
    }
}

/// `member` carries the genes and the fitness of member `i` of `members`.
pub open spec fn copy_of<W>(member: Individual<W>, members: Seq<Individual<W>>, i: int) -> bool {
    &&& 0 <= i < members.len()
    &&& member.chromosomes@ == members[i].chromosomes@
    &&& member.evaluation == members[i].evaluation
}

/// `member` is a copy of a member of `members` that the roulette can choose: when the
/// fitness sum is positive, the choice for some draw below it.
pub open spec fn selected_from<W>(member: Individual<W>, members: Seq<Individual<W>>) -> bool {
    exists|i: int|
        #[trigger] copy_of(member, members, i) && (fitness_sum(members) > 0 ==> exists|d: int|
            0 <= d < fitness_sum(members) && is_roulette_choice(members, d, i))
}

/// Fitness-proportionate selection of `members.len()` members, with replacement: each
/// pick is the roulette's choice for a random draw below the fitness sum, so a
/// member's chance is its fitness over that sum. When the sum is zero every member is
/// equally likely.
pub fn selection<W: Copy>(members: &Vec<Individual<W>>) -> (r: Vec<Individual<W>>)
    ensures
        r@.len() == members@.len(),
        forall|k: int| 0 <= k < r@.len() ==> #[trigger] selected_from(r@[k], members@),
{
    let n = members.len();
    let total = total_fitness(members);
    let mut chosen: Vec<Individual<W>> = Vec::with_capacity(n);
    let mut k: usize = 0;
    while k < n
        invariant
            n == members@.len(),
            total == fitness_sum(members@),
            k <= n,
            chosen@.len() == k,
            forall|t: int| 0 <= t < k ==> #[trigger] selected_from(chosen@[t], members@),
        decreases n - k,
    {
        let index = if total > 0 {
            let d = random_below(total);
            let i = roulette_index(members, d);
            assert(is_roulette_choice(members@, d as int, i as int));
            i
        } else {
            random_below(n as u128) as usize
        };
        let member = Individual {
            chromosomes: copy_genes(&members[index].chromosomes),
            evaluation: members[index].evaluation,
        };
        assert(copy_of(member, members@, index as int));
        let ghost before = chosen@;
        chosen.push(member);
        proof {
            assert forall|t: int| 0 <= t < k + 1 implies #[trigger] selected_from(chosen@[t], members@) by {
                if t < k {
                    assert(chosen@[t] == before[t]);
                } else {
                    assert(chosen@[t] == member);
                    assert(copy_of(chosen@[t], members@, index as int));
                }
            }
        }
        k = k + 1;
    }
    chosen
}

impl<W: Real> Individual<W> {
    /// An individual of `number_of_chromosomes` genes drawn from `min_val` to
    /// `max_val`, not evaluated yet (fitness zero).
    pub fn new<R: RandomSource<W>>(number_of_chromosomes: usize, min_val: W, max_val: W, rng: &mut R) -> (r: Self)
        ensures
            r.chromosomes@.len() == number_of_chromosomes,
            r.evaluation == 0,
    {
        let mut chromosomes: Vec<W> = Vec::with_capacity(number_of_chromosomes);
        let mut i: usize = 0;
        while i < number_of_chromosomes
            invariant
                i <= number_of_chromosomes,
                chromosomes@.len() == i,
            decreases number_of_chromosomes - i,
        {
            chromosomes.push(rng.between(min_val, max_val));
            i = i + 1;
        }
        Individual { chromosomes, evaluation: 0 }
    }

    /// Adds to each gene, with probability `mutation_prob`, a value drawn from
    /// `-mutation_range` to `mutation_range`. The fitness is left as it is.
    pub fn mutate<R: RandomSource<W>>(&mut self, mutation_range: W, mutation_prob: W, rng: &mut R)
        ensures
            final(self).chromosomes@.len() == old(self).chromosomes@.len(),
            final(self).evaluation == old(self).evaluation,
    {
        let n = self.chromosomes.len();
        let mut i: usize = 0;
        while i < n
            invariant
                n == self.chromosomes@.len(),
                i <= n,
                self.evaluation == old(self).evaluation,
            decreases n - i,
        {
            if rng.unit().rank() < mutation_prob.rank() {
                let delta = rng.between(mutation_range.negated(), mutation_range);
                let gene = self.chromosomes[i].plus(delta);
                self.chromosomes.set(i, gene);
            }
            i = i + 1;
        }
    }

    /// Sets the fitness to what `func` gives for the chromosome and `args`.
    pub fn evaluate<F: Fn(&Vec<W>, &T) -> u64, T>(&mut self, func: &F, args: &T)
        requires
            func.requires((&old(self).chromosomes, args)),
        ensures
            final(self).chromosomes@ == old(self).chromosomes@,
            func.ensures((&final(self).chromosomes, args), final(self).evaluation),
    {
        self.evaluation = func(&self.chromosomes, args);
    }
}

/// The settings of a population.
#[derive(Clone, Copy, Debug)]
pub struct PopulationOptions<W> {
    pub population_size: usize,
    pub number_of_chromosomes: usize,
    pub gen_min_val: W,
    pub gen_max_val: W,
    pub crossing_prob: W,
    pub mutation_prob: W,
    pub mutation_range: W,
    pub n_of_generations: u32,
}

impl<W> PopulationOptions<W> {
    pub fn new(
        population_size: usize,
        number_of_chromosomes: usize,
        gen_min_val: W,
        gen_max_val: W,
        crossing_prob: W,
        mutation_prob: W,
        mutation_range: W,
        n_of_generations: u32,
    ) -> (r: Self)
        ensures
            r == (PopulationOptions {
                population_size,
                number_of_chromosomes,
                gen_min_val,
                gen_max_val,
                crossing_prob,
                mutation_prob,
                mutation_range,
                n_of_generations,
            }),
    {
        PopulationOptions {
            population_size,
            number_of_chromosomes,
            gen_min_val,
            gen_max_val,
            crossing_prob,
            mutation_prob,
            mutation_range,
            n_of_generations,
        }
    }
}

/// Each member's fitness is a value that `f` may return for its chromosome and `args`.
pub open spec fn evaluated_by<W, F: Fn(&Vec<W>, &T) -> u64, T>(members: Seq<Individual<W>>, f: F, args: &T) -> bool {
    forall|i: int|
        0 <= i < members.len() ==> f.ensures((&(#[trigger] members[i]).chromosomes, args), members[i].evaluation)
}

/// Member `i` has the highest fitness, and every later member a lower one.
pub open spec fn is_last_best<W>(members: Seq<Individual<W>>, i: int) -> bool {
    &&& 0 <= i < members.len()
    &&& forall|j: int| 0 <= j < members.len() ==> (#[trigger] members[j]).evaluation <= members[i].evaluation
    &&& forall|j: int| i < j < members.len() ==> (#[trigger] members[j]).evaluation < members[i].evaluation
}

/// A population of individuals whose chromosomes all have the same length.
pub struct Population<W> {
    individuals: Vec<Individual<W>>,
    number_of_chromosomes: usize,
    crossing_prob: W,
    mutation_prob: W,
    mutation_range: W,
    n_of_generations: u32,
}

impl<W> Population<W> {
    #[verifier::type_invariant]
    spec fn inv(self) -> bool {
        forall|i: int|
            0 <= i < self.individuals@.len() ==> (#[trigger] self.individuals@[i]).chromosomes@.len()
                == self.number_of_chromosomes
    }

    /// The members, in order.
    pub closed spec fn members(&self) -> Seq<Individual<W>> {
        self.individuals@
    }

    /// The length of every chromosome.
    pub closed spec fn genes(&self) -> usize {
        self.number_of_chromosomes
    }

    /// The number of generations the population was set up for.
    pub closed spec fn generations(&self) -> u32 {
        self.n_of_generations
    }
}

impl<W: Real> Population<W> {
    /// `population_size` individuals with `number_of_chromosomes` random genes each,
    /// every one evaluated by `evaluation_function`.
    pub fn new<F: Fn(&Vec<W>, &T) -> u64, T, R: RandomSource<W>>(
        population_options: PopulationOptions<W>,
        evaluation_function: F,
        args: &T,
        rng: &mut R,
    ) -> (r: Self)
        requires
            forall|c: &Vec<W>| evaluation_function.requires((c, args)),
        ensures
            r.members().len() == population_options.population_size,
            r.genes() == population_options.number_of_chromosomes,
            r.generations() == population_options.n_of_generations,
            forall|i: int|
                0 <= i < r.members().len() ==> (#[trigger] r.members()[i]).chromosomes@.len()
                    == population_options.number_of_chromosomes,
            evaluated_by(r.members(), evaluation_function, args),
    {
        let o = population_options;
        let mut individuals: Vec<Individual<W>> = Vec::with_capacity(o.population_size);
        let mut i: usize = 0;
        while i < o.population_size
            invariant
                i <= o.population_size,
                individuals@.len() == i,
                forall|c: &Vec<W>| evaluation_function.requires((c, args)),
                forall|j: int|
                    0 <= j < i ==> (#[trigger] individuals@[j]).chromosomes@.len() == o.number_of_chromosomes,
                evaluated_by(individuals@, evaluation_function, args),
            decreases o.population_size - i,
        {
            let mut individual = Individual::new(o.number_of_chromosomes, o.gen_min_val, o.gen_max_val, rng);
            individual.evaluate(&evaluation_function, args);
            individuals.push(individual);
            i = i + 1;
        }
        Population {
            individuals,
            number_of_chromosomes: o.number_of_chromosomes,
            crossing_prob: o.crossing_prob,
            mutation_prob: o.mutation_prob,
            mutation_range: o.mutation_range,
            n_of_generations: o.n_of_generations,
        }
    }

    /// One generation: selection, crossover of the members that a draw below the
    /// crossing probability picks, mutation, and evaluation of every new member.
    pub fn generate_new_population<F: Fn(&Vec<W>, &T) -> u64, T, R: RandomSource<W>>(
        &mut self,
        evaluation_function: F,
        args: &T,
        rng: &mut R,
    )
        requires
            forall|c: &Vec<W>| evaluation_function.requires((c, args)),
        ensures
            final(self).members().len() == old(self).members().len(),
            final(self).genes() == old(self).genes(),
            final(self).generations() == old(self).generations(),
            forall|i: int|
                0 <= i < final(self).members().len() ==> (#[trigger] final(self).members()[i]).chromosomes@.len()
                    == final(self).genes(),
            evaluated_by(final(self).members(), evaluation_function, args),
            generation_step(old(self).members(), final(self).members()),
    {
        proof {
            use_type_invariant(&*self);
        }
        let genes = self.number_of_chromosomes;
        let selected = selection(&self.individuals);
        let n = selected.len();
        proof {
            assert forall|i: int| 0 <= i < selected@.len() implies (#[trigger] selected@[i]).chromosomes@.len()
                == genes by {
                assert(selected_from(selected@[i], self.individuals@));
                let j = choose|j: int| #[trigger] copy_of(selected@[i], self.individuals@, j);
            }
        }
        let mut to_cross: Vec<bool> = Vec::with_capacity(n);
        let mut i: usize = 0;
        while i < n
            invariant
                i <= n,
                to_cross@.len() == i,
            decreases n - i,
        {
            to_cross.push(rng.unit().rank() < self.crossing_prob.rank());
            i = i + 1;
        }
        let ghost picks = selected@;
        let mut rest = cross_population(selected, &to_cross, genes);
        let ghost crossed = rest@;
        let mut next: Vec<Individual<W>> = Vec::with_capacity(n);
        let mut k: usize = 0;
        while k < n
            invariant
                k <= n,
                rest@.len() == n - k,
                next@.len() == k,
                forall|c: &Vec<W>| evaluation_function.requires((c, args)),
                forall|j: int| 0 <= j < rest@.len() ==> (#[trigger] rest@[j]).chromosomes@.len() == genes,
                forall|j: int| 0 <= j < next@.len() ==> (#[trigger] next@[j]).chromosomes@.len() == genes,
                evaluated_by(next@, evaluation_function, args),
                crossed.len() == n,
                rest@ == crossed.skip(k as int),
                forall|j: int| 0 <= j < k ==> (#[trigger] next@[j]).chromosomes@.len() == crossed[j].chromosomes@.len(),
            decreases n - k,
        {
            proof {
                assert(rest@[0] == crossed[k as int]);
            }
            let mut member = rest.remove(0);
            member.mutate(self.mutation_range, self.mutation_prob, rng);
            member.evaluate(&evaluation_function, args);
            next.push(member);
            k = k + 1;
            proof {
                assert(rest@ =~= crossed.skip(k as int));
            }
        }
        proof {
            assert(crossover_of(picks, to_cross@, crossed));
            assert(forall|j: int| 0 <= j < picks.len() ==> #[trigger] selected_from(picks[j], self.individuals@));
        }
        self.individuals = next;
    }

    /// Index of the fittest member; among equally fit ones, the last.
    fn best_index(&self) -> (r: usize)
        requires
            self.members().len() > 0,
        ensures
            is_last_best(self.members(), r as int),
    {
        let n = self.individuals.len();
        let mut best: usize = 0;
        let mut i: usize = 1;
        while i < n
            invariant
                n == self.individuals@.len(),
                1 <= i <= n,
                best < i,
                forall|j: int| 0 <= j < i ==> (#[trigger] self.individuals@[j]).evaluation <= self.individuals@[best as int].evaluation,
                forall|j: int| best < j < i ==> (#[trigger] self.individuals@[j]).evaluation < self.individuals@[best as int].evaluation,
            decreases n - i,
        {
            if self.individuals[i].evaluation >= self.individuals[best].evaluation {
                best = i;
            }
            i = i + 1;
        }
        best
    }

    /// The highest fitness in the population.
    pub fn get_best_score(&self) -> (r: u64)
        requires
            self.members().len() > 0,
        ensures
            forall|i: int| 0 <= i < self.members().len() ==> (#[trigger] self.members()[i]).evaluation <= r,
            exists|i: int| 0 <= i < self.members().len() && r == (#[trigger] self.members()[i]).evaluation,
    {
        let b = self.best_index();
        self.individuals[b].evaluation
    }

    /// A copy of the chromosome of the fittest member, the last of equally fit ones.
    pub fn get_best_chromosomes(&self) -> (r: Vec<W>)
        requires
            self.members().len() > 0,
        ensures
            exists|i: int| #[trigger] is_last_best(self.members(), i) && r@ == self.members()[i].chromosomes@,
            r@.len() == self.genes(),
    {
        proof {
            use_type_invariant(self);
        }
        let b = self.best_index();
        let r = copy_genes(&self.individuals[b].chromosomes);
        assert(is_last_best(self.members(), b as int));
        r
    }

    /// The members, in order.
    pub fn individuals(&self) -> (r: &Vec<Individual<W>>)
        ensures
            r@ == self.members(),
    {
        &self.individuals
    }

    /// The number of generations the population was set up for.
    pub fn n_of_generations(&self) -> (r: u32)
        ensures
            r == self.generations(),
    {
        self.n_of_generations
    }
}

} // verus!

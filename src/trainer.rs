//! Playing whole games with a network, and evolving networks over generations.
use vstd::prelude::*;
use crate::genetic::{evaluated_by, generation_step, is_last_best, Individual, Population, PopulationOptions, RandomSource};
use crate::network::{ranks, NeuralNetwork, NeuralNetworkOptions, Real};
use crate::sensors::{generate_network_input, Feature, FIRST_LAYER_SIZE, MAX_DISTANCE_SQ};
use crate::game::{tick_outcome, Game};
use crate::grid::{Direction, Position, GRID_HEIGHT, GRID_WIDTH};
use crate::snake::{Ate, Snake};
use crate::spawn::generate_random_position_with_distance;

verus! {

/// Width of the output layer: one neuron for each direction.
pub const OUTPUT_LAYER_SIZE: usize = 4;

/// A game ends once this many ticks pass without an apple.
pub const MAX_STEPS_WITHOUT_APPLE: u64 = 150;

/// How a game went.
#[derive(Clone, Copy, Debug, PartialEq, Eq, Structural)]
pub struct EpisodeOutcome {
    /// Ticks played.
    pub steps: u64,
    /// Apples eaten.
    pub apples: u64,
    /// Ticks since the last apple (or since the start).
    pub steps_without_apple: u64,
    /// The snake hit a wall or itself, or filled the board.
    pub game_over: bool,
}

/// A feature as a network input: a distance over the board's diagonal, or 1 or 0.
pub fn feature_value<W: Real>(feature: Feature) -> W {
    match feature {
        Feature::Distance(sq) => W::from_count(sq).sqrt().divided_by(W::from_count(MAX_DISTANCE_SQ).sqrt()),
        Feature::Flag(true) => W::one(),
        Feature::Flag(false) => W::zero(),
    }
}

/// Each feature as a network input.
pub fn feature_values<W: Real>(features: &Vec<Feature>) -> (r: Vec<W>)
    ensures
        r@.len() == features@.len(),
{
    let n = features.len();
    let mut out: Vec<W> = Vec::with_capacity(n);
    let mut i: usize = 0;
    while i < n
        invariant
            n == features@.len(),
            i <= n,
            out@.len() == i,
        decreases n - i,
    {
        out.push(feature_value(features[i]));
        i = i + 1;
    }
    out
}

/// Scanning `keys` from the left with `(0, floor)` as the best so far, each key above
/// the best so far becomes the best: the index and key of the first largest key above
/// `floor`, or `(0, floor)` when no key is above it.
pub open spec fn scan_best(keys: Seq<i64>, floor: i64) -> (int, i64)
    decreases keys.len(),
{
    if keys.len() == 0 {
        (0, floor)
    } else {
        let before = scan_best(keys.drop_last(), floor);
        if keys.last() > before.1 {
            (keys.len() - 1, keys.last())
        } else {
            before
        }
    }
}

proof fn lemma_scan_best_in_range(keys: Seq<i64>, floor: i64)
    ensures
        keys.len() == 0 ==> scan_best(keys, floor).0 == 0,
        keys.len() > 0 ==> 0 <= scan_best(keys, floor).0 < keys.len(),
    decreases keys.len(),
{
    if keys.len() > 0 {
        lemma_scan_best_in_range(keys.drop_last(), floor);
    }
}

/// The index of the first largest key above `floor`; zero when none is above it.
pub fn first_max_above(keys: &Vec<i64>, floor: i64) -> (r: usize)
    ensures
        r == scan_best(keys@, floor).0,
        keys@.len() > 0 ==> r < keys@.len(),
{
    let n = keys.len();
    let mut max = floor;
    let mut index: usize = 0;
    let mut i: usize = 0;
    while i < n
        invariant
            n == keys@.len(),
            i <= n,
            (index as int, max) == scan_best(keys@.take(i as int), floor),
        decreases n - i,
    {
        proof {
            assert(keys@.take(i as int + 1).drop_last() =~= keys@.take(i as int));
            assert(keys@.take(i as int + 1).last() == keys@[i as int]);
        }
        if keys[i] > max {
            max = keys[i];
            index = i;
        }
        i = i + 1;
    }
    proof {
        assert(keys@.take(n as int) =~= keys@);
        lemma_scan_best_in_range(keys@, floor);
    }
    index
}

/// The direction for output keys `keys`: the first largest key above `floor`, read
/// as up, right, down, and left for the fourth and any later one; up when no key is
/// above `floor`.
pub fn choose_direction(keys: &Vec<i64>, floor: i64) -> (r: Direction)
    ensures
        r == Direction::spec_from_output_index(scan_best(keys@, floor).0),
{
    Direction::from_output_index(first_max_above(keys, floor))
}

/// The index of the first largest output above zero, by rank; zero when no output is
/// above zero.
pub fn output_index<W: Real>(output: &Vec<W>) -> (r: usize)
    ensures
        exists|keys: Seq<i64>, floor: i64|
            keys.len() == output@.len() && r == (#[trigger] scan_best(keys, floor)).0,
        output@.len() == 0 ==> r == 0,
        output@.len() > 0 ==> r < output@.len(),
{
    let keys = ranks(output);
    first_max_above(&keys, W::zero().rank())
}

/// The direction that the network's output chooses (see [`choose_direction`]), with
/// the outputs' ranks as keys and the rank of zero as the floor.
pub fn interpret_network_output<W: Real>(output: &Vec<W>) -> (r: Direction)
    ensures
        exists|keys: Seq<i64>, floor: i64|
            keys.len() == output@.len() && r == Direction::spec_from_output_index(
                (#[trigger] scan_best(keys, floor)).0,
            ),
{
    let keys = ranks(output);
    choose_direction(&keys, W::zero().rank())
}

/// A new snake two cells or more from the walls leaves a cell free, so a game with it
/// can begin.
pub proof fn lemma_room_for_food(start: Position)
    requires
        2 <= start.x < GRID_WIDTH - 2,
        2 <= start.y < GRID_HEIGHT - 2,
    ensures
        exists|p: Position| p.in_grid() && !Snake::new_view(start).covers(p),
{
    let p = Position { x: (start.x + 1) as i16, y: start.y };
    assert(!Snake::new_view(start).covers(p));
    assert(p.in_grid());
}

/// A new game with the snake two cells or more from the walls.
pub fn start_game() -> (r: Game)
    ensures
        r.wf(),
        !r@.game_over,
        r@.score == 0,
        exists|p: Position|
            2 <= p.x < GRID_WIDTH - 2 && 2 <= p.y < GRID_HEIGHT - 2 && r@.snake == Snake::new_view(p),
{
    let start = generate_random_position_with_distance(2);
    proof {
        lemma_room_for_food(start);
    }
    match Game::new(start) {
        Some(g) => g,
        None => {
            proof {
                let p = choose|p: Position| p.in_grid() && !Snake::new_view(start).covers(p);
                assert(Snake::new_view(start).covers(p));
            }
            unreached()
        },
    }
}

/// One tick of `game` steered by `network`: the network reads the snake's sensors,
/// its output picks a direction, and the game moves on. Returns what the snake ran
/// into.
pub fn network_tick<W: Real>(network: &NeuralNetwork<W>, game: &mut Game) -> (r: Option<Ate>)
    requires
        old(game).wf(),
        !old(game)@.game_over,
        old(game)@.score < u64::MAX,
        network@.sizes.len() >= 1,
        network@.sizes[0] == FIRST_LAYER_SIZE,
    ensures
        final(game).wf(),
        exists|d: Direction| #[trigger] tick_outcome(old(game)@.steered(d), final(game)@, r),
{
    let ghost before = game@;
    let input = feature_values(&generate_network_input(game.snake(), game.food()));
    let output = match network.get_output(input) {
        Ok(o) => o,
        Err(_) => {
            unreached()
        },
    };
    let d = interpret_network_output(&output);
    game.steer(d);
    let r = game.tick();
    assert(tick_outcome(before.steered(d), game@, r));
    r
}

/// One game played by `network`: the snake starts two cells or more from the walls,
/// and the game ends when it hits a wall or itself, fills the board, goes
/// `max_steps_without_apple` ticks without an apple, or has played `max_steps` ticks.
pub fn play_episode<W: Real>(network: &NeuralNetwork<W>, max_steps_without_apple: u64, max_steps: u64) -> (r:
    EpisodeOutcome)
    requires
        network@.sizes.len() >= 1,
        network@.sizes[0] == FIRST_LAYER_SIZE,
    ensures
        r.steps <= max_steps,
        r.apples <= r.steps,
        max_steps > 0 && max_steps_without_apple > 0 ==> r.steps >= 1,
        r.steps <= max_steps_without_apple * (r.apples + 1),
        r.steps_without_apple <= r.steps,
        r.steps_without_apple <= max_steps_without_apple,
        r.steps == max_steps || r.steps_without_apple == max_steps_without_apple || r.game_over,
{
    let mut game = start_game();
    let mut steps: u64 = 0;
    let mut steps_without_apple: u64 = 0;
    while steps < max_steps && steps_without_apple < max_steps_without_apple && !game.is_over()
        invariant
            game.wf(),
            network@.sizes.len() >= 1,
            network@.sizes[0] == FIRST_LAYER_SIZE,
            game@.score <= steps <= max_steps,
            steps_without_apple <= steps,
            steps_without_apple <= max_steps_without_apple,
            steps <= max_steps_without_apple * game@.score + steps_without_apple,
            steps == 0 ==> !game@.game_over,
        decreases max_steps - steps,
    {
        let ghost score = game@.score;
        steps = steps + 1;
        steps_without_apple = steps_without_apple + 1;
        match network_tick(network, &mut game) {
            Some(Ate::Food) => {
                proof {
                    assert(game@.score == score + 1);
                    assert(max_steps_without_apple * (score + 1) == max_steps_without_apple * score
                        + max_steps_without_apple) by (nonlinear_arith);
                }
                steps_without_apple = 0;
            },
            _ => {
                assert(game@.score == score);
            },
        }
    }
    proof {
        let cap = max_steps_without_apple as int;
        let a = game@.score as int;
        assert(cap * a + cap == cap * (a + 1)) by (nonlinear_arith);
    }
    EpisodeOutcome { steps, apples: game.score(), steps_without_apple, game_over: game.is_over() }
}

/// The settings of a training run.
#[derive(Clone, Debug)]
pub struct MLSnakeOptions<W> {
    pub genetic_algorithm_options: PopulationOptions<W>,
    pub neural_network_options: NeuralNetworkOptions,
}

impl<W> MLSnakeOptions<W> {
    pub fn new(genetic_algorithm_options: PopulationOptions<W>, neural_network_options: NeuralNetworkOptions) -> (r:
        Self)
        ensures
            r.genetic_algorithm_options == genetic_algorithm_options,
            r.neural_network_options == neural_network_options,
    {
        MLSnakeOptions { genetic_algorithm_options, neural_network_options }
    }
}

/// What a training run leaves: the best chromosome and the best fitness of every
/// generation, in order, and the generations themselves as mathematical values.
pub struct TrainingRecord<W> {
    pub champions: Vec<Vec<W>>,
    pub best_scores: Vec<u64>,
    /// The population before the first generation.
    pub initial: Ghost<Seq<Individual<W>>>,
    pub generations: Ghost<Seq<Seq<Individual<W>>>>,
}

impl<W> TrainingRecord<W> {
    /// The population that generation `k` was made from.
    pub open spec fn parent(self, k: int) -> Seq<Individual<W>> {
        if k == 0 {
            self.initial@
        } else {
            self.generations@[k - 1]
        }
    }
}

/// Generation `k` of `r` followed from the one before by a generation step and was
/// scored by `evaluate`, and its champion and best score are those of its fittest
/// member, the last of equally fit ones.
pub open spec fn recorded_generation<W, F: Fn(&Vec<W>, &NeuralNetworkOptions) -> u64>(
    r: TrainingRecord<W>,
    k: int,
    size: usize,
    evaluate: F,
    args: &NeuralNetworkOptions,
) -> bool {
    let members = r.generations@[k];
    &&& generation_step(r.parent(k), members)
    &&& members.len() == size
    &&& evaluated_by(members, evaluate, args)
    &&& size > 0 ==> exists|i: int|
        #[trigger] is_last_best(members, i) && r.champions@[k]@ == members[i].chromosomes@
            && r.best_scores@[k] == members[i].evaluation
}

pub struct SnakeTrainer;

impl SnakeTrainer {
    /// Evolves a population over the configured number of generations, scoring each
    /// chromosome with `evaluate`, and records each generation's best.
    pub fn train<W: Real, F: Fn(&Vec<W>, &NeuralNetworkOptions) -> u64, R: RandomSource<W>>(
        options: &MLSnakeOptions<W>,
        evaluate: F,
        rng: &mut R,
    ) -> (r: TrainingRecord<W>)
        requires
            forall|c: &Vec<W>| evaluate.requires((c, &options.neural_network_options)),
        ensures
            r.champions@.len() == options.genetic_algorithm_options.n_of_generations,
            r.best_scores@.len() == options.genetic_algorithm_options.n_of_generations,
            options.genetic_algorithm_options.population_size > 0 ==> forall|i: int|
                0 <= i < r.champions@.len() ==> (#[trigger] r.champions@[i])@.len()
                    == options.genetic_algorithm_options.number_of_chromosomes,
            r.generations@.len() == options.genetic_algorithm_options.n_of_generations,
            r.initial@.len() == options.genetic_algorithm_options.population_size,
            evaluated_by(r.initial@, &evaluate, &options.neural_network_options),
            forall|k: int|
                0 <= k < r.generations@.len() ==> #[trigger] recorded_generation(
                    r,
                    k,
                    options.genetic_algorithm_options.population_size,
                    &evaluate,
                    &options.neural_network_options,
                ),
    {
        let args = &options.neural_network_options;
        let generations = options.genetic_algorithm_options.n_of_generations;
        let mut population = Population::new(options.genetic_algorithm_options, &evaluate, args, rng);
        let mut champions: Vec<Vec<W>> = Vec::new();
        let mut best_scores: Vec<u64> = Vec::new();
        let ghost initial = population.members();
        let ghost mut history: Seq<Seq<Individual<W>>> = seq![];
        let mut g: u32 = 0;
        while g < generations
            invariant
                g <= generations,
                generations == options.genetic_algorithm_options.n_of_generations,
                champions@.len() == g,
                best_scores@.len() == g,
                population.members().len() == options.genetic_algorithm_options.population_size,
                population.genes() == options.genetic_algorithm_options.number_of_chromosomes,
                forall|c: &Vec<W>| evaluate.requires((c, args)),
                options.genetic_algorithm_options.population_size > 0 ==> forall|i: int|
                    0 <= i < champions@.len() ==> (#[trigger] champions@[i])@.len()
                        == options.genetic_algorithm_options.number_of_chromosomes,
                history.len() == g,
                initial.len() == options.genetic_algorithm_options.population_size,
                evaluated_by(initial, &evaluate, args),
                population.members() == (if g == 0 {
                    initial
                } else {
                    history[g - 1]
                }),
                forall|k: int|
                    0 <= k < g ==> #[trigger] recorded_generation(
                        TrainingRecord { champions, best_scores, initial: Ghost(initial), generations: Ghost(history) },
                        k,
                        options.genetic_algorithm_options.population_size,
                        &evaluate,
                        args,
                    ),
            decreases generations - g,
        {
            let ghost parent = population.members();
            population.generate_new_population(&evaluate, args, rng);
            let ghost members = population.members();
            let ghost before = TrainingRecord { champions, best_scores, initial: Ghost(initial), generations: Ghost(history) };
            if population.individuals().len() > 0 {
                let score = population.get_best_score();
                let champion = population.get_best_chromosomes();
                best_scores.push(score);
                champions.push(champion);
                proof {
                    let i = choose|i: int| #[trigger] is_last_best(members, i) && champion@ == members[i].chromosomes@;
                    let j = choose|j: int| 0 <= j < members.len() && score == (#[trigger] members[j]).evaluation;
                    assert(members[j].evaluation <= members[i].evaluation);
                }
            } else {
                best_scores.push(0);
                champions.push(Vec::new());
            }
            proof {
                history = history.push(members);
                let after = TrainingRecord { champions, best_scores, initial: Ghost(initial), generations: Ghost(history) };
                assert forall|k: int| 0 <= k < g + 1 implies #[trigger] recorded_generation(
                    after,
                    k,
                    options.genetic_algorithm_options.population_size,
                    &evaluate,
                    args,
                ) by {
                    if k < g {
                        assert(recorded_generation(
                            before,
                            k,
                            options.genetic_algorithm_options.population_size,
                            &evaluate,
                            args,
                        ));
                        assert(after.generations@[k] == before.generations@[k]);
                        assert(after.champions@[k] == before.champions@[k]);
                        assert(after.best_scores@[k] == before.best_scores@[k]);
                        assert(after.parent(k) == before.parent(k));
                    } else {
                        assert(after.generations@[k] == members);
                        assert(after.parent(k) == parent);
                    }
                }
            }
            g = g + 1;
        }
        TrainingRecord { champions, best_scores, initial: Ghost(initial), generations: Ghost(history) }
    }
}

} // verus!

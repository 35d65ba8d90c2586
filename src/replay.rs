//! Replaying the champions of a training run, one game each, as a viewer shows them.
use vstd::prelude::*;
use crate::game::{tick_outcome, Game, GameView};
use crate::genetic::copy_genes;
use crate::grid::Direction;
use crate::snake::Ate;
use crate::network::{NetworkError, NetworkView, NeuralNetwork, NeuralNetworkOptions, Real};
use crate::sensors::FIRST_LAYER_SIZE;
use crate::trainer::{network_tick, start_game};

verus! {

/// What a viewer does after an update.
#[derive(Clone, Copy, Debug, PartialEq, Eq, Structural)]
pub enum ReplayAction {
    Continue,
    Quit,
}

/// A replay as a mathematical value.
pub struct ReplayView<W> {
    /// The next champion to play.
    pub index: int,
    pub champions: Seq<Vec<W>>,
    pub game: GameView,
    /// The viewer asked to skip the current game.
    pub stop: bool,
    pub network: NetworkView<W>,
}

impl<W> ReplayView<W> {
    /// The current game goes on at the next update.
    pub open spec fn playing(self) -> bool {
        !self.game.game_over && !self.stop && self.game.score < u64::MAX
    }
}

/// Where a replay of `n` champions starts: the last twentieth of them.
pub open spec fn start_index(n: int) -> int {
    n * 95 / 100
}

/// Plays champion after champion with one network whose weights are swapped in.
pub struct Replay<W> {
    current_game_index: usize,
    weights: Vec<Vec<W>>,
    game: Game,
    network: NeuralNetwork<W>,
    stop: bool,
}

impl<W> View for Replay<W> {
    type V = ReplayView<W>;

    closed spec fn view(&self) -> ReplayView<W> {
        ReplayView {
            index: self.current_game_index as int,
            champions: self.weights@,
            game: self.game@,
            stop: self.stop,
            network: self.network@,
        }
    }
}

impl<W: Real> Replay<W> {
    /// The replay is well formed: its game is, and its network reads the sensors.
    pub open spec fn wf(&self) -> bool {
        &&& self@.game.snake.wf()
        &&& self@.game.running_ok()
        &&& self@.network.sizes.len() >= 1
        &&& self@.network.sizes[0] == FIRST_LAYER_SIZE
        &&& self@.index <= self@.champions.len()
    }

    /// A replay that starts with a game of the first champion and then goes on from
    /// the last twentieth of `weights`.
    pub fn new(neural_network_options: NeuralNetworkOptions, weights: Vec<Vec<W>>) -> (r: Result<
        Replay<W>,
        NetworkError,
    >)
        requires
            weights@.len() > 0,
        ensures
            r matches Ok(rp) ==> rp.wf() && rp@.champions == weights@ && rp@.index == start_index(
                weights@.len() as int,
            ) && !rp@.stop && !rp@.game.game_over && rp@.network.weights == weights@[0]@,
            r is Err ==> !shape_fits(neural_network_options, weights@[0]@),
    {
        let first = copy_genes(&weights[0]);
        let network = match NeuralNetwork::new_with_weights(first, neural_network_options) {
            Ok(n) => n,
            Err(e) => {
                return Err(e);
            },
        };
        let sizes = network.layer_sizes();
        if sizes.len() == 0 {
            return Err(NetworkError::ShapeMismatch { layers: 0, activations: 0 });
        }
        if sizes[0] as usize != FIRST_LAYER_SIZE {
            return Err(NetworkError::InputSizeMismatch { expected: sizes[0] as usize, actual: FIRST_LAYER_SIZE });
        }
        let n = weights.len();
        let current_game_index = n / 100 * 95 + n % 100 * 95 / 100;
        Ok(Replay { current_game_index, weights, game: start_game(), network, stop: false })
    }

    /// Asks to end the current game at the next update.
    pub fn skip(&mut self)
        ensures
            final(self)@ == (ReplayView { stop: true, ..old(self)@ }),
    {
        self.stop = true;
    }

    /// One update: a tick of the current game while it runs; otherwise the next
    /// champion's weights go into the network and a new game starts; after the last
    /// champion the viewer quits. A champion whose weights do not fit leaves the
    /// network as it was.
    pub fn update(&mut self) -> (r: ReplayAction)
        requires
            old(self).wf(),
        ensures
            final(self).wf(),
            final(self)@.champions == old(self)@.champions,
            old(self)@.playing() ==> r == ReplayAction::Continue && final(self)@.index == old(self)@.index
                && final(self)@.stop == old(self)@.stop && final(self)@.network == old(self)@.network
                && exists|d: Direction, a: Option<Ate>| #[trigger] tick_outcome(
                old(self)@.game.steered(d),
                final(self)@.game,
                a,
            ),
            !old(self)@.playing() && old(self)@.index < old(self)@.champions.len() ==> {
                let o = old(self)@;
                let f = final(self)@;
                &&& r == ReplayAction::Continue
                &&& f.index == o.index + 1
                &&& !f.stop
                &&& !f.game.game_over
                &&& f.game.score == 0
                &&& f.network.sizes == o.network.sizes
                &&& f.network.functions == o.network.functions
                &&& o.champions[o.index]@.len() == o.network.weights.len() ==> f.network.weights
                    == o.champions[o.index]@
                &&& o.champions[o.index]@.len() != o.network.weights.len() ==> f.network.weights
                    == o.network.weights
            },
            !old(self)@.playing() && old(self)@.index >= old(self)@.champions.len() ==> r == ReplayAction::Quit
                && final(self)@ == old(self)@,
    {
        assert(self.game.wf());
        if !self.game.is_over() && !self.stop && self.game.score() < u64::MAX {
            network_tick(&self.network, &mut self.game);
            ReplayAction::Continue
        } else if self.current_game_index < self.weights.len() {
            let next = copy_genes(&self.weights[self.current_game_index]);
            let _ = self.network.update_weights(next);
            self.game = start_game();
            self.current_game_index = self.current_game_index + 1;
            self.stop = false;
            ReplayAction::Continue
        } else {
            ReplayAction::Quit
        }
    }

    pub fn game(&self) -> (r: &Game)
        ensures
            r@ == self@.game,
    {
        &self.game
    }

    /// The next champion to play.
    pub fn current_game_index(&self) -> (r: usize)
        ensures
            r == self@.index,
    {
        self.current_game_index
    }
}

/// `weights` fit the network that `options` describe, and it reads the sensors.
pub open spec fn shape_fits<W>(options: NeuralNetworkOptions, weights: Seq<W>) -> bool {
    &&& crate::network::shape_ok(options.layers_sizes_vec@, options.layers_functions@.len() as int)
    &&& weights.len() == crate::network::weight_count(options.layers_sizes_vec@)
    &&& options.layers_sizes_vec@[0] == FIRST_LAYER_SIZE
}

} // verus!

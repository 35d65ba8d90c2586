//! One game: a snake, an apple, the apples eaten so far, and whether it is over.
use vstd::prelude::*;
use crate::grid::{Direction, Position};
use crate::snake::{Ate, Food, Snake, SnakeView};
use crate::spawn::generate_new_food;

verus! {

/// A game as a mathematical value.
pub struct GameView {
    pub snake: SnakeView,
    pub food: Position,
    pub game_over: bool,
    pub score: u64,
}

impl GameView {
    /// The game after a request to head in `d`.
    pub open spec fn steered(self, d: Direction) -> GameView {
        GameView { snake: self.snake.after_turn(d), ..self }
    }

    /// While the game runs the head is on the board and the apple is on a free cell.
    pub open spec fn running_ok(self) -> bool {
        !self.game_over ==> self.snake.head.position.in_grid() && self.food.in_grid() && !self.snake.covers(
            self.food,
        )
    }
}

/// `new` and `r` can follow from `old` by one tick (see [`Game::tick`]).
pub open spec fn tick_outcome(old: GameView, new: GameView, r: Option<Ate>) -> bool {
    if old.game_over {
        r is None && new == old
    } else {
        let s = old.snake.step(old.food);
        &&& r == s.ate
        &&& new.snake == s
        &&& r == Some(Ate::Food) ==> new.score == old.score + 1 && (new.game_over <==> forall|p: Position|
            p.in_grid() ==> s.covers(p))
        &&& r != Some(Ate::Food) ==> new.score == old.score && new.food == old.food
        &&& r is None ==> !new.game_over
        &&& (r == Some(Ate::Border) || r == Some(Ate::Itself)) ==> new.game_over
    }
}

/// A game of snake.
pub struct Game {
    snake: Snake,
    food: Food,
    game_over: bool,
    score: u64,
}

impl View for Game {
    type V = GameView;

    closed spec fn view(&self) -> GameView {
        GameView { snake: self.snake@, food: self.food.position, game_over: self.game_over, score: self.score }
    }
}

impl Game {
    /// A game is well formed: the snake has a body, and while it runs the head and the
    /// apple are on the board, the apple on a free cell.
    pub open spec fn wf(&self) -> bool {
        &&& self@.snake.wf()
        &&& self@.running_ok()
    }

    /// A game with a new snake at `start` and an apple on a random free cell;
    /// `None` when the snake leaves no cell free.
    pub fn new(start: Position) -> (r: Option<Game>)
        requires
            start.in_grid(),
        ensures
            r matches Some(g) ==> g.wf() && !g@.game_over && g@.score == 0 && g@.snake == Snake::new_view(
                start,
            ),
            r is None ==> forall|p: Position| p.in_grid() ==> Snake::new_view(start).covers(p),
    {
        let snake = Snake::new(start);
        match generate_new_food(&snake) {
            Some(food) => Some(Game { snake, food, game_over: false, score: 0 }),
            None => None,
        }
    }

    /// Asks the snake to head in `direction` (see [`SnakeView::after_turn`]).
    pub fn steer(&mut self, direction: Direction)
        requires
            old(self).wf(),
        ensures
            final(self).wf(),
            final(self)@ == old(self)@.steered(direction),
    {
        self.snake.move_in_dir(direction);
    }

    /// One tick of a running game: the snake moves; an apple eaten adds one to the
    /// score and a new apple appears on a free cell, and the game is over when there
    /// is none; a wall or the body ends the game. A game that is over stays as it is.
    pub fn tick(&mut self) -> (r: Option<Ate>)
        requires
            old(self).wf(),
            old(self)@.score < u64::MAX,
        ensures
            final(self).wf(),
            tick_outcome(old(self)@, final(self)@, r),
    {
        if self.game_over {
            return None;
        }
        self.snake.update_state(&self.food);
        let ate = self.snake.get_ate();
        match ate {
            Some(Ate::Food) => {
                self.score = self.score + 1;
                match generate_new_food(&self.snake) {
                    Some(f) => {
                        self.food = f;
                    },
                    None => {
                        self.game_over = true;
                    },
                }
            },
            Some(_) => {
                self.game_over = true;
            },
            None => {},
        }
        ate
    }

    pub fn snake(&self) -> (r: &Snake)
        ensures
            r@ == self@.snake,
    {
        &self.snake
    }

    pub fn food(&self) -> (r: &Food)
        ensures
            r.position == self@.food,
    {
        &self.food
    }

    pub fn is_over(&self) -> (r: bool)
        ensures
            r == self@.game_over,
    {
        self.game_over
    }

    /// Apples eaten so far.
    pub fn score(&self) -> (r: u64)
        ensures
            r == self@.score,
    {
        self.score
    }
}

} // verus!

//! The board: grid coordinates and the four compass directions.
use vstd::prelude::*;

verus! {

/// Number of columns of the board.
pub const GRID_WIDTH: i16 = 10;

/// Number of rows of the board.
pub const GRID_HEIGHT: i16 = 10;

/// A cell of the board; `x` grows to the right and `y` grows downwards.
#[derive(Clone, Copy, Debug, PartialEq, Eq, Structural)]
pub struct Position {
    pub x: i16,
    pub y: i16,
}

/// One of the four directions a snake can move in.
#[allow(non_camel_case_types)]
#[derive(Clone, Copy, Debug, PartialEq, Eq, Structural)]
pub enum Direction {
    UP,
    LEFT,
    RIGHT,
    DOWN,
}

/// A move relative to the snake's current heading.
#[allow(non_camel_case_types)]
#[derive(Clone, Copy, Debug, PartialEq, Eq, Structural)]
pub enum Move {
    FORWARD,
    LEFT,
    RIGHT,
}

impl Direction {
    /// The opposite direction.
    pub open spec fn spec_inverse(self) -> Direction {
        match self {
            Direction::UP => Direction::DOWN,
            Direction::DOWN => Direction::UP,
            Direction::LEFT => Direction::RIGHT,
            Direction::RIGHT => Direction::LEFT,
        }
    }

    /// Column step of one move in this direction.
    pub open spec fn dx(self) -> int {
        match self {
            Direction::LEFT => -1,
            Direction::RIGHT => 1,
            _ => 0,
        }
    }

    /// Row step of one move in this direction.
    pub open spec fn dy(self) -> int {
        match self {
            Direction::UP => -1,
            Direction::DOWN => 1,
            _ => 0,
        }
    }

    /// The heading after a relative move: a quarter turn to the left or right, or none.
    pub open spec fn spec_turned(self, m: Move) -> Direction {
        match m {
            Move::FORWARD => self,
            Move::LEFT => match self {
                Direction::UP => Direction::LEFT,
                Direction::LEFT => Direction::DOWN,
                Direction::DOWN => Direction::RIGHT,
                Direction::RIGHT => Direction::UP,
            },
            Move::RIGHT => match self {
                Direction::UP => Direction::RIGHT,
                Direction::RIGHT => Direction::DOWN,
                Direction::DOWN => Direction::LEFT,
                Direction::LEFT => Direction::UP,
            },
        }
    }

    /// Position of this direction in the network's encodings: up, right, down, left.
    pub open spec fn spec_index(self) -> int {
        match self {
            Direction::UP => 0,
            Direction::RIGHT => 1,
            Direction::DOWN => 2,
            Direction::LEFT => 3,
        }
    }

    pub fn inverse(&self) -> (r: Direction)
        ensures
            r == self.spec_inverse(),
    {
        match self {
            Direction::UP => Direction::DOWN,
            Direction::DOWN => Direction::UP,
            Direction::LEFT => Direction::RIGHT,
            Direction::RIGHT => Direction::LEFT,
        }
    }

    pub fn turned(&self, m: Move) -> (r: Direction)
        ensures
            r == self.spec_turned(m),
    {
        match m {
            Move::FORWARD => *self,
            Move::LEFT => match self {
                Direction::UP => Direction::LEFT,
                Direction::LEFT => Direction::DOWN,
                Direction::DOWN => Direction::RIGHT,
                Direction::RIGHT => Direction::UP,
            },
            Move::RIGHT => match self {
                Direction::UP => Direction::RIGHT,
                Direction::RIGHT => Direction::DOWN,
                Direction::DOWN => Direction::LEFT,
                Direction::LEFT => Direction::UP,
            },
        }
    }

    /// The direction that an output neuron stands for: up, right, down, and left for
    /// every index from three on.
    pub open spec fn spec_from_output_index(index: int) -> Direction {
        if index == 0 {
            Direction::UP
        } else if index == 1 {
            Direction::RIGHT
        } else if index == 2 {
            Direction::DOWN
        } else {
            Direction::LEFT
        }
    }

    pub fn from_output_index(index: usize) -> (r: Direction)
        ensures
            r == Direction::spec_from_output_index(index as int),
            index < 4 ==> r.spec_index() == index,
    {
        if index == 0 {
            Direction::UP
        } else if index == 1 {
            Direction::RIGHT
        } else if index == 2 {
            Direction::DOWN
        } else {
            Direction::LEFT
        }
    }
}

impl Position {
    /// The cell lies on the board.
    pub open spec fn in_grid(self) -> bool {
        0 <= self.x < GRID_WIDTH && 0 <= self.y < GRID_HEIGHT
    }

    /// One step in direction `d` stays within `i16`.
    pub open spec fn can_move(self, d: Direction) -> bool {
        match d {
            Direction::UP => self.y > i16::MIN,
            Direction::DOWN => self.y < i16::MAX,
            Direction::LEFT => self.x > i16::MIN,
            Direction::RIGHT => self.x < i16::MAX,
        }
    }

    /// The neighbouring cell in direction `d`.
    pub open spec fn moved(self, d: Direction) -> Position
        recommends
            self.can_move(d),
    {
        Position { x: (self.x + d.dx()) as i16, y: (self.y + d.dy()) as i16 }
    }

    pub fn new(x: i16, y: i16) -> (r: Position)
        ensures
            r == (Position { x, y }),
    {
        Position { x, y }
    }

    pub fn make_a_move(&mut self, direction: Direction)
        requires
            old(self).can_move(direction),
        ensures
            *final(self) == old(self).moved(direction),
    {
        match direction {
            Direction::UP => self.y = self.y - 1,
            Direction::DOWN => self.y = self.y + 1,
            Direction::LEFT => self.x = self.x - 1,
            Direction::RIGHT => self.x = self.x + 1,
        }
    }
}

impl From<(i16, i16)> for Position {
    fn from(value: (i16, i16)) -> (r: Position) {
        Position { x: value.0, y: value.1 }
    }
}

impl vstd::std_specs::convert::FromSpecImpl<(i16, i16)> for Position {
    open spec fn obeys_from_spec() -> bool {
        true
    }

    open spec fn from_spec(v: (i16, i16)) -> Position {
        Position { x: v.0, y: v.1 }
    }
}

} // verus!

//! The snake game's rules: movement, turning, growth and collisions.
use std::collections::VecDeque;
use vstd::prelude::*;
use crate::grid::{Direction, Move, Position};

verus! {

/// The snake's head: where it is and where it is heading.
#[derive(Clone, Copy, Debug, PartialEq, Eq, Structural)]
pub struct Head {
    pub position: Position,
    pub direction: Direction,
}

/// A body cell, with the direction the head was moving in when it left that cell.
#[derive(Clone, Copy, Debug, PartialEq, Eq, Structural)]
pub struct Segment {
    pub position: Position,
    pub direction: Direction,
}

/// The apple on the board.
#[derive(Clone, Copy, Debug, PartialEq, Eq, Structural)]
pub struct Food {
    pub position: Position,
}

/// What the head ran into during the last tick.
#[derive(Clone, Copy, Debug, PartialEq, Eq, Structural)]
pub enum Ate {
    Itself,
    Food,
    Border,
}

impl Head {
    pub fn new(position: Position, direction: Direction) -> (r: Head)
        ensures
            r == (Head { position, direction }),
    {
        Head { position, direction }
    }
}

impl Segment {
    pub fn new(position: Position, direction: Direction) -> (r: Segment)
        ensures
            r == (Segment { position, direction }),
    {
        Segment { position, direction }
    }
}

impl Food {
    pub fn new(position: Position) -> (r: Food)
        ensures
            r == (Food { position }),
    {
        Food { position }
    }

    pub fn get_position(&self) -> (r: Position)
        ensures
            r == self.position,
    {
        self.position
    }
}

/// The state of a snake as a mathematical value.
pub struct SnakeView {
    pub head: Head,
    /// Body cells, the one next to the head first.
    pub body: Seq<Segment>,
    pub ate: Option<Ate>,
    /// The direction the last tick moved in.
    pub last_dir: Direction,
    /// A turn that waits for the next tick.
    pub next_dir: Option<Direction>,
}

impl SnakeView {
    /// Some body cell lies on `p`.
    pub open spec fn body_covers(self, p: Position) -> bool {
        exists|i: int| 0 <= i < self.body.len() && (#[trigger] self.body[i]).position == p
    }

    /// The head or some body cell lies on `p`.
    pub open spec fn covers(self, p: Position) -> bool {
        self.head.position == p || self.body_covers(p)
    }

    /// The head has turned since the last tick.
    pub open spec fn has_turned(self) -> bool {
        self.head.direction != self.last_dir
    }

    /// The state after a request to head in `d`: a turn on top of a turn waits for
    /// the next tick, and a turn back through the neck is ignored.
    pub open spec fn after_turn(self, d: Direction) -> SnakeView {
        if self.has_turned() && d.spec_inverse() != self.head.direction {
            SnakeView { next_dir: Some(d), ..self }
        } else if d.spec_inverse() != self.last_dir {
            SnakeView { head: Head { direction: d, ..self.head }, ..self }
        } else {
            self
        }
    }

    /// The heading used by the next tick: a waiting turn is taken once the head has
    /// not turned since the last tick, unless it leads back through the neck.
    pub open spec fn tick_direction(self) -> Direction {
        if !self.has_turned() && self.next_dir.is_some() && self.next_dir.unwrap() != self.last_dir.spec_inverse() {
            self.next_dir.unwrap()
        } else {
            self.head.direction
        }
    }

    /// The waiting turn after the next tick: a turn that was due is used up, taken or
    /// dropped.
    pub open spec fn tick_next_dir(self) -> Option<Direction> {
        if !self.has_turned() && self.next_dir.is_some() {
            None
        } else {
            self.next_dir
        }
    }

    /// What the head runs into at `p`, with `grown` the body before the tail moves:
    /// food first, then the border, then the body.
    pub open spec fn collision(grown: Seq<Segment>, p: Position, food: Position) -> Option<Ate> {
        if p == food {
            Some(Ate::Food)
        } else if !p.in_grid() {
            Some(Ate::Border)
        } else if exists|i: int| 0 <= i < grown.len() && (#[trigger] grown[i]).position == p {
            Some(Ate::Itself)
        } else {
            None
        }
    }

    /// The state after one tick with the apple at `food`.
    pub open spec fn step(self, food: Position) -> SnakeView {
        let d = self.tick_direction();
        let grown = seq![Segment { position: self.head.position, direction: d }] + self.body;
        let p = self.head.position.moved(d);
        let ate = SnakeView::collision(grown, p, food);
        SnakeView {
            head: Head { position: p, direction: d },
            body: if ate == Some(Ate::Food) { grown } else { grown.drop_last() },
            ate,
            last_dir: d,
            next_dir: self.tick_next_dir(),
        }
    }
}

impl SnakeView {
    /// The snake has a body, and its head does not point back through its neck.
    pub open spec fn wf(self) -> bool {
        self.body.len() >= 1 && self.head.direction != self.last_dir.spec_inverse()
    }
}

/// Asking to head back through the neck leaves the heading as it is.
pub proof fn lemma_no_reversal(s: SnakeView)
    ensures
        s.after_turn(s.last_dir.spec_inverse()).head.direction == s.head.direction,
{
}

/// A tick never moves the head back through the neck, whatever turns were asked for.
pub proof fn lemma_tick_never_reverses(s: SnakeView, food: Position)
    requires
        s.head.direction != s.last_dir.spec_inverse(),
    ensures
        s.step(food).head.direction != s.last_dir.spec_inverse(),
        s.step(food).head.direction != s.step(food).last_dir.spec_inverse(),
{
}

/// A snake on the board.
pub struct Snake {
    head: Head,
    body: VecDeque<Segment>,
    ate: Option<Ate>,
    last_dir: Direction,
    next_dir: Option<Direction>,
}

impl View for Snake {
    type V = SnakeView;

    closed spec fn view(&self) -> SnakeView {
        SnakeView {
            head: self.head,
            body: self.body@,
            ate: self.ate,
            last_dir: self.last_dir,
            next_dir: self.next_dir,
        }
    }
}

impl Snake {
    /// A snake has at least one body cell.
    pub open spec fn wf(&self) -> bool {
        self@.wf()
    }

    /// The state of a new snake at `position`.
    pub open spec fn new_view(position: Position) -> SnakeView {
        SnakeView {
            head: Head { position, direction: Direction::RIGHT },
            body: seq![Segment {
                position: Position { x: (position.x - 1) as i16, y: position.y },
                direction: Direction::RIGHT,
            }],
            ate: None,
            last_dir: Direction::RIGHT,
            next_dir: None,
        }
    }

    /// A snake heading right at `position`, with one body cell to its left.
    pub fn new(position: Position) -> (r: Snake)
        requires
            position.x > i16::MIN,
        ensures
            r.wf(),
            r@ == Snake::new_view(position),
    {
        let mut body: VecDeque<Segment> = VecDeque::new();
        body.push_back(Segment::new(Position::new(position.x - 1, position.y), Direction::RIGHT));
        proof {
            assert(body@ =~= seq![Segment {
                position: Position { x: (position.x - 1) as i16, y: position.y },
                direction: Direction::RIGHT,
            }]);
        }
        Snake {
            head: Head::new(position, Direction::RIGHT),
            body,
            ate: None,
            last_dir: Direction::RIGHT,
            next_dir: None,
        }
    }

    /// A snake in any state: `last_dir` is the direction of the last tick.
    /// Returns `None` when `body` is empty or the head points back along `last_dir`.
    pub fn from_parts(
        head: Head,
        body: VecDeque<Segment>,
        last_dir: Direction,
        next_dir: Option<Direction>,
    ) -> (r: Option<Snake>)
        ensures
            (body@.len() == 0 || head.direction == last_dir.spec_inverse()) <==> r.is_none(),
            r matches Some(s) ==> s.wf() && s@ == (SnakeView { head, body: body@, ate: None, last_dir, next_dir }),
    {
        if body.len() == 0 || head.direction == last_dir.inverse() {
            None
        } else {
            Some(Snake { head, body, ate: None, last_dir, next_dir })
        }
    }

    pub fn eats(&self, food: &Food) -> (r: bool)
        ensures
            r == (self@.head.position == food.position),
    {
        self.head.position == food.position
    }

    pub fn eats_self(&self) -> (r: bool)
        ensures
            r == self@.body_covers(self@.head.position),
    {
        let n = self.body.len();
        let mut i: usize = 0;
        while i < n
            invariant
                n == self.body@.len(),
                i <= n,
                forall|j: int| 0 <= j < i ==> (#[trigger] self.body@[j]).position != self.head.position,
            decreases n - i,
        {
            if self.body[i].position == self.head.position {
                return true;
            }
            i = i + 1;
        }
        false
    }

    /// The head has left the board.
    pub fn eats_border(&self) -> (r: bool)
        ensures
            r == !self@.head.position.in_grid(),
    {
        let p = self.head.position;
        !(0 <= p.x && p.x < crate::grid::GRID_WIDTH && 0 <= p.y && p.y < crate::grid::GRID_HEIGHT)
    }

    pub fn is_in_position(&self, position: Position) -> (r: bool)
        ensures
            r == self@.covers(position),
    {
        if self.head.position == position {
            return true;
        }
        let n = self.body.len();
        let mut i: usize = 0;
        while i < n
            invariant
                n == self.body@.len(),
                i <= n,
                forall|j: int| 0 <= j < i ==> (#[trigger] self.body@[j]).position != position,
            decreases n - i,
        {
            if self.body[i].position == position {
                return true;
            }
            i = i + 1;
        }
        false
    }

    /// One tick: take a waiting turn if due, move the head one cell, and grow by
    /// one cell when the apple is reached.
    pub fn update_state(&mut self, food: &Food)
        requires
            old(self).wf(),
            old(self)@.head.position.can_move(old(self)@.tick_direction()),
        ensures
            final(self).wf(),
            final(self)@ == old(self)@.step(food.position),
            final(self)@.head.direction != old(self)@.last_dir.spec_inverse(),
    {
        let ghost s0 = self@;
        if self.last_dir == self.head.direction && self.next_dir.is_some() {
            let next = self.next_dir.unwrap();
            if next != self.last_dir.inverse() {
                self.head.direction = next;
            }
            self.next_dir = None;
        }
        let d = self.head.direction;
        let start = self.head.position;
        self.body.push_front(Segment::new(start, d));
        let ghost grown = self.body@;
        assert(grown =~= seq![Segment { position: start, direction: d }] + s0.body);
        self.head.position.make_a_move(d);
        let ate = if self.eats(food) {
            Some(Ate::Food)
        } else if self.eats_border() {
            Some(Ate::Border)
        } else if self.eats_self() {
            Some(Ate::Itself)
        } else {
            None
        };
        self.ate = ate;
        match ate {
            Some(Ate::Food) => {},
            _ => {
                self.body.pop_back();
                assert(self.body@ =~= grown.drop_last());
            },
        }
        self.last_dir = d;
    }

    /// The body cells, the one next to the head first.
    pub fn segments(&self) -> (r: &VecDeque<Segment>)
        ensures
            r@ == self@.body,
    {
        &self.body
    }

    pub fn get_ate(&self) -> (r: Option<Ate>)
        ensures
            r == self@.ate,
    {
        self.ate
    }

    /// Asks the snake to head in `new_direction` (see [`SnakeView::after_turn`]).
    pub fn move_in_dir(&mut self, new_direction: Direction)
        ensures
            old(self).wf() ==> final(self).wf(),
            final(self)@ == old(self)@.after_turn(new_direction),
            new_direction == old(self)@.last_dir.spec_inverse() ==> final(self)@.head.direction == old(
                self,
            )@.head.direction,
    {
        if self.head.direction != self.last_dir && new_direction.inverse() != self.head.direction {
            self.next_dir = Some(new_direction);
        } else if new_direction.inverse() != self.last_dir {
            self.head.direction = new_direction;
        }
    }

    /// Asks the snake to make a move relative to its current heading.
    pub fn move_in_dir_with_move(&mut self, move_dir: Move)
        ensures
            old(self).wf() ==> final(self).wf(),
            final(self)@ == old(self)@.after_turn(old(self)@.head.direction.spec_turned(move_dir)),
    {
        let direction = self.head.direction.turned(move_dir);
        self.move_in_dir(direction);
    }

    pub fn get_head_coordinates(&self) -> (r: Position)
        ensures
            r == self@.head.position,
    {
        self.head.position
    }

    pub fn get_current_direction(&self) -> (r: Direction)
        ensures
            r == self@.head.direction,
    {
        self.head.direction
    }

    /// The direction stored in the last body cell.
    pub fn get_tail_direction(&self) -> (r: Direction)
        requires
            self.wf(),
        ensures
            r == self@.body.last().direction,
    {
        self.body[self.body.len() - 1].direction
    }
}

} // verus!

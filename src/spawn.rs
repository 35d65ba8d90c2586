//! Where a new snake and a new apple appear.
use vstd::prelude::*;
use rand::Rng;
use crate::grid::{Position, GRID_HEIGHT, GRID_WIDTH};
use crate::snake::{Food, Snake};

verus! {

/// Relies on `rand::Rng::gen_range` on the thread-local generator: for a non-empty
/// range `0..n` it returns a value in that range (it panics on an empty one).
#[verifier::external_body]
pub(crate) fn random_below(n: u128) -> (r: u128)
    requires
        n > 0,
    ensures
        r < n,
{
    rand::thread_rng().gen_range(0..n)
}

/// A random cell of the board.
pub fn generate_random_position() -> (r: Position)
    ensures
        r.in_grid(),
{
    let x = random_below(GRID_WIDTH as u128);
    let y = random_below(GRID_HEIGHT as u128);
    Position::new(x as i16, y as i16)
}

/// A random cell at least `distance_from_walls` cells from every wall.
pub fn generate_random_position_with_distance(distance_from_walls: i16) -> (r: Position)
    requires
        0 <= distance_from_walls,
        2 * distance_from_walls < GRID_WIDTH,
        2 * distance_from_walls < GRID_HEIGHT,
    ensures
        distance_from_walls <= r.x < GRID_WIDTH - distance_from_walls,
        distance_from_walls <= r.y < GRID_HEIGHT - distance_from_walls,
{
    let d = distance_from_walls;
    let x = random_below((GRID_WIDTH - 2 * d) as u128);
    let y = random_below((GRID_HEIGHT - 2 * d) as u128);
    Position::new(d + x as i16, d + y as i16)
}

/// The cells of the board that `snake` does not cover, row by row.
pub fn free_cells(snake: &Snake) -> (r: Vec<Position>)
    ensures
        forall|i: int| 0 <= i < r@.len() ==> (#[trigger] r@[i]).in_grid() && !snake@.covers(r@[i]),
        forall|p: Position| p.in_grid() && !snake@.covers(p) ==> r@.contains(p),
{
    let mut cells: Vec<Position> = Vec::new();
    let mut y: i16 = 0;
    while y < GRID_HEIGHT
        invariant
            0 <= y <= GRID_HEIGHT,
            forall|i: int| 0 <= i < cells@.len() ==> (#[trigger] cells@[i]).in_grid() && !snake@.covers(cells@[i]),
            forall|p: Position| p.in_grid() && p.y < y && !snake@.covers(p) ==> cells@.contains(p),
        decreases GRID_HEIGHT - y,
    {
        let mut x: i16 = 0;
        while x < GRID_WIDTH
            invariant
                0 <= y < GRID_HEIGHT,
                0 <= x <= GRID_WIDTH,
                forall|i: int| 0 <= i < cells@.len() ==> (#[trigger] cells@[i]).in_grid() && !snake@.covers(cells@[i]),
                forall|p: Position| p.in_grid() && (p.y < y || (p.y == y && p.x < x)) && !snake@.covers(p)
                    ==> cells@.contains(p),
            decreases GRID_WIDTH - x,
        {
            let p = Position::new(x, y);
            let ghost before = cells@;
            if !snake.is_in_position(p) {
                cells.push(p);
                proof {
                    assert(cells@[cells@.len() - 1] == p);
                }
            }
            proof {
                assert forall|q: Position| before.contains(q) implies cells@.contains(q) by {
                    let i = choose|i: int| 0 <= i < before.len() && before[i] == q;
                    assert(cells@[i] == q);
                }
            }
            x = x + 1;
        }
        y = y + 1;
    }
    cells
}

/// An apple on a random cell that `snake` does not cover, each such cell equally
/// likely; `None` when the snake covers the whole board.
pub fn generate_new_food(snake: &Snake) -> (r: Option<Food>)
    ensures
        r.is_none() <==> forall|p: Position| p.in_grid() ==> snake@.covers(p),
        r matches Some(f) ==> f.position.in_grid() && !snake@.covers(f.position),
{
    let cells = free_cells(snake);
    if cells.len() == 0 {
        proof {
            assert forall|p: Position| p.in_grid() implies snake@.covers(p) by {
                if !snake@.covers(p) {
                    assert(cells@.contains(p));
                }
            }
        }
        None
    } else {
        let k = random_below(cells.len() as u128) as usize;
        Some(Food::new(cells[k]))
    }
}

} // verus!

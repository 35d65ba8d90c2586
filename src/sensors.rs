//! What the snake sees: along each of eight rays from its head, how far the wall,
//! the apple and its own body are, and the network input built from that.
use vstd::prelude::*;
use crate::grid::{Direction, Position, GRID_HEIGHT, GRID_WIDTH};
use crate::snake::{Food, Segment, Snake, SnakeView};

verus! {

/// Squared length of the board's diagonal; it stands for "nothing on this ray".
pub const MAX_DISTANCE_SQ: u64 = 200;

/// Length of the network input built by [`generate_network_input`].
pub const FIRST_LAYER_SIZE: usize = 32;

/// Readings along one ray, each a squared Euclidean distance from the head.
#[derive(Clone, Copy, Debug, PartialEq, Eq, Structural)]
pub struct DistanceInfo {
    /// To the last cell before the wall.
    pub wall_sq: u64,
    /// To the apple, if it lies on the ray.
    pub apple_sq: Option<u64>,
    /// To the nearest body cell on the ray, if any.
    pub body_sq: Option<u64>,
}

/// Readings along the four axis rays and the four diagonal rays.
#[derive(Clone, Copy, Debug, PartialEq, Eq, Structural)]
pub struct Distances {
    pub top: DistanceInfo,
    pub right: DistanceInfo,
    pub bottom: DistanceInfo,
    pub left: DistanceInfo,
    pub top_right: DistanceInfo,
    pub bottom_right: DistanceInfo,
    pub bottom_left: DistanceInfo,
    pub top_left: DistanceInfo,
}

/// One value of the network's input.
#[derive(Clone, Copy, Debug, PartialEq, Eq, Structural)]
pub enum Feature {
    /// A squared distance; the input is its square root over that of [`MAX_DISTANCE_SQ`].
    Distance(u64),
    /// One place of a one-hot encoding: 1 or 0.
    Flag(bool),
}

/// `k` cells along a ray whose step on this axis is `d` (-1, 0 or 1).
pub open spec fn along(d: int, k: int) -> int {
    if d > 0 {
        k
    } else if d < 0 {
        -k
    } else {
        0
    }
}

/// How many cells `p` lies from `h` along the ray, if it lies on it.
pub open spec fn ray_steps(h: Position, dx: int, dy: int, p: Position) -> int {
    if dx != 0 {
        along(dx, p.x - h.x)
    } else {
        along(dy, p.y - h.y)
    }
}

/// `p` lies on the ray from `h` with steps `dx`, `dy`, beyond `h`.
pub open spec fn on_ray(h: Position, dx: int, dy: int, p: Position) -> bool {
    let k = ray_steps(h, dx, dy, p);
    k >= 1 && p.x == h.x + along(dx, k) && p.y == h.y + along(dy, k)
}

/// Squared Euclidean length of `k` cells along the ray.
pub open spec fn length_sq(dx: int, dy: int, k: int) -> int {
    if dx != 0 && dy != 0 {
        2 * (k * k)
    } else {
        k * k
    }
}

/// Cells from `h` to the wall along the ray, `h` excluded.
pub open spec fn wall_steps(h: Position, dx: int, dy: int) -> int {
    let far = GRID_WIDTH + GRID_HEIGHT;
    let rx = if dx > 0 {
        GRID_WIDTH - 1 - h.x
    } else if dx < 0 {
        h.x as int
    } else {
        far
    };
    let ry = if dy > 0 {
        GRID_HEIGHT - 1 - h.y
    } else if dy < 0 {
        h.y as int
    } else {
        far
    };
    if rx <= ry {
        rx
    } else {
        ry
    }
}

/// Steps to the nearest cell of `body` on the ray, if any.
pub open spec fn nearest_on_ray(h: Position, dx: int, dy: int, body: Seq<Segment>) -> Option<int>
    decreases body.len(),
{
    if body.len() == 0 {
        None
    } else {
        let rest = nearest_on_ray(h, dx, dy, body.drop_last());
        let p = body.last().position;
        if on_ray(h, dx, dy, p) {
            let k = ray_steps(h, dx, dy, p);
            match rest {
                Some(m) => if m <= k {
                    Some(m)
                } else {
                    Some(k)
                },
                None => Some(k),
            }
        } else {
            rest
        }
    }
}

/// A number of steps as a squared distance.
pub open spec fn steps_sq(dx: int, dy: int, k: Option<int>) -> Option<u64> {
    match k {
        Some(k) => Some(length_sq(dx, dy, k) as u64),
        None => None,
    }
}

/// The readings along the ray from the head of `s` with steps `dx`, `dy`.
pub open spec fn ray_info(s: SnakeView, food: Position, dx: int, dy: int) -> DistanceInfo {
    let h = s.head.position;
    DistanceInfo {
        wall_sq: length_sq(dx, dy, wall_steps(h, dx, dy)) as u64,
        apple_sq: if on_ray(h, dx, dy, food) {
            Some(length_sq(dx, dy, ray_steps(h, dx, dy, food)) as u64)
        } else {
            None
        },
        body_sq: steps_sq(dx, dy, nearest_on_ray(h, dx, dy, s.body)),
    }
}

/// The readings along all eight rays; `y` grows downwards.
pub open spec fn spec_distances(s: SnakeView, food: Position) -> Distances {
    Distances {
        top: ray_info(s, food, 0, -1),
        right: ray_info(s, food, 1, 0),
        bottom: ray_info(s, food, 0, 1),
        left: ray_info(s, food, -1, 0),
        top_right: ray_info(s, food, 1, -1),
        bottom_right: ray_info(s, food, 1, 1),
        bottom_left: ray_info(s, food, -1, 1),
        top_left: ray_info(s, food, -1, -1),
    }
}

fn along_exec(d: i16, k: i32) -> (r: i32)
    requires
        -65535 <= k <= 65535,
    ensures
        r == along(d as int, k as int),
{
    if d > 0 {
        k
    } else if d < 0 {
        -k
    } else {
        0
    }
}

/// Steps from `h` to `p` along the ray, or `None` when `p` is not on it.
fn steps_to(h: Position, dx: i16, dy: i16, p: Position) -> (r: Option<i32>)
    requires
        -1 <= dx <= 1,
        -1 <= dy <= 1,
    ensures
        r == (if on_ray(h, dx as int, dy as int, p) {
            Some(ray_steps(h, dx as int, dy as int, p) as i32)
        } else {
            None
        }),
        r matches Some(k) ==> 1 <= k <= 65535,
        on_ray(h, dx as int, dy as int, p) ==> ray_steps(h, dx as int, dy as int, p) <= 65535,
{
    let k = if dx != 0 {
        along_exec(dx, p.x as i32 - h.x as i32)
    } else {
        along_exec(dy, p.y as i32 - h.y as i32)
    };
    if k >= 1 {
        let ox = along_exec(dx, k);
        let oy = along_exec(dy, k);
        if p.x as i32 == h.x as i32 + ox && p.y as i32 == h.y as i32 + oy {
            return Some(k);
        }
    }
    None
}

fn squared(dx: i16, dy: i16, k: i32) -> (r: u64)
    requires
        0 <= k <= u16::MAX,
    ensures
        r == length_sq(dx as int, dy as int, k as int),
{
    let k = k as u64;
    assert(k * k <= 65535 * 65535) by (nonlinear_arith)
        requires
            k <= 65535,
    ;
    if dx != 0 && dy != 0 {
        2 * (k * k)
    } else {
        k * k
    }
}

impl Snake {
    /// The readings along the ray from the head with steps `dx`, `dy`.
    fn get_distance_in_direction(&self, food: &Food, dx: i16, dy: i16) -> (r: DistanceInfo)
        requires
            -1 <= dx <= 1,
            -1 <= dy <= 1,
            dx != 0 || dy != 0,
            self@.head.position.in_grid(),
        ensures
            r == ray_info(self@, food.position, dx as int, dy as int),
    {
        let h = self.get_head_coordinates();
        let far: i32 = (GRID_WIDTH + GRID_HEIGHT) as i32;
        let rx: i32 = if dx > 0 {
            (GRID_WIDTH - 1 - h.x) as i32
        } else if dx < 0 {
            h.x as i32
        } else {
            far
        };
        let ry: i32 = if dy > 0 {
            (GRID_HEIGHT - 1 - h.y) as i32
        } else if dy < 0 {
            h.y as i32
        } else {
            far
        };
        let wall = if rx <= ry {
            rx
        } else {
            ry
        };
        let apple_sq = match steps_to(h, dx, dy, food.position) {
            Some(k) => Some(squared(dx, dy, k)),
            None => None,
        };
        let body = self.segments();
        let n = body.len();
        let mut best: Option<i32> = None;
        let mut i: usize = 0;
        while i < n
            invariant
                n == body@.len(),
                body@ == self@.body,
                h == self@.head.position,
                -1 <= dx <= 1,
                -1 <= dy <= 1,
                i <= n,
                best matches Some(m) ==> 1 <= m <= 65535,
                nearest_on_ray(h, dx as int, dy as int, body@.take(i as int)) matches Some(m) ==> 1 <= m
                    <= 65535,
                best == steps_opt(nearest_on_ray(h, dx as int, dy as int, body@.take(i as int))),
            decreases n - i,
        {
            proof {
                assert(body@.take(i as int + 1).drop_last() =~= body@.take(i as int));
                assert(body@.take(i as int + 1).last() == body@[i as int]);
            }
            match steps_to(h, dx, dy, body[i].position) {
                Some(k) => {
                    best = match best {
                        Some(m) => if m <= k {
                            Some(m)
                        } else {
                            Some(k)
                        },
                        None => Some(k),
                    };
                },
                None => {},
            }
            i = i + 1;
        }
        proof {
            assert(body@.take(n as int) =~= body@);
        }
        let body_sq = match best {
            Some(k) => Some(squared(dx, dy, k)),
            None => None,
        };
        DistanceInfo { wall_sq: squared(dx, dy, wall), apple_sq, body_sq }
    }

    /// The readings along all eight rays from the head.
    pub fn get_distances(&self, food: &Food) -> (r: Distances)
        requires
            self@.head.position.in_grid(),
        ensures
            r == spec_distances(self@, food.position),
    {
        Distances {
            top: self.get_distance_in_direction(food, 0, -1),
            right: self.get_distance_in_direction(food, 1, 0),
            bottom: self.get_distance_in_direction(food, 0, 1),
            left: self.get_distance_in_direction(food, -1, 0),
            top_right: self.get_distance_in_direction(food, 1, -1),
            bottom_right: self.get_distance_in_direction(food, 1, 1),
            bottom_left: self.get_distance_in_direction(food, -1, 1),
            top_left: self.get_distance_in_direction(food, -1, -1),
        }
    }
}

/// A squared distance, or the board's diagonal when there is none.
pub open spec fn or_far(o: Option<u64>) -> u64 {
    match o {
        Some(v) => v,
        None => MAX_DISTANCE_SQ,
    }
}

/// The three inputs of one ray: wall, apple, body.
pub open spec fn ray_features(info: DistanceInfo) -> Seq<Feature> {
    seq![
        Feature::Distance(info.wall_sq),
        Feature::Distance(or_far(info.apple_sq)),
        Feature::Distance(or_far(info.body_sq)),
    ]
}

/// A direction as four flags in the order up, right, down, left.
pub open spec fn one_hot(d: Direction) -> Seq<Feature> {
    Seq::new(4, |i: int| Feature::Flag(i == d.spec_index()))
}

/// The network input: the eight rays (top, right, bottom, left, then the diagonals
/// clockwise from top right), then the head's direction and the tail's direction.
pub open spec fn spec_network_input(d: Distances, head: Direction, tail: Direction) -> Seq<Feature> {
    ray_features(d.top) + ray_features(d.right) + ray_features(d.bottom) + ray_features(d.left)
        + ray_features(d.top_right) + ray_features(d.bottom_right) + ray_features(d.bottom_left)
        + ray_features(d.top_left) + one_hot(head) + one_hot(tail)
}

fn add_distance_to_input(info: DistanceInfo, input: &mut Vec<Feature>)
    ensures
        final(input)@ == old(input)@ + ray_features(info),
{
    input.push(Feature::Distance(info.wall_sq));
    input.push(
        Feature::Distance(
            match info.apple_sq {
                Some(v) => v,
                None => MAX_DISTANCE_SQ,
            },
        ),
    );
    input.push(
        Feature::Distance(
            match info.body_sq {
                Some(v) => v,
                None => MAX_DISTANCE_SQ,
            },
        ),
    );
    assert(final(input)@ =~= old(input)@ + ray_features(info));
}

fn add_direction_to_input(d: Direction, input: &mut Vec<Feature>)
    ensures
        final(input)@ == old(input)@ + one_hot(d),
{
    input.push(Feature::Flag(matches!(d, Direction::UP)));
    input.push(Feature::Flag(matches!(d, Direction::RIGHT)));
    input.push(Feature::Flag(matches!(d, Direction::DOWN)));
    input.push(Feature::Flag(matches!(d, Direction::LEFT)));
    assert(final(input)@ =~= old(input)@ + one_hot(d));
}

/// The network input for `snake` with the apple at `food`.
pub fn generate_network_input(snake: &Snake, food: &Food) -> (r: Vec<Feature>)
    requires
        snake.wf(),
        snake@.head.position.in_grid(),
    ensures
        r@ == spec_network_input(
            spec_distances(snake@, food.position),
            snake@.head.direction,
            snake@.body.last().direction,
        ),
        r@.len() == FIRST_LAYER_SIZE,
{
    let d = snake.get_distances(food);
    let mut input: Vec<Feature> = Vec::new();
    add_distance_to_input(d.top, &mut input);
    add_distance_to_input(d.right, &mut input);
    add_distance_to_input(d.bottom, &mut input);
    add_distance_to_input(d.left, &mut input);
    add_distance_to_input(d.top_right, &mut input);
    add_distance_to_input(d.bottom_right, &mut input);
    add_distance_to_input(d.bottom_left, &mut input);
    add_distance_to_input(d.top_left, &mut input);
    add_direction_to_input(snake.get_current_direction(), &mut input);
    add_direction_to_input(snake.get_tail_direction(), &mut input);
    input
}

/// A number of steps that fits in `i32`.
pub open spec fn steps_opt(k: Option<int>) -> Option<i32> {
    match k {
        Some(k) => Some(k as i32),
        None => None,
    }
}

} // verus!

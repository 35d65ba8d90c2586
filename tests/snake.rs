use std::collections::VecDeque;
use snake_ai::grid::{Direction, Move, Position, GRID_HEIGHT, GRID_WIDTH};
use snake_ai::sensors::{generate_network_input, DistanceInfo, Distances, Feature, FIRST_LAYER_SIZE, MAX_DISTANCE_SQ};
use snake_ai::snake::{Ate, Food, Head, Segment, Snake};
use snake_ai::spawn::{generate_new_food, generate_random_position, generate_random_position_with_distance, free_cells};

fn snake_of(head: (i16, i16), dir: Direction, body: &[((i16, i16), Direction)], last_dir: Direction) -> Snake {
    let mut segments = VecDeque::new();
    for ((x, y), d) in body {
        segments.push_back(Segment::new(Position::new(*x, *y), *d));
    }
    Snake::from_parts(Head::new(Position::new(head.0, head.1), dir), segments, last_dir, None).unwrap()
}

fn example_snake() -> Snake {
    snake_of(
        (4, 2),
        Direction::LEFT,
        &[
            ((5, 2), Direction::LEFT),
            ((5, 3), Direction::UP),
            ((4, 3), Direction::RIGHT),
            ((3, 3), Direction::RIGHT),
        ],
        Direction::LEFT,
    )
}

fn info(wall_sq: u64, apple_sq: Option<u64>, body_sq: Option<u64>) -> DistanceInfo {
    DistanceInfo { wall_sq, apple_sq, body_sq }
}

#[test]
fn should_return_correct_direction_distances() {
    assert_eq!((GRID_WIDTH, GRID_HEIGHT), (10, 10));
    let snake = example_snake();
    let food = Food::new(Position::new(2, 0));
    let distances = snake.get_distances(&food);
    let expected_distances = Distances {
        top: info(4, None, None),
        right: info(25, None, Some(1)),
        bottom: info(49, None, Some(1)),
        left: info(16, None, None),
        top_right: info(8, None, None),
        bottom_right: info(50, None, Some(2)),
        bottom_left: info(32, None, Some(2)),
        top_left: info(8, Some(8), None),
    };
    assert_eq!(expected_distances, distances);
}

#[test]
fn nearest_body_cell_on_a_ray_counts() {
    let snake = snake_of(
        (2, 5),
        Direction::UP,
        &[((2, 6), Direction::UP), ((2, 7), Direction::UP), ((2, 8), Direction::LEFT), ((3, 8), Direction::LEFT)],
        Direction::UP,
    );
    let d = snake.get_distances(&Food::new(Position::new(2, 1)));
    assert_eq!(d.bottom, info(16, None, Some(1)));
    assert_eq!(d.top, info(25, Some(16), None));
    assert_eq!(d.left, info(4, None, None));
}

#[test]
fn network_input_has_rays_then_directions() {
    let snake = example_snake();
    let input = generate_network_input(&snake, &Food::new(Position::new(2, 0)));
    assert_eq!(input.len(), FIRST_LAYER_SIZE);
    assert_eq!(&input[0..3], &[Feature::Distance(4), Feature::Distance(MAX_DISTANCE_SQ), Feature::Distance(MAX_DISTANCE_SQ)]);
    assert_eq!(&input[21..24], &[Feature::Distance(8), Feature::Distance(8), Feature::Distance(MAX_DISTANCE_SQ)]);
    // heading left, tail cell stored right
    assert_eq!(
        &input[24..32],
        &[
            Feature::Flag(false),
            Feature::Flag(false),
            Feature::Flag(false),
            Feature::Flag(true),
            Feature::Flag(false),
            Feature::Flag(true),
            Feature::Flag(false),
            Feature::Flag(false),
        ]
    );
}

#[test]
fn new_snake_heads_right_with_one_cell() {
    let snake = Snake::new(Position::new(3, 4));
    assert_eq!(snake.get_head_coordinates(), Position::new(3, 4));
    assert_eq!(snake.get_current_direction(), Direction::RIGHT);
    assert_eq!(snake.get_tail_direction(), Direction::RIGHT);
    assert_eq!(snake.segments().len(), 1);
    assert_eq!(snake.segments()[0].position, Position::new(2, 4));
    assert_eq!(snake.get_ate(), None);
}

#[test]
fn tick_moves_without_growing() {
    let mut snake = Snake::new(Position::new(3, 4));
    snake.update_state(&Food::new(Position::new(9, 9)));
    assert_eq!(snake.get_head_coordinates(), Position::new(4, 4));
    assert_eq!(snake.segments().len(), 1);
    assert_eq!(snake.segments()[0].position, Position::new(3, 4));
    assert_eq!(snake.get_ate(), None);
}

#[test]
fn eating_grows_by_one() {
    let mut snake = Snake::new(Position::new(3, 4));
    snake.update_state(&Food::new(Position::new(4, 4)));
    assert_eq!(snake.get_ate(), Some(Ate::Food));
    assert_eq!(snake.segments().len(), 2);
    assert_eq!(snake.segments()[0].position, Position::new(3, 4));
    assert_eq!(snake.segments()[1].position, Position::new(2, 4));
}

#[test]
fn leaving_the_board_is_a_border_collision() {
    let mut snake = Snake::new(Position::new(9, 0));
    snake.update_state(&Food::new(Position::new(0, 0)));
    assert_eq!(snake.get_ate(), Some(Ate::Border));
    assert!(snake.eats_border());
    let mut up = Snake::new(Position::new(5, 0));
    up.move_in_dir(Direction::UP);
    up.update_state(&Food::new(Position::new(0, 9)));
    assert_eq!(up.get_ate(), Some(Ate::Border));
}

#[test]
fn running_into_the_body_is_a_self_collision() {
    // head at (2,2) heading down into (2,3), which the body covers
    let mut snake = snake_of(
        (2, 2),
        Direction::DOWN,
        &[((3, 2), Direction::LEFT), ((3, 3), Direction::UP), ((2, 3), Direction::RIGHT), ((1, 3), Direction::RIGHT)],
        Direction::DOWN,
    );
    snake.update_state(&Food::new(Position::new(9, 9)));
    assert_eq!(snake.get_ate(), Some(Ate::Itself));
    assert!(snake.eats_self());
}

#[test]
fn food_wins_over_other_collisions() {
    let mut snake = Snake::new(Position::new(9, 0));
    snake.update_state(&Food::new(Position::new(10, 0)));
    assert_eq!(snake.get_ate(), Some(Ate::Food));
}

#[test]
fn reversing_is_ignored() {
    let mut snake = Snake::new(Position::new(5, 5));
    snake.move_in_dir(Direction::RIGHT.inverse());
    assert_eq!(snake.get_current_direction(), Direction::RIGHT);
    snake.update_state(&Food::new(Position::new(0, 0)));
    assert_eq!(snake.get_head_coordinates(), Position::new(6, 5));
}

#[test]
fn reversing_after_a_turn_is_ignored() {
    let mut snake = Snake::new(Position::new(5, 5));
    snake.move_in_dir(Direction::UP);
    assert_eq!(snake.get_current_direction(), Direction::UP);
    snake.move_in_dir(Direction::LEFT);
    assert_eq!(snake.get_current_direction(), Direction::UP);
}

#[test]
fn second_turn_in_a_tick_waits() {
    let mut snake = Snake::new(Position::new(5, 5));
    snake.move_in_dir(Direction::UP);
    snake.move_in_dir(Direction::LEFT);
    snake.update_state(&Food::new(Position::new(0, 0)));
    assert_eq!(snake.get_head_coordinates(), Position::new(5, 4));
    assert_eq!(snake.get_current_direction(), Direction::UP);
    snake.update_state(&Food::new(Position::new(0, 0)));
    assert_eq!(snake.get_current_direction(), Direction::LEFT);
    assert_eq!(snake.get_head_coordinates(), Position::new(4, 4));
}

#[test]
fn relative_moves_turn_the_head() {
    let mut snake = Snake::new(Position::new(5, 5));
    snake.move_in_dir_with_move(Move::LEFT);
    assert_eq!(snake.get_current_direction(), Direction::UP);
    let mut other = Snake::new(Position::new(5, 5));
    other.move_in_dir_with_move(Move::RIGHT);
    assert_eq!(other.get_current_direction(), Direction::DOWN);
    let mut straight = Snake::new(Position::new(5, 5));
    straight.move_in_dir_with_move(Move::FORWARD);
    assert_eq!(straight.get_current_direction(), Direction::RIGHT);
}

#[test]
fn is_in_position_covers_head_and_body() {
    let snake = example_snake();
    assert!(snake.is_in_position(Position::new(4, 2)));
    assert!(snake.is_in_position(Position::new(3, 3)));
    assert!(!snake.is_in_position(Position::new(0, 0)));
    assert!(snake.eats(&Food::new(Position::new(4, 2))));
    assert!(!snake.eats(&Food::new(Position::new(4, 3))));
}

#[test]
fn from_parts_needs_a_body() {
    let head = Head::new(Position::new(1, 1), Direction::UP);
    assert!(Snake::from_parts(head, VecDeque::new(), Direction::UP, None).is_none());
}

#[test]
fn make_a_move_steps_one_cell() {
    let mut p = Position::new(3, 3);
    p.make_a_move(Direction::UP);
    assert_eq!(p, Position::new(3, 2));
    p.make_a_move(Direction::LEFT);
    assert_eq!(p, Position::new(2, 2));
    p.make_a_move(Direction::DOWN);
    p.make_a_move(Direction::RIGHT);
    assert_eq!(p, Position::new(3, 3));
}

#[test]
fn output_index_maps_to_directions() {
    assert_eq!(Direction::from_output_index(0), Direction::UP);
    assert_eq!(Direction::from_output_index(1), Direction::RIGHT);
    assert_eq!(Direction::from_output_index(2), Direction::DOWN);
    assert_eq!(Direction::from_output_index(3), Direction::LEFT);
    assert_eq!(Direction::from_output_index(7), Direction::LEFT);
}

#[test]
fn random_positions_stay_on_the_board() {
    for _ in 0..200 {
        let p = generate_random_position();
        assert!(p.x >= 0 && p.x < GRID_WIDTH && p.y >= 0 && p.y < GRID_HEIGHT);
        let q = generate_random_position_with_distance(2);
        assert!(q.x >= 2 && q.x < GRID_WIDTH - 2 && q.y >= 2 && q.y < GRID_HEIGHT - 2);
    }
}

#[test]
fn new_food_avoids_the_snake() {
    let snake = example_snake();
    assert_eq!(free_cells(&snake).len(), 100 - 5);
    for _ in 0..200 {
        let food = generate_new_food(&snake).unwrap();
        let p = food.get_position();
        assert!(p.x >= 0 && p.x < GRID_WIDTH && p.y >= 0 && p.y < GRID_HEIGHT);
        assert!(!snake.is_in_position(p));
    }
}

#[test]
fn no_food_on_a_full_board() {
    let mut cells = Vec::new();
    for y in 0..GRID_HEIGHT {
        for x in 0..GRID_WIDTH {
            if (x, y) != (0, 0) {
                cells.push(((x, y), Direction::LEFT));
            }
        }
    }
    let snake = snake_of((0, 0), Direction::LEFT, &cells, Direction::LEFT);
    assert!(free_cells(&snake).is_empty());
    assert!(generate_new_food(&snake).is_none());
}

#[test]
fn one_free_cell_is_always_chosen() {
    let mut cells = Vec::new();
    for y in 0..GRID_HEIGHT {
        for x in 0..GRID_WIDTH {
            if (x, y) != (0, 0) && (x, y) != (7, 3) {
                cells.push(((x, y), Direction::LEFT));
            }
        }
    }
    let snake = snake_of((0, 0), Direction::LEFT, &cells, Direction::LEFT);
    for _ in 0..20 {
        assert_eq!(generate_new_food(&snake).unwrap().get_position(), Position::new(7, 3));
    }
}

#[test]
fn position_from_a_pair() {
    let p: Position = (3, -2).into();
    assert_eq!(p, Position::new(3, -2));
}

#[test]
fn a_stale_turn_never_reverses_through_the_neck() {
    let mut snake = Snake::new(Position::new(5, 5));
    let food = Food::new(Position::new(0, 0));
    snake.move_in_dir(Direction::UP);
    snake.move_in_dir(Direction::LEFT);
    snake.update_state(&food);
    assert_eq!(snake.get_head_coordinates(), Position::new(5, 4));
    snake.move_in_dir(Direction::RIGHT);
    snake.update_state(&food);
    assert_eq!(snake.get_head_coordinates(), Position::new(6, 4));
    snake.update_state(&food);
    assert_eq!(snake.get_current_direction(), Direction::RIGHT);
    assert_eq!(snake.get_head_coordinates(), Position::new(7, 4));
    assert_eq!(snake.get_ate(), None);
}

#[test]
fn from_parts_refuses_a_head_facing_its_neck() {
    let mut body = VecDeque::new();
    body.push_back(Segment::new(Position::new(3, 3), Direction::RIGHT));
    assert!(Snake::from_parts(Head::new(Position::new(4, 3), Direction::LEFT), body, Direction::RIGHT, None).is_none());
}

#[test]
fn moving_along_one_axis_ignores_the_other() {
    let mut p = Position::new(i16::MAX, 5);
    p.make_a_move(Direction::UP);
    assert_eq!(p, Position::new(i16::MAX, 4));
    p.make_a_move(Direction::DOWN);
    assert_eq!(p, Position::new(i16::MAX, 5));
}

use snake_game::snake::{Block, Collision, Direction, Snake};

#[test]
fn opposite_is_involutive() {
    let dirs = [Direction::Up, Direction::Down, Direction::Left, Direction::Right];
    for d in dirs {
        assert_eq!(d.opposite().opposite(), d);
    }
}

#[test]
fn opposite_maps_each_direction() {
    assert_eq!(Direction::Up.opposite(), Direction::Down);
    assert_eq!(Direction::Down.opposite(), Direction::Up);
    assert_eq!(Direction::Left.opposite(), Direction::Right);
    assert_eq!(Direction::Right.opposite(), Direction::Left);
}

#[test]
fn init_snake_is_centered_and_leftward() {
    let s = Snake::init_snake(3, Direction::Right, (20, 20));
    assert_eq!(s.get_length(), 3);
    assert_eq!(s.get_head_pos(), (10, 10));
    assert_eq!(s.get_tail_pos(), (8, 10));
    let body: Vec<Block> = s.get_body().iter().copied().collect();
    assert_eq!(body, vec![
        Block { x: 10, y: 10 },
        Block { x: 9, y: 10 },
        Block { x: 8, y: 10 },
    ]);
}

#[test]
fn new_builds_body_from_head() {
    let s = Snake::new(5, 7, 3, Direction::Up, (10, 10));
    let body: Vec<Block> = s.get_body().iter().copied().collect();
    assert_eq!(body, vec![
        Block { x: 5, y: 7 },
        Block { x: 4, y: 7 },
        Block { x: 3, y: 7 },
    ]);
    assert_eq!(s.prev_dir, Direction::Up);
}

#[test]
fn move_snake_shifts_body_one_cell() {
    let mut s = Snake::init_snake(3, Direction::Right, (20, 20));
    s.move_snake(&Direction::Right);
    assert_eq!(s.get_head_pos(), (11, 10));
    assert_eq!(s.get_tail_pos(), (9, 10));
    assert_eq!(s.get_length(), 3);
    s.move_snake(&Direction::Up);
    assert_eq!(s.get_head_pos(), (11, 9));
    assert_eq!(s.get_tail_pos(), (10, 10));
}

#[test]
fn wrap_right_edge_to_zero() {
    let b = Snake::calculate_next_position((19, 5), 1, 0, (20, 30));
    assert_eq!(b, Block { x: 0, y: 5 });
}

#[test]
fn wrap_left_edge_to_width_minus_one() {
    let b = Snake::calculate_next_position((0, 5), -1, 0, (20, 30));
    assert_eq!(b, Block { x: 19, y: 5 });
}

#[test]
fn wrap_bottom_edge_to_zero() {
    let b = Snake::calculate_next_position((5, 29), 0, 1, (20, 30));
    assert_eq!(b, Block { x: 5, y: 0 });
}

#[test]
fn wrap_top_edge_to_height_minus_one() {
    let b = Snake::calculate_next_position((5, 0), 0, -1, (20, 30));
    assert_eq!(b, Block { x: 5, y: 29 });
}

#[test]
fn interior_step_does_not_wrap() {
    let b = Snake::calculate_next_position((5, 6), 1, 0, (20, 30));
    assert_eq!(b, Block { x: 6, y: 6 });
}

#[test]
fn grow_snake_duplicates_tail() {
    let mut s = Snake::init_snake(3, Direction::Right, (20, 20));
    s.grow_snake();
    assert_eq!(s.get_length(), 4);
    assert_eq!(s.get_tail_pos(), (8, 10));
    let body: Vec<Block> = s.get_body().iter().copied().collect();
    assert_eq!(body[2], body[3]);
}

#[test]
fn self_collision_takes_priority_over_apple() {
    // head circles back onto its own body; the apple sits on that very cell
    let mut s = Snake::init_snake(5, Direction::Right, (20, 20));
    s.move_snake(&Direction::Up);
    s.move_snake(&Direction::Left);
    s.move_snake(&Direction::Down);
    assert_eq!(s.get_head_pos(), (9, 10));
    assert_eq!(s.check_collision((9, 10)), Collision::Snake);
}

#[test]
fn head_on_apple_reports_apple() {
    let s = Snake::init_snake(3, Direction::Right, (20, 20));
    assert_eq!(s.check_collision((10, 10)), Collision::Apple);
}

#[test]
fn no_hit_reports_nothing() {
    let s = Snake::init_snake(3, Direction::Right, (20, 20));
    assert_eq!(s.check_collision((1, 1)), Collision::Nothing);
}

#[test]
fn intersects_body_looks_at_every_segment() {
    let s = Snake::init_snake(3, Direction::Right, (20, 20));
    assert!(Snake::intersects_body(s.get_body(), (10, 10)));
    assert!(Snake::intersects_body(s.get_body(), (9, 10)));
    assert!(Snake::intersects_body(s.get_body(), (8, 10)));
    assert!(!Snake::intersects_body(s.get_body(), (7, 10)));
    assert!(!Snake::intersects_body(s.get_body(), (10, 9)));
}

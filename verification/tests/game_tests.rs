use snake_game::snake::{Block, Direction, Snake};
use snake_game::{Game, GameState};
use std::collections::VecDeque;

#[test]
fn it_works() {}

fn waiting_game() -> Game {
    let (w, h) = (20, 20);
    Game::new_constructed(
        (w, h),
        Snake::init_snake(3, Direction::Right, (w, h)),
        GameState::Waiting,
        0,
        (w - 1, h - 1), // out of the snake's way
        0,
    )
}

#[test]
fn new_game_is_ready_to_play() {
    let g = Game::new(20, 20).unwrap();
    assert_eq!(g.get_game_size(), (20, 20));
    assert_eq!(g.get_state(), GameState::Waiting);
    assert_eq!(g.get_points(), 0);
    assert_eq!(g.get_snake().get_length(), 3);
    assert_eq!(g.get_snake().get_head_pos(), (10, 10));
    let (ax, ay) = g.get_apple_loc();
    assert!(1 <= ax && ax < 19 && 1 <= ay && ay < 19);
    assert!(!Snake::intersects_body(g.get_snake().get_body(), (ax, ay)));
}

#[test]
fn new_rejects_grids_without_capacity() {
    assert!(Game::new(2, 2).is_none());
    assert!(Game::new(3, 10).is_none());
    assert!(Game::new(4, 3).is_none());
    assert!(Game::new(0, 0).is_none());
    assert!(Game::new(-5, 20).is_none());
    assert!(Game::new(4, 4).is_some());
    assert!(Game::new(6, 3).is_some());
}

#[test]
fn waiting_ignores_update() {
    let mut g = waiting_game();
    g.update(1000);
    assert_eq!(g.get_state(), GameState::Waiting);
    assert_eq!(g.get_snake().get_head_pos(), (10, 10));
}

#[test]
fn first_input_starts_moving_and_step_follows() {
    // grid 20 by 20, three segments centered heading Right, state Waiting:
    // direction Right starts the game, and 200 ms later the head has moved
    // one cell right while the tail took the old second segment's place
    let mut g = waiting_game();
    g.update_move_dir(Direction::Right);
    assert_eq!(g.get_state(), GameState::Moving(Direction::Right));
    g.update(200);
    assert_eq!(g.get_snake().get_head_pos(), (11, 10));
    let body: Vec<Block> = g.get_snake().get_body().iter().copied().collect();
    assert_eq!(body, vec![
        Block { x: 11, y: 10 },
        Block { x: 10, y: 10 },
        Block { x: 9, y: 10 },
    ]);
}

#[test]
fn reversal_request_is_rejected() {
    let mut g = waiting_game();
    // committed heading is Right, so Left is ignored even while Waiting
    g.update_move_dir(Direction::Left);
    assert_eq!(g.get_state(), GameState::Waiting);
    g.update_move_dir(Direction::Right);
    g.update(200);
    // moving right: an immediate Left request must not change the heading
    g.update_move_dir(Direction::Left);
    assert_eq!(g.get_state(), GameState::Moving(Direction::Right));
    g.update(200);
    assert_eq!(g.get_snake().get_head_pos(), (12, 10));
    // a quarter turn is accepted
    g.update_move_dir(Direction::Up);
    assert_eq!(g.get_state(), GameState::Moving(Direction::Up));
}

#[test]
fn countdown_accumulates_before_a_step() {
    let mut g = Game::new_constructed(
        (20, 20),
        Snake::init_snake(3, Direction::Right, (20, 20)),
        GameState::Moving(Direction::Right),
        200,
        (19, 19),
        0,
    );
    g.update(50);
    g.update(50);
    g.update(50);
    assert_eq!(g.get_snake().get_head_pos(), (10, 10)); // 150 ms: no step yet
    g.update(50);
    assert_eq!(g.get_snake().get_head_pos(), (11, 10)); // 200 ms reached
}

#[test]
fn length_stays_constant_without_eating() {
    let mut g = waiting_game();
    g.update_move_dir(Direction::Right);
    for _ in 0..10 {
        g.update(200);
        assert_eq!(g.get_snake().get_length(), 3);
        assert_eq!(g.get_points(), 0);
    }
    assert!(matches!(g.get_state(), GameState::Moving(Direction::Right)));
}

#[test]
fn eating_grows_and_scores_one_apple() {
    let mut g = Game::new_constructed(
        (20, 20),
        Snake::init_snake(3, Direction::Right, (20, 20)),
        GameState::Moving(Direction::Right),
        0,
        (11, 10), // directly right of the head
        0,
    );
    g.update(200); // the step onto the apple only detects it
    assert_eq!(g.get_state(), GameState::AteApple);
    assert_eq!(g.get_snake().get_length(), 3);
    assert_eq!(g.get_points(), 0);
    g.update(0); // the next call applies growth, score and respawn
    assert_eq!(g.get_snake().get_length(), 4);
    assert_eq!(g.get_points(), 1);
    assert_eq!(g.get_state(), GameState::Moving(Direction::Right));
}

#[test]
fn respawned_apple_avoids_snake_and_old_apple() {
    let mut g = Game::new_constructed(
        (20, 20),
        Snake::init_snake(3, Direction::Right, (20, 20)),
        GameState::Moving(Direction::Right),
        0,
        (11, 10),
        0,
    );
    g.update(200);
    g.update(0);
    let (ax, ay) = g.get_apple_loc();
    assert_ne!((ax, ay), (11, 10));
    assert!(1 <= ax && ax < 19 && 1 <= ay && ay < 19);
    assert!(!Snake::intersects_body(g.get_snake().get_body(), (ax, ay)));
}

#[test]
fn self_collision_kills_and_death_is_final() {
    let mut g = Game::new_constructed(
        (20, 20),
        Snake::init_snake(5, Direction::Right, (20, 20)),
        GameState::Waiting,
        0,
        (19, 19),
        0,
    );
    g.update_move_dir(Direction::Up);
    g.update(200);
    g.update_move_dir(Direction::Left);
    g.update(200);
    g.update_move_dir(Direction::Down);
    g.update(200); // the head lands on its own body
    assert_eq!(g.get_state(), GameState::Dead);
    let frozen_head = g.get_snake().get_head_pos();
    let frozen_len = g.get_snake().get_length();
    let frozen_points = g.get_points();
    for _ in 0..5 {
        g.update(200);
        g.update_move_dir(Direction::Right);
    }
    assert_eq!(g.get_state(), GameState::Dead);
    assert_eq!(g.get_snake().get_head_pos(), frozen_head);
    assert_eq!(g.get_snake().get_length(), frozen_len);
    assert_eq!(g.get_points(), frozen_points);
}

#[test]
fn input_during_growth_phase_is_ignored() {
    let mut g = Game::new_constructed(
        (20, 20),
        Snake::init_snake(3, Direction::Right, (20, 20)),
        GameState::AteApple,
        0,
        (11, 10),
        0,
    );
    g.update_move_dir(Direction::Up);
    assert_eq!(g.get_state(), GameState::AteApple);
}

#[test]
fn crossing_the_edge_wraps_the_head() {
    let mut g = Game::new_constructed(
        (20, 20),
        Snake::new(19, 5, 3, Direction::Right, (20, 20)),
        GameState::Moving(Direction::Right),
        0,
        (1, 1),
        0,
    );
    g.update(200);
    assert_eq!(g.get_snake().get_head_pos(), (0, 5));
}

#[test]
fn apple_placement_takes_the_only_free_cell() {
    // the margin of a 4 by 4 grid has four cells; occupy three of them and
    // the respawn, however the random draws fall, must pick the fourth
    let mut body: VecDeque<Block> = VecDeque::new();
    body.push_back(Block { x: 1, y: 1 });
    body.push_back(Block { x: 2, y: 1 });
    body.push_back(Block { x: 1, y: 2 });
    for _ in 0..20 {
        assert_eq!(Game::generate_random_apple_location((4, 4), &body), (2, 2));
    }
}

#[test]
fn apple_placement_stays_in_margin_and_off_snake() {
    let s = Snake::init_snake(3, Direction::Right, (20, 20));
    for _ in 0..50 {
        let (x, y) = Game::generate_random_apple_location((20, 20), s.get_body());
        assert!(1 <= x && x < 19 && 1 <= y && y < 19);
        assert!(!Snake::intersects_body(s.get_body(), (x, y)));
    }
}

#[test]
fn can_respawn_reports_remaining_room() {
    let roomy = Game::new_constructed(
        (4, 4),
        Snake::new(1, 1, 1, Direction::Right, (4, 4)),
        GameState::Waiting,
        0,
        (2, 2),
        0,
    );
    assert!(roomy.can_respawn_apple());
    let cramped = Game::new_constructed(
        (3, 3),
        Snake::new(1, 1, 1, Direction::Right, (3, 3)),
        GameState::Waiting,
        0,
        (1, 1),
        0,
    );
    assert!(!cramped.can_respawn_apple());
}

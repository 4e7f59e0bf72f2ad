use snake_core::chain::SnakeError;
use snake_core::food::{FoodItem, FoodKind};
use snake_core::grid::{GridPosition, SnakeDirection};
use snake_core::input::KeyPresses;
use snake_core::session::{SnakeConfig, SnakeGame, SnakeGameState};
use snake_core::state::{AppState, GameState};

const STEP: u64 = 400_000_000;

fn pos(x: u32, y: u32) -> GridPosition {
    GridPosition { x, y }
}

fn started(config: SnakeConfig) -> SnakeGame {
    let mut g = SnakeGame::new(config).unwrap();
    g.request_start();
    g
}

fn positions(g: &SnakeGame) -> Vec<GridPosition> {
    g.snake.as_ref().unwrap().positions()
}

fn check_food_rules(g: &SnakeGame) {
    let segs = positions(g);
    for (i, f) in g.foods.iter().enumerate() {
        assert!(!segs.contains(&f.position));
        assert!(f.position.x < 13 && f.position.y < 13);
        for other in g.foods.iter().skip(i + 1) {
            assert_ne!(f.food.kind(), other.food.kind());
            assert_ne!(f.position, other.position);
        }
    }
}

#[test]
fn new_game_refuses_zero_length() {
    let mut config = SnakeConfig::standard();
    config.start_length = 0;
    assert_eq!(SnakeGame::new(config).err(), Some(SnakeError::ConfigurationError));
}

#[test]
fn new_game_waits_for_setup() {
    let g = SnakeGame::new(SnakeConfig::standard()).unwrap();
    assert_eq!(g.phase, SnakeGameState::NotStarted);
    assert!(g.snake.is_none());
    assert!(g.foods.is_empty());
}

#[test]
fn not_started_game_ignores_frames() {
    let mut g = SnakeGame::new(SnakeConfig::standard()).unwrap();
    let r = g.update(&KeyPresses::only(SnakeDirection::Up), STEP).unwrap();
    assert!(!r.moved);
    assert_eq!(g.phase, SnakeGameState::NotStarted);
    assert!(g.snake.is_none());
}

#[test]
fn start_spawns_the_snake_and_waits() {
    let g = started(SnakeConfig::standard());
    assert_eq!(g.phase, SnakeGameState::WaitPlayer);
    assert_eq!(positions(&g), vec![pos(6, 6), pos(6, 6)]);
    assert_eq!(g.snake.as_ref().unwrap().facing, SnakeDirection::Left);
}

#[test]
fn waiting_without_keys_does_nothing() {
    let mut g = started(SnakeConfig::standard());
    let r = g.update(&KeyPresses::none(), 10 * STEP).unwrap();
    assert!(!r.moved);
    assert_eq!(g.phase, SnakeGameState::WaitPlayer);
    assert_eq!(positions(&g), vec![pos(6, 6), pos(6, 6)]);
    assert!(g.foods.is_empty());
}

#[test]
fn first_step_moves_head_left_and_body_to_old_head() {
    let mut g = started(SnakeConfig::standard());
    let r = g.update(&KeyPresses::only(SnakeDirection::Left), STEP).unwrap();
    assert_eq!(g.phase, SnakeGameState::Playing);
    assert!(r.moved);
    assert!(!r.collided);
    assert_eq!(positions(&g), vec![pos(5, 6), pos(6, 6)]);
    assert_eq!(g.foods.len(), 3);
    check_food_rules(&g);
}

#[test]
fn key_press_starts_play_with_a_fresh_clock() {
    let mut g = started(SnakeConfig::standard());
    g.timer.duration = 5;
    g.timer.elapsed = 3;
    let r = g.update(&KeyPresses::only(SnakeDirection::Up), 0).unwrap();
    assert!(!r.moved);
    assert_eq!(g.phase, SnakeGameState::Playing);
    assert_eq!(g.timer.duration, STEP);
    assert_eq!(g.timer.elapsed, 0);
    assert_eq!(g.accumulator.direction, SnakeDirection::Up);
    assert_eq!(g.foods.len(), 3);
}

#[test]
fn no_step_before_the_clock_fires() {
    let mut g = started(SnakeConfig::standard());
    g.update(&KeyPresses::only(SnakeDirection::Left), 0).unwrap();
    let r = g.update(&KeyPresses::none(), STEP - 1).unwrap();
    assert!(!r.moved);
    assert_eq!(positions(&g), vec![pos(6, 6), pos(6, 6)]);
    let r = g.update(&KeyPresses::none(), 1).unwrap();
    assert!(r.moved);
    assert_eq!(positions(&g), vec![pos(5, 6), pos(6, 6)]);
}

#[test]
fn reversal_keeps_the_snake_on_course() {
    let mut g = started(SnakeConfig::standard());
    g.update(&KeyPresses::only(SnakeDirection::Right), STEP).unwrap();
    assert_eq!(positions(&g)[0], pos(7, 6));
    g.update(&KeyPresses::only(SnakeDirection::Left), STEP).unwrap();
    assert_eq!(g.snake.as_ref().unwrap().facing, SnakeDirection::Right);
    assert_eq!(positions(&g)[0], pos(8, 6));
}

fn square_collision_game() -> SnakeGame {
    let mut config = SnakeConfig::standard();
    config.start_length = 5;
    let mut g = started(config);
    let big = 10 * STEP;
    g.update(&KeyPresses::only(SnakeDirection::Left), big).unwrap();
    g.update(&KeyPresses::only(SnakeDirection::Up), big).unwrap();
    g.update(&KeyPresses::only(SnakeDirection::Right), big).unwrap();
    assert_eq!(g.phase, SnakeGameState::Playing);
    let r = g.update(&KeyPresses::only(SnakeDirection::Down), big).unwrap();
    assert!(r.collided);
    g
}

#[test]
fn self_collision_ends_the_game() {
    let g = square_collision_game();
    assert_eq!(g.phase, SnakeGameState::GameOver);
    assert_eq!(positions(&g)[0], pos(6, 6));
}

#[test]
fn game_over_freezes_until_restart() {
    let mut g = square_collision_game();
    let frozen = positions(&g);
    let foods: Vec<FoodItem> = g.foods.clone();
    for _ in 0..5 {
        let r = g.update(&KeyPresses::none(), 10 * STEP).unwrap();
        assert!(!r.moved);
        assert_eq!(g.phase, SnakeGameState::GameOver);
        assert_eq!(positions(&g), frozen);
        assert_eq!(g.foods, foods);
    }
    let r = g.update(&KeyPresses::only(SnakeDirection::Up), 0).unwrap();
    assert!(!r.moved);
    assert_eq!(g.phase, SnakeGameState::Playing);
    assert_eq!(positions(&g), vec![pos(6, 6); 5]);
    assert_eq!(g.snake.as_ref().unwrap().facing, SnakeDirection::Up);
    assert_eq!(g.timer.duration, STEP);
    assert_eq!(g.foods.len(), 3);
    check_food_rules(&g);
}

#[test]
fn food_rules_hold_over_a_long_game() {
    let mut g = started(SnakeConfig::standard());
    let turns = [
        SnakeDirection::Left,
        SnakeDirection::Up,
        SnakeDirection::Up,
        SnakeDirection::Right,
        SnakeDirection::Right,
        SnakeDirection::Down,
    ];
    for i in 0..300 {
        let keys = KeyPresses::only(turns[i % turns.len()]);
        let r = g.update(&keys, 10 * STEP).unwrap();
        if g.phase == SnakeGameState::Playing {
            check_food_rules(&g);
            assert_eq!(g.foods.len(), 3);
        }
        if r.eaten.is_some() {
            assert!(r.cue.is_some());
        }
    }
}

#[test]
fn eating_red_then_blue_compounds_speed_and_grows() {
    let mut g = started(SnakeConfig::standard());
    g.update(&KeyPresses::only(SnakeDirection::Left), 0).unwrap();
    let red = g.config.menu.red;
    let blue = g.config.menu.blue;
    let green = g.config.menu.green;
    g.foods = vec![
        FoodItem { food: red, position: pos(5, 6) },
        FoodItem { food: blue, position: pos(4, 6) },
        FoodItem { food: green, position: pos(0, 0) },
    ];
    let r = g.update(&KeyPresses::none(), STEP).unwrap();
    assert_eq!(r.eaten, Some(FoodKind::Red));
    assert_eq!(g.timer.duration, 320_000_000);
    assert_eq!(positions(&g).len(), 5);
    let r = g.update(&KeyPresses::none(), 320_000_000).unwrap();
    assert_eq!(r.eaten, Some(FoodKind::Blue));
    assert_eq!(g.timer.duration, 376_470_588);
    assert_eq!(positions(&g).len(), 5);
    assert_eq!(g.foods.len(), 3);
    check_food_rules(&g);
}

#[test]
fn eating_green_grows_by_one_without_speed_change() {
    let mut g = started(SnakeConfig::standard());
    g.update(&KeyPresses::only(SnakeDirection::Left), 0).unwrap();
    g.foods = vec![FoodItem { food: g.config.menu.green, position: pos(5, 6) }];
    let r = g.update(&KeyPresses::none(), STEP).unwrap();
    assert_eq!(r.eaten, Some(FoodKind::Green));
    assert!(r.cue.is_some());
    assert_eq!(g.timer.duration, STEP);
    assert_eq!(positions(&g), vec![pos(5, 6), pos(6, 6), pos(6, 6)]);
}

#[test]
fn frame_fails_when_no_cell_is_free_for_food() {
    let mut config = SnakeConfig::standard();
    config.arena = snake_core::grid::Arena::new(2, 1);
    config.start_position = pos(0, 0);
    let mut g = started(config);
    let r = g.update(&KeyPresses::only(SnakeDirection::Up), 0);
    assert_eq!(r, Err(SnakeError::ArenaExhausted));
}

#[test]
fn restart_requested_directly() {
    let mut g = started(SnakeConfig::standard());
    g.update(&KeyPresses::only(SnakeDirection::Left), STEP).unwrap();
    g.request_start();
    assert_eq!(g.phase, SnakeGameState::WaitPlayer);
    assert!(g.foods.is_empty());
    assert_eq!(positions(&g), vec![pos(6, 6), pos(6, 6)]);
}

#[test]
fn app_and_game_states_default() {
    assert_eq!(AppState::default(), AppState::Menu);
    assert_eq!(GameState::default(), GameState::Playing);
    assert_eq!(SnakeGameState::default(), SnakeGameState::NotStarted);
}

use snake_core::clock::GameTimer;
use snake_core::food::{Food, FoodMenu, SpeedMultiplier};
use snake_core::grid::SnakeDirection;
use snake_core::input::{first_pressed, DirectionAccumulator, KeyPresses};

#[test]
fn reversal_is_rejected() {
    let mut acc = DirectionAccumulator::new(SnakeDirection::Right);
    acc.accumulate(SnakeDirection::Right, &KeyPresses::only(SnakeDirection::Left));
    assert_eq!(acc.direction, SnakeDirection::Right);
    assert!(!acc.accept(SnakeDirection::Right, SnakeDirection::Left));
    assert_eq!(acc.direction, SnakeDirection::Right);
}

#[test]
fn turn_is_accepted() {
    let mut acc = DirectionAccumulator::new(SnakeDirection::Right);
    assert!(acc.accept(SnakeDirection::Right, SnakeDirection::Up));
    assert_eq!(acc.direction, SnakeDirection::Up);
}

#[test]
fn accumulation_skips_the_reversal_key() {
    let mut acc = DirectionAccumulator::new(SnakeDirection::Right);
    let keys = KeyPresses { left: true, right: false, up: true, down: true };
    acc.accumulate(SnakeDirection::Right, &keys);
    assert_eq!(acc.direction, SnakeDirection::Up);
}

#[test]
fn accumulation_keeps_value_without_keys() {
    let mut acc = DirectionAccumulator::new(SnakeDirection::Down);
    acc.accumulate(SnakeDirection::Left, &KeyPresses::none());
    assert_eq!(acc.direction, SnakeDirection::Down);
}

#[test]
fn first_pressed_follows_key_order() {
    assert_eq!(first_pressed(&KeyPresses::none()), None);
    let keys = KeyPresses { left: false, right: true, up: true, down: true };
    assert_eq!(first_pressed(&keys), Some(SnakeDirection::Right));
    assert_eq!(
        first_pressed(&KeyPresses::only(SnakeDirection::Down)),
        Some(SnakeDirection::Down)
    );
    assert!(KeyPresses::only(SnakeDirection::Up).any());
    assert!(!KeyPresses::none().any());
}

#[test]
fn tick_signals_when_duration_reached() {
    let mut t = GameTimer::new(400_000_000);
    assert!(!t.tick(150_000_000));
    assert_eq!(t.elapsed, 150_000_000);
    assert!(!t.tick(200_000_000));
    assert!(t.tick(100_000_000));
    assert_eq!(t.elapsed, 50_000_000);
}

#[test]
fn tick_keeps_only_the_remainder() {
    let mut t = GameTimer::new(400_000_000);
    assert!(t.tick(1_000_000_000));
    assert_eq!(t.elapsed, 200_000_000);
}

#[test]
fn tick_with_zero_duration_always_fires() {
    let mut t = GameTimer::new(0);
    assert!(t.tick(0));
    assert_eq!(t.elapsed, 0);
}

#[test]
fn tick_saturates_elapsed_time() {
    let mut t = GameTimer::new(u64::MAX);
    assert!(!t.tick(u64::MAX - 1));
    assert!(t.tick(5));
    assert_eq!(t.elapsed, 0);
}

#[test]
fn red_then_blue_compound() {
    let menu = FoodMenu::standard();
    let mut t = GameTimer::new(400_000_000);
    let red = menu.red.effect().speed_multiplier.unwrap();
    let blue = menu.blue.effect().speed_multiplier.unwrap();
    t.set_duration_multiplier(red);
    assert_eq!(t.duration, 320_000_000);
    t.set_duration_multiplier(blue);
    assert_eq!(t.duration, 376_470_588);
    let expected = 0.4f64 / 1.25 / 0.85;
    assert!((t.duration as f64 / 1e9 - expected).abs() < 1e-8);
    assert_eq!(t.base_duration, 400_000_000);
}

#[test]
fn reset_duration_restores_base() {
    let mut t = GameTimer::new(400_000_000);
    t.set_duration_multiplier(SpeedMultiplier::new(2, 1));
    assert_eq!(t.duration, 200_000_000);
    t.tick(100);
    t.reset_duration();
    assert_eq!(t.duration, 400_000_000);
    assert_eq!(t.elapsed, 100);
    t.reset();
    assert_eq!(t.elapsed, 0);
}

#[test]
fn multiplier_saturates_at_the_largest_duration() {
    let mut t = GameTimer::new(u64::MAX / 2);
    t.set_duration_multiplier(SpeedMultiplier::new(1, 4));
    assert_eq!(t.duration, u64::MAX);
}

#[test]
fn food_effects_follow_the_table() {
    let menu = FoodMenu::standard();
    let g = menu.green.effect();
    assert_eq!(g.growth, 1);
    assert_eq!(g.speed_multiplier, None);
    let r = menu.red.effect();
    assert_eq!(r.growth, 3);
    assert_eq!(r.speed_multiplier, Some(SpeedMultiplier { numerator: 125, denominator: 100 }));
    let b = menu.blue.effect();
    assert_eq!(b.growth, 0);
    assert_eq!(b.speed_multiplier, Some(SpeedMultiplier { numerator: 85, denominator: 100 }));
    assert_ne!(g.cue, r.cue);
    assert_ne!(r.cue, b.cue);
    assert_eq!(Food::Green { growth_amount: 7 }.effect().growth, 7);
}

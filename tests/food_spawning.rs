use snake_core::chain::{SnakeChain, SnakeError};
use snake_core::feeding::{find_eaten_food, occupied_cells, spawn_missing_foods};
use snake_core::food::{Food, FoodItem, FoodKind, FoodMenu};
use snake_core::grid::{Arena, GridPosition, SnakeDirection};
use snake_core::spawner::{count_free_cells, nth_free_cell, random_position_except};

fn pos(x: u32, y: u32) -> GridPosition {
    GridPosition { x, y }
}

#[test]
fn free_cells_are_counted_once_each() {
    let arena = Arena::new(4, 3);
    let occupied = vec![pos(0, 0), pos(0, 0), pos(3, 2), pos(9, 9)];
    assert_eq!(count_free_cells(&arena, &occupied), 10);
    assert_eq!(count_free_cells(&arena, &vec![]), 12);
}

#[test]
fn nth_free_cell_scans_rows_first() {
    let arena = Arena::new(3, 2);
    let occupied = vec![pos(1, 0), pos(0, 1)];
    assert_eq!(nth_free_cell(&arena, &occupied, 0), pos(0, 0));
    assert_eq!(nth_free_cell(&arena, &occupied, 1), pos(2, 0));
    assert_eq!(nth_free_cell(&arena, &occupied, 2), pos(1, 1));
    assert_eq!(nth_free_cell(&arena, &occupied, 3), pos(2, 1));
}

#[test]
fn random_position_takes_the_only_free_cell() {
    let arena = Arena::new(3, 1);
    let occupied = vec![pos(0, 0), pos(1, 0)];
    for _ in 0..20 {
        assert_eq!(random_position_except(&arena, &occupied), Ok(pos(2, 0)));
    }
}

#[test]
fn random_position_is_always_free() {
    let arena = Arena::new(5, 5);
    let occupied = vec![pos(0, 0), pos(1, 1), pos(2, 2), pos(3, 3), pos(4, 4)];
    for _ in 0..200 {
        let p = random_position_except(&arena, &occupied).unwrap();
        assert!(p.x < 5 && p.y < 5);
        assert!(!occupied.contains(&p));
    }
}

#[test]
fn random_position_fails_on_a_full_arena() {
    let arena = Arena::new(2, 1);
    let occupied = vec![pos(0, 0), pos(1, 0)];
    assert_eq!(
        random_position_except(&arena, &occupied),
        Err(SnakeError::ArenaExhausted)
    );
}

#[test]
fn eaten_food_is_the_one_under_a_segment() {
    let c = SnakeChain::spawn(pos(2, 2), SnakeDirection::Left, 1).unwrap();
    let foods = vec![
        FoodItem { food: Food::Green { growth_amount: 1 }, position: pos(0, 0) },
        FoodItem { food: FoodMenu::standard().blue, position: pos(2, 2) },
    ];
    assert_eq!(find_eaten_food(&c.segments, &foods), Some(1));
    assert_eq!(find_eaten_food(&c.segments, &foods[..1].to_vec()), None);
}

#[test]
fn occupied_lists_segments_then_foods() {
    let c = SnakeChain::spawn(pos(2, 2), SnakeDirection::Left, 2).unwrap();
    let foods = vec![FoodItem { food: Food::Green { growth_amount: 1 }, position: pos(0, 1) }];
    assert_eq!(occupied_cells(&c.segments, &foods), vec![pos(2, 2), pos(2, 2), pos(0, 1)]);
}

#[test]
fn all_three_kinds_are_placed_on_free_cells() {
    let arena = Arena::new(13, 13);
    let menu = FoodMenu::standard();
    for _ in 0..50 {
        let c = SnakeChain::spawn(pos(6, 6), SnakeDirection::Left, 2).unwrap();
        let mut foods = Vec::new();
        assert_eq!(spawn_missing_foods(&arena, &menu, &c.segments, &mut foods), Ok(()));
        assert_eq!(foods.len(), 3);
        assert_eq!(foods[0].food, menu.green);
        assert_eq!(foods[1].food, menu.red);
        assert_eq!(foods[2].food, menu.blue);
        for (i, f) in foods.iter().enumerate() {
            assert_ne!(f.position, pos(6, 6));
            for g in foods.iter().skip(i + 1) {
                assert_ne!(f.position, g.position);
            }
        }
    }
}

#[test]
fn only_the_missing_kind_is_refilled() {
    let arena = Arena::new(13, 13);
    let menu = FoodMenu::standard();
    let c = SnakeChain::spawn(pos(6, 6), SnakeDirection::Left, 2).unwrap();
    let mut foods = vec![
        FoodItem { food: menu.green, position: pos(0, 0) },
        FoodItem { food: menu.blue, position: pos(1, 0) },
    ];
    assert_eq!(spawn_missing_foods(&arena, &menu, &c.segments, &mut foods), Ok(()));
    assert_eq!(foods.len(), 3);
    assert_eq!(foods[2].food.kind(), FoodKind::Red);
    assert!(foods[2].position != pos(0, 0) && foods[2].position != pos(1, 0));
    assert!(foods[2].position != pos(6, 6));
}

#[test]
fn spawning_fails_when_too_few_cells_are_free() {
    let arena = Arena::new(3, 1);
    let menu = FoodMenu::standard();
    let c = SnakeChain::spawn(pos(0, 0), SnakeDirection::Left, 1).unwrap();
    let mut foods = Vec::new();
    assert_eq!(
        spawn_missing_foods(&arena, &menu, &c.segments, &mut foods),
        Err(SnakeError::ArenaExhausted)
    );
    assert_eq!(foods.len(), 2);
    let mut exact = Vec::new();
    let arena4 = Arena::new(4, 1);
    assert_eq!(spawn_missing_foods(&arena4, &menu, &c.segments, &mut exact), Ok(()));
    let mut cells: Vec<u32> = exact.iter().map(|f| f.position.x).collect();
    cells.sort();
    assert_eq!(cells, vec![1, 2, 3]);
}

use snake_core::chain::{SnakeChain, SnakeError};
use snake_core::grid::{Arena, GridPosition, SnakeDirection};

fn pos(x: u32, y: u32) -> GridPosition {
    GridPosition { x, y }
}

#[test]
fn wrap_right_edge_to_zero() {
    let arena = Arena::new(13, 13);
    assert_eq!(arena.step(&pos(12, 4), SnakeDirection::Right), pos(0, 4));
}

#[test]
fn wrap_left_edge_to_last_column() {
    let arena = Arena::new(13, 13);
    assert_eq!(arena.step(&pos(0, 4), SnakeDirection::Left), pos(12, 4));
}

#[test]
fn wrap_top_and_bottom_edges() {
    let arena = Arena::new(10, 7);
    assert_eq!(arena.step(&pos(3, 6), SnakeDirection::Up), pos(3, 0));
    assert_eq!(arena.step(&pos(3, 0), SnakeDirection::Down), pos(3, 6));
}

#[test]
fn interior_steps_move_one_cell() {
    let arena = Arena::new(13, 13);
    assert_eq!(arena.left(&pos(6, 6)), pos(5, 6));
    assert_eq!(arena.right(&pos(6, 6)), pos(7, 6));
    assert_eq!(arena.up(&pos(6, 6)), pos(6, 7));
    assert_eq!(arena.down(&pos(6, 6)), pos(6, 5));
}

#[test]
fn opposite_is_involutive() {
    for d in [
        SnakeDirection::Up,
        SnakeDirection::Down,
        SnakeDirection::Left,
        SnakeDirection::Right,
    ] {
        assert_ne!(d.opposite(), d);
        assert_eq!(d.opposite().opposite(), d);
    }
    assert_eq!(SnakeDirection::Left.opposite(), SnakeDirection::Right);
    assert_eq!(SnakeDirection::Up.opposite(), SnakeDirection::Down);
}

#[test]
fn opposite_to_direction_steps_back() {
    let arena = Arena::new(13, 13);
    assert_eq!(arena.opposite_to_direction(&pos(6, 6), SnakeDirection::Left), pos(7, 6));
    assert_eq!(arena.opposite_to_direction(&pos(0, 0), SnakeDirection::Right), pos(12, 0));
}

#[test]
fn spawn_rejects_zero_length() {
    let r = SnakeChain::spawn(pos(6, 6), SnakeDirection::Left, 0);
    assert_eq!(r.err(), Some(SnakeError::ConfigurationError));
}

#[test]
fn spawn_builds_a_single_chain_on_one_cell() {
    let c = SnakeChain::spawn(pos(6, 6), SnakeDirection::Left, 3).unwrap();
    assert_eq!(c.len(), 3);
    assert_eq!(c.facing, SnakeDirection::Left);
    assert_eq!(c.segments[0].follows, None);
    assert_eq!(c.segments[1].follows, Some(0));
    assert_eq!(c.segments[2].follows, Some(1));
    assert!(c.positions().iter().all(|p| *p == pos(6, 6)));
    let heads = c.segments.iter().filter(|s| s.follows.is_none()).count();
    assert_eq!(heads, 1);
}

#[test]
fn one_step_from_the_start_cell() {
    let arena = Arena::new(13, 13);
    let mut c = SnakeChain::spawn(pos(6, 6), SnakeDirection::Left, 2).unwrap();
    c.step(&arena, SnakeDirection::Left);
    assert_eq!(c.head_position(), pos(5, 6));
    assert_eq!(c.positions(), vec![pos(5, 6), pos(6, 6)]);
    assert_eq!(c.facing, SnakeDirection::Left);
}

#[test]
fn body_follows_previous_positions() {
    let arena = Arena::new(13, 13);
    let mut c = SnakeChain::spawn(pos(6, 6), SnakeDirection::Left, 4).unwrap();
    c.step(&arena, SnakeDirection::Left);
    c.step(&arena, SnakeDirection::Up);
    c.step(&arena, SnakeDirection::Up);
    assert_eq!(c.positions(), vec![pos(5, 8), pos(5, 7), pos(5, 6), pos(6, 6)]);
    assert_eq!(c.facing, SnakeDirection::Up);
    assert_eq!(c.len(), 4);
}

#[test]
fn grow_three_adds_three_on_the_tail_cell() {
    let arena = Arena::new(13, 13);
    let mut c = SnakeChain::spawn(pos(6, 6), SnakeDirection::Left, 2).unwrap();
    c.step(&arena, SnakeDirection::Left);
    c.step(&arena, SnakeDirection::Left);
    let tail = *c.positions().last().unwrap();
    assert_eq!(tail, pos(5, 6));
    c.grow(3);
    assert_eq!(c.len(), 5);
    for i in 2..5 {
        assert_eq!(c.segments[i].position, tail);
        assert_eq!(c.segments[i].follows, Some(i - 1));
        assert_eq!(c.segments[i].id, i);
    }
    c.step(&arena, SnakeDirection::Left);
    assert_eq!(
        c.positions(),
        vec![pos(3, 6), pos(4, 6), pos(5, 6), pos(5, 6), pos(5, 6)]
    );
}

#[test]
fn grow_zero_changes_nothing() {
    let mut c = SnakeChain::spawn(pos(1, 1), SnakeDirection::Up, 2).unwrap();
    c.grow(0);
    assert_eq!(c.len(), 2);
}

#[test]
fn tail_is_the_segment_nobody_follows() {
    let mut c = SnakeChain::spawn(pos(6, 6), SnakeDirection::Left, 3).unwrap();
    assert_eq!(snake_core::chain::find_tail_segment(&c.segments), 2);
    c.grow(2);
    assert_eq!(snake_core::chain::find_tail_segment(&c.segments), 4);
    let single = SnakeChain::spawn(pos(0, 0), SnakeDirection::Left, 1).unwrap();
    assert_eq!(snake_core::chain::find_tail_segment(&single.segments), 0);
}

#[test]
fn self_collision_after_a_square_turn() {
    let arena = Arena::new(13, 13);
    let mut c = SnakeChain::spawn(pos(6, 6), SnakeDirection::Left, 5).unwrap();
    c.step(&arena, SnakeDirection::Left);
    assert!(!c.self_collides());
    c.step(&arena, SnakeDirection::Up);
    assert!(!c.self_collides());
    c.step(&arena, SnakeDirection::Right);
    assert!(!c.self_collides());
    c.step(&arena, SnakeDirection::Down);
    assert_eq!(c.head_position(), pos(6, 6));
    assert!(c.self_collides());
}

#[test]
fn fresh_colocated_chain_counts_as_overlapping() {
    let c = SnakeChain::spawn(pos(2, 2), SnakeDirection::Left, 2).unwrap();
    assert!(c.self_collides());
    let single = SnakeChain::spawn(pos(2, 2), SnakeDirection::Left, 1).unwrap();
    assert!(!single.self_collides());
}

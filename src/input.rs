//! Directional input and the buffer that holds the next move.
use vstd::prelude::*;

use crate::grid::SnakeDirection;

verus! {

/// The arrow keys pressed during one frame.
#[derive(Debug, Clone, Copy, PartialEq, Eq, Structural, Default)]
pub struct KeyPresses {
    pub left: bool,
    pub right: bool,
    pub up: bool,
    pub down: bool,
}

impl KeyPresses {
    pub open spec fn pressed(self, d: SnakeDirection) -> bool {
        match d {
            SnakeDirection::Left => self.left,
            SnakeDirection::Right => self.right,
            SnakeDirection::Up => self.up,
            SnakeDirection::Down => self.down,
        }
    }

    pub open spec fn any_spec(self) -> bool {
        self.left || self.right || self.up || self.down
    }

    /// No key pressed.
    pub fn none() -> (r: KeyPresses)
        ensures
            !r.any_spec(),
    {
        KeyPresses { left: false, right: false, up: false, down: false }
    }

    /// Only the key for `d` pressed.
    pub fn only(d: SnakeDirection) -> (r: KeyPresses)
        ensures
            forall|e: SnakeDirection| r.pressed(e) <==> e == d,
    {
        KeyPresses {
            left: d == SnakeDirection::Left,
            right: d == SnakeDirection::Right,
            up: d == SnakeDirection::Up,
            down: d == SnakeDirection::Down,
        }
    }

    pub fn any(&self) -> (r: bool)
        ensures
            r == self.any_spec(),
    {
        self.left || self.right || self.up || self.down
    }
}

/// The first pressed key in the order Left, Right, Up, Down.
pub open spec fn first_pressed_spec(keys: KeyPresses) -> Option<SnakeDirection> {
    if keys.left {
        Some(SnakeDirection::Left)
    } else if keys.right {
        Some(SnakeDirection::Right)
    } else if keys.up {
        Some(SnakeDirection::Up)
    } else if keys.down {
        Some(SnakeDirection::Down)
    } else {
        None
    }
}

pub fn first_pressed(keys: &KeyPresses) -> (r: Option<SnakeDirection>)
    ensures
        r == first_pressed_spec(*keys),
        r is None <==> !keys.any_spec(),
{
    if keys.left {
        Some(SnakeDirection::Left)
    } else if keys.right {
        Some(SnakeDirection::Right)
    } else if keys.up {
        Some(SnakeDirection::Up)
    } else if keys.down {
        Some(SnakeDirection::Down)
    } else {
        None
    }
}

/// A head facing `facing` may turn to `requested` unless that is a reversal.
pub open spec fn accepts(facing: SnakeDirection, requested: SnakeDirection) -> bool {
    requested != facing.opposite_spec()
}

/// The first pressed key, in the order Left, Right, Up, Down, that is not a
/// reversal of `facing`.
pub open spec fn chosen_direction(facing: SnakeDirection, keys: KeyPresses) -> Option<
    SnakeDirection,
> {
    if keys.left && accepts(facing, SnakeDirection::Left) {
        Some(SnakeDirection::Left)
    } else if keys.right && accepts(facing, SnakeDirection::Right) {
        Some(SnakeDirection::Right)
    } else if keys.up && accepts(facing, SnakeDirection::Up) {
        Some(SnakeDirection::Up)
    } else if keys.down && accepts(facing, SnakeDirection::Down) {
        Some(SnakeDirection::Down)
    } else {
        None
    }
}

/// The direction in which the snake will move next. It keeps its value
/// across steps until a new direction is accepted.
#[derive(Debug, Clone, Copy, PartialEq, Eq, Structural)]
pub struct DirectionAccumulator {
    pub direction: SnakeDirection,
}

impl DirectionAccumulator {
    pub fn new(direction: SnakeDirection) -> (r: DirectionAccumulator)
        ensures
            r.direction == direction,
    {
        DirectionAccumulator { direction }
    }

    /// Takes `requested` unless it reverses `facing`; says whether it did.
    pub fn accept(&mut self, facing: SnakeDirection, requested: SnakeDirection) -> (r: bool)
        ensures
            r == accepts(facing, requested),
            final(self).direction == if r {
                requested
            } else {
                old(self).direction
            },
    {
        if requested == facing.opposite() {
            false
        } else {
            self.direction = requested;
            true
        }
    }

    /// Takes the first acceptable pressed direction, if any.
    pub fn accumulate(&mut self, facing: SnakeDirection, keys: &KeyPresses)
        ensures
            final(self).direction == match chosen_direction(facing, *keys) {
                Some(d) => d,
                None => old(self).direction,
            },
    {
        if keys.left && self.accept(facing, SnakeDirection::Left) {
            return;
        }
        if keys.right && self.accept(facing, SnakeDirection::Right) {
            return;
        }
        if keys.up && self.accept(facing, SnakeDirection::Up) {
            return;
        }
        if keys.down {
            self.accept(facing, SnakeDirection::Down);
        }
    }
}

/// Input never turns the snake straight back: a reversal is never chosen,
/// so with only the reversing key pressed the buffered direction stays.
pub proof fn lemma_reversal_rejected(facing: SnakeDirection, keys: KeyPresses)
    ensures
        chosen_direction(facing, keys) != Some(facing.opposite_spec()),
        (forall|e: SnakeDirection| keys.pressed(e) <==> e == facing.opposite_spec()) ==> chosen_direction(
            facing,
            keys,
        ) is None,
{
    if forall|e: SnakeDirection| keys.pressed(e) <==> e == facing.opposite_spec() {
        assert(keys.pressed(SnakeDirection::Left) == (SnakeDirection::Left == facing.opposite_spec()));
        assert(keys.pressed(SnakeDirection::Right) == (SnakeDirection::Right == facing.opposite_spec()));
        assert(keys.pressed(SnakeDirection::Up) == (SnakeDirection::Up == facing.opposite_spec()));
        assert(keys.pressed(SnakeDirection::Down) == (SnakeDirection::Down == facing.opposite_spec()));
    }
}

} // verus!

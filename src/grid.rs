//! Toroidal arena geometry: cells, directions and wrap-around steps.
use vstd::prelude::*;

verus! {

/// A direction in which the snake's head can move.
///
/// `Up` increases `y`, `Down` decreases it; `Right` increases `x`.
#[derive(Debug, Clone, Copy, PartialEq, Eq, Structural, Hash, Default)]
pub enum SnakeDirection {
    #[default]
    Down,
    Up,
    Left,
    Right,
}

impl SnakeDirection {
    /// The direction pointing the other way.
    pub open spec fn opposite_spec(self) -> SnakeDirection {
        match self {
            SnakeDirection::Down => SnakeDirection::Up,
            SnakeDirection::Up => SnakeDirection::Down,
            SnakeDirection::Left => SnakeDirection::Right,
            SnakeDirection::Right => SnakeDirection::Left,
        }
    }

    pub fn opposite(&self) -> (r: SnakeDirection)
        ensures
            r == self.opposite_spec(),
    {
        match self {
            SnakeDirection::Down => SnakeDirection::Up,
            SnakeDirection::Up => SnakeDirection::Down,
            SnakeDirection::Left => SnakeDirection::Right,
            SnakeDirection::Right => SnakeDirection::Left,
        }
    }
}

/// `opposite` is total and involutive, and never the identity.
pub proof fn lemma_opposite_involutive(d: SnakeDirection)
    ensures
        d.opposite_spec().opposite_spec() == d,
        d.opposite_spec() != d,
{
}

/// A cell of the arena.
#[derive(Debug, Clone, Copy, PartialEq, Eq, Structural, Hash)]
pub struct GridPosition {
    pub x: u32,
    pub y: u32,
}

/// The value after `v` on a ring of `size` values: past the last it is 0.
pub open spec fn wrap_inc(v: u32, size: u32) -> u32 {
    if v >= size - 1 {
        0
    } else {
        (v + 1) as u32
    }
}

/// The value before `v` on a ring of `size` values: below 0 it is the last.
pub open spec fn wrap_dec(v: u32, size: u32) -> u32 {
    if v == 0 {
        (size - 1) as u32
    } else {
        (v - 1) as u32
    }
}

/// Fixed-size toroidal grid of `width` by `height` cells.
#[derive(Debug, Clone, Copy, PartialEq, Eq, Structural)]
pub struct Arena {
    pub width: u32,
    pub height: u32,
}

impl Arena {
    /// An arena has at least one cell.
    pub open spec fn wf(self) -> bool {
        self.width > 0 && self.height > 0
    }

    pub open spec fn area(self) -> nat {
        (self.width * self.height) as nat
    }

    pub open spec fn contains(self, p: GridPosition) -> bool {
        p.x < self.width && p.y < self.height
    }

    /// The cell next to `p` in direction `d`, wrapping at the edges.
    pub open spec fn step_spec(self, p: GridPosition, d: SnakeDirection) -> GridPosition {
        match d {
            SnakeDirection::Left => GridPosition { x: wrap_dec(p.x, self.width), y: p.y },
            SnakeDirection::Right => GridPosition { x: wrap_inc(p.x, self.width), y: p.y },
            SnakeDirection::Down => GridPosition { x: p.x, y: wrap_dec(p.y, self.height) },
            SnakeDirection::Up => GridPosition { x: p.x, y: wrap_inc(p.y, self.height) },
        }
    }

    pub fn new(width: u32, height: u32) -> (r: Arena)
        requires
            width > 0,
            height > 0,
        ensures
            r.width == width,
            r.height == height,
            r.wf(),
    {
        Arena { width, height }
    }

    pub fn contains_position(&self, p: &GridPosition) -> (r: bool)
        ensures
            r == self.contains(*p),
    {
        p.x < self.width && p.y < self.height
    }

    pub fn left(&self, p: &GridPosition) -> (r: GridPosition)
        requires
            self.wf(),
        ensures
            r == self.step_spec(*p, SnakeDirection::Left),
    {
        let x: u32 = if p.x == 0 {
            self.width - 1
        } else {
            p.x - 1
        };
        GridPosition { x, y: p.y }
    }

    pub fn right(&self, p: &GridPosition) -> (r: GridPosition)
        requires
            self.wf(),
        ensures
            r == self.step_spec(*p, SnakeDirection::Right),
    {
        let x: u32 = if p.x >= self.width - 1 {
            0
        } else {
            p.x + 1
        };
        GridPosition { x, y: p.y }
    }

    pub fn down(&self, p: &GridPosition) -> (r: GridPosition)
        requires
            self.wf(),
        ensures
            r == self.step_spec(*p, SnakeDirection::Down),
    {
        let y: u32 = if p.y == 0 {
            self.height - 1
        } else {
            p.y - 1
        };
        GridPosition { x: p.x, y }
    }

    pub fn up(&self, p: &GridPosition) -> (r: GridPosition)
        requires
            self.wf(),
        ensures
            r == self.step_spec(*p, SnakeDirection::Up),
    {
        let y: u32 = if p.y >= self.height - 1 {
            0
        } else {
            p.y + 1
        };
        GridPosition { x: p.x, y }
    }

    /// One step from `p` in direction `d`, with toroidal wrap-around.
    pub fn step(&self, p: &GridPosition, d: SnakeDirection) -> (r: GridPosition)
        requires
            self.wf(),
        ensures
            r == self.step_spec(*p, d),
    {
        match d {
            SnakeDirection::Left => self.left(p),
            SnakeDirection::Right => self.right(p),
            SnakeDirection::Down => self.down(p),
            SnakeDirection::Up => self.up(p),
        }
    }

    /// One step from `p` against direction `d`.
    pub fn opposite_to_direction(&self, p: &GridPosition, d: SnakeDirection) -> (r: GridPosition)
        requires
            self.wf(),
        ensures
            r == self.step_spec(*p, d.opposite_spec()),
    {
        self.step(p, d.opposite())
    }
}

/// Stepping off an edge re-enters at the opposite edge, in the same row or
/// column.
pub proof fn lemma_toroidal_wrap(arena: Arena, p: GridPosition)
    requires
        arena.wf(),
        arena.contains(p),
    ensures
        p.x == arena.width - 1 ==> arena.step_spec(p, SnakeDirection::Right) == (GridPosition {
            x: 0,
            y: p.y,
        }),
        p.x == 0 ==> arena.step_spec(p, SnakeDirection::Left) == (GridPosition {
            x: (arena.width - 1) as u32,
            y: p.y,
        }),
        p.y == arena.height - 1 ==> arena.step_spec(p, SnakeDirection::Up) == (GridPosition {
            x: p.x,
            y: 0,
        }),
        p.y == 0 ==> arena.step_spec(p, SnakeDirection::Down) == (GridPosition {
            x: p.x,
            y: (arena.height - 1) as u32,
        }),
{
}

/// A step stays inside the arena, and a step back undoes it.
pub proof fn lemma_step_inverse(arena: Arena, p: GridPosition, d: SnakeDirection)
    requires
        arena.wf(),
        arena.contains(p),
    ensures
        arena.contains(arena.step_spec(p, d)),
        arena.step_spec(arena.step_spec(p, d), d.opposite_spec()) == p,
{
}

} // verus!

//! Choosing a free cell of the arena, uniformly among the free ones.
//!
//! Cells are scanned in row-major order (`y` outer, `x` inner); a cell is
//! free when it lies in the arena and is not in the occupied list.
use vstd::prelude::*;

use crate::chain::SnakeError;
use crate::grid::{Arena, GridPosition};

verus! {

pub open spec fn is_free(arena: Arena, occupied: Seq<GridPosition>, p: GridPosition) -> bool {
    arena.contains(p) && !occupied.contains(p)
}

/// The number of free cells that come before cell `(x, y)` in row-major
/// order; `x` runs up to `width`.
pub open spec fn free_before(arena: Arena, occupied: Seq<GridPosition>, y: int, x: int) -> nat
    decreases y, x,
{
    if y <= 0 && x <= 0 {
        0
    } else if x <= 0 {
        free_before(arena, occupied, y - 1, arena.width as int)
    } else {
        free_before(arena, occupied, y, x - 1) + if is_free(
            arena,
            occupied,
            GridPosition { x: (x - 1) as u32, y: y as u32 },
        ) {
            1nat
        } else {
            0nat
        }
    }
}

/// The number of free cells in the whole arena.
pub open spec fn free_count(arena: Arena, occupied: Seq<GridPosition>) -> nat {
    free_before(arena, occupied, arena.height as int, 0)
}

/// `p` is a free cell with exactly `i` free cells before it.
pub open spec fn is_nth_free(arena: Arena, occupied: Seq<GridPosition>, i: nat, p: GridPosition) -> bool {
    is_free(arena, occupied, p) && free_before(arena, occupied, p.y as int, p.x as int) == i
}

/// `p` is the free cell of some rank below the number of free cells.
pub open spec fn is_ranked_free(arena: Arena, occupied: Seq<GridPosition>, p: GridPosition) -> bool {
    exists|i: nat| i < free_count(arena, occupied) && #[trigger] is_nth_free(arena, occupied, i, p)
}

/// Relies on rand::random_range: a value drawn from the half-open range
/// `0..n` with the thread-local generator; the range must not be empty.
#[verifier::external_body]
fn random_below(n: u64) -> (r: u64)
    requires
        n > 0,
    ensures
        r < n,
{
    rand::random_range(0..n)
}

fn contains_position(cells: &Vec<GridPosition>, p: &GridPosition) -> (r: bool)
    ensures
        r == cells@.contains(*p),
{
    let mut i: usize = 0;
    while i < cells.len()
        invariant
            i <= cells@.len(),
            forall|j: int| 0 <= j < i ==> cells@[j] != *p,
        decreases cells@.len() - i,
    {
        if cells[i] == *p {
            assert(cells@[i as int] == *p);
            return true;
        }
        i = i + 1;
    }
    false
}

/// Counts the free cells of the arena.
pub fn count_free_cells(arena: &Arena, occupied: &Vec<GridPosition>) -> (r: u64)
    requires
        arena.wf(),
    ensures
        r == free_count(*arena, occupied@),
{
    let mut count: u64 = 0;
    let mut y: u32 = 0;
    while y < arena.height
        invariant
            arena.wf(),
            y <= arena.height,
            count == free_before(*arena, occupied@, y as int, 0),
            count <= y * 4294967296,
        decreases arena.height - y,
    {
        let mut x: u32 = 0;
        while x < arena.width
            invariant
                arena.wf(),
                y < arena.height,
                x <= arena.width,
                count == free_before(*arena, occupied@, y as int, x as int),
                count <= y * 4294967296 + x,
            decreases arena.width - x,
        {
            let p = GridPosition { x, y };
            if arena.contains_position(&p) && !contains_position(occupied, &p) {
                count = count + 1;
            }
            x = x + 1;
        }
        assert(free_before(*arena, occupied@, y + 1, 0) == free_before(
            *arena,
            occupied@,
            y as int,
            arena.width as int,
        ));
        y = y + 1;
    }
    count
}

/// The free cell that has exactly `i` free cells before it.
pub fn nth_free_cell(arena: &Arena, occupied: &Vec<GridPosition>, i: u64) -> (r: GridPosition)
    requires
        arena.wf(),
        i < free_count(*arena, occupied@),
    ensures
        is_nth_free(*arena, occupied@, i as nat, r),
{
    let mut count: u64 = 0;
    let mut y: u32 = 0;
    while y < arena.height
        invariant
            arena.wf(),
            y <= arena.height,
            i < free_count(*arena, occupied@),
            count == free_before(*arena, occupied@, y as int, 0),
            count <= i,
        decreases arena.height - y,
    {
        let mut x: u32 = 0;
        while x < arena.width
            invariant
                arena.wf(),
                y < arena.height,
                x <= arena.width,
                count == free_before(*arena, occupied@, y as int, x as int),
                count <= i,
            decreases arena.width - x,
        {
            let p = GridPosition { x, y };
            if arena.contains_position(&p) && !contains_position(occupied, &p) {
                if count == i {
                    return p;
                }
                count = count + 1;
            }
            x = x + 1;
        }
        assert(free_before(*arena, occupied@, y + 1, 0) == free_before(
            *arena,
            occupied@,
            y as int,
            arena.width as int,
        ));
        y = y + 1;
    }
    proof {
        assert(false);
    }
    GridPosition { x: 0, y: 0 }
}

/// A free cell drawn uniformly at random: the number of free cells is
/// counted, an index below it is drawn, and the free cell of that rank in
/// row-major order is returned. Fails when no cell is free.
pub fn random_position_except(arena: &Arena, occupied: &Vec<GridPosition>) -> (r: Result<
    GridPosition,
    SnakeError,
>)
    requires
        arena.wf(),
    ensures
        r is Err <==> free_count(*arena, occupied@) == 0,
        r is Err ==> r == Err::<GridPosition, SnakeError>(SnakeError::ArenaExhausted),
        r matches Ok(p) ==> is_ranked_free(*arena, occupied@, p),
{
    let free = count_free_cells(arena, occupied);
    if free == 0 {
        return Err(SnakeError::ArenaExhausted);
    }
    let i = random_below(free);
    let p = nth_free_cell(arena, occupied, i);
    let ghost rank: nat = i as nat;
    assert(rank < free_count(*arena, occupied@) && is_nth_free(*arena, occupied@, rank, p));
    assert(is_ranked_free(*arena, occupied@, p));
    Ok(p)
}

} // verus!

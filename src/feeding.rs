//! Foods on the arena: which one the snake has reached, and refilling the
//! kinds that are missing.
use vstd::prelude::*;

use crate::chain::{positions_of, Segment, SnakeError};
use crate::food::{Food, FoodItem, FoodKind, FoodMenu};
use crate::grid::{Arena, GridPosition};
use crate::spawner::{
    free_before, free_count, is_free, is_nth_free, is_ranked_free, random_position_except,
};

verus! {

pub open spec fn food_positions(foods: Seq<FoodItem>) -> Seq<GridPosition> {
    foods.map_values(|f: FoodItem| f.position)
}

/// The cells that a new food may not take: the segments', then the foods'.
pub open spec fn occupied_spec(segs: Seq<Segment>, foods: Seq<FoodItem>) -> Seq<GridPosition> {
    positions_of(segs) + food_positions(foods)
}

/// Some segment lies on `p`.
pub open spec fn lies_on(segs: Seq<Segment>, p: GridPosition) -> bool {
    exists|i: int| 0 <= i < segs.len() && #[trigger] segs[i].position == p
}

pub open spec fn has_kind(foods: Seq<FoodItem>, kind: FoodKind) -> bool {
    exists|j: int| 0 <= j < foods.len() && (#[trigger] foods[j]).food.kind_spec() == kind
}

/// The number of food kinds that have no food on the arena.
pub open spec fn missing_kinds(foods: Seq<FoodItem>) -> nat {
    (if has_kind(foods, FoodKind::Green) {
        0nat
    } else {
        1nat
    }) + (if has_kind(foods, FoodKind::Red) {
        0nat
    } else {
        1nat
    }) + (if has_kind(foods, FoodKind::Blue) {
        0nat
    } else {
        1nat
    })
}

/// Foods lie in the arena, at most one of each kind, each on its own cell,
/// none on a segment.
pub open spec fn foods_wf(arena: Arena, segs: Seq<Segment>, foods: Seq<FoodItem>) -> bool {
    &&& forall|j: int|
        0 <= j < foods.len() ==> arena.contains((#[trigger] foods[j]).position) && foods[j].food.wf()
    &&& forall|j: int, k: int|
        0 <= j < foods.len() && 0 <= k < foods.len() && j != k ==> (#[trigger] foods[j]).food.kind_spec()
            != (#[trigger] foods[k]).food.kind_spec()
    &&& forall|j: int, k: int|
        0 <= j < foods.len() && 0 <= k < foods.len() && j != k ==> (#[trigger] foods[j]).position
            != (#[trigger] foods[k]).position
    &&& forall|j: int, i: int|
        0 <= j < foods.len() && 0 <= i < segs.len() ==> (#[trigger] foods[j]).position
            != (#[trigger] segs[i]).position
}

/// The index of the first food from `j` on, in list order, that lies under
/// some segment.
pub open spec fn first_eaten_from(segs: Seq<Segment>, foods: Seq<FoodItem>, j: int) -> Option<int>
    decreases foods.len() - j,
{
    if j < 0 || j >= foods.len() {
        None
    } else if lies_on(segs, foods[j].position) {
        Some(j)
    } else {
        first_eaten_from(segs, foods, j + 1)
    }
}

/// The index of the first food, in list order, that lies under some segment.
pub open spec fn first_eaten(segs: Seq<Segment>, foods: Seq<FoodItem>) -> Option<int> {
    first_eaten_from(segs, foods, 0)
}

/// The first food, in list order, that lies under some segment.
pub fn find_eaten_food(segs: &Vec<Segment>, foods: &Vec<FoodItem>) -> (r: Option<usize>)
    ensures
        r is None <==> first_eaten(segs@, foods@) is None,
        r matches Some(j) ==> first_eaten(segs@, foods@) == Some(j as int),
        match r {
            Some(j) => j < foods@.len() && lies_on(segs@, foods@[j as int].position) && forall|k: int|
                0 <= k < j ==> !lies_on(segs@, #[trigger] foods@[k].position),
            None => forall|k: int|
                0 <= k < foods@.len() ==> !lies_on(segs@, #[trigger] foods@[k].position),
        },
{
    let mut j: usize = 0;
    while j < foods.len()
        invariant
            j <= foods@.len(),
            forall|k: int| 0 <= k < j ==> !lies_on(segs@, #[trigger] foods@[k].position),
            first_eaten(segs@, foods@) == first_eaten_from(segs@, foods@, j as int),
        decreases foods@.len() - j,
    {
        let p = foods[j].position;
        let mut i: usize = 0;
        while i < segs.len()
            invariant
                i <= segs@.len(),
                j < foods@.len(),
                p == foods@[j as int].position,
                forall|k: int| 0 <= k < j ==> !lies_on(segs@, #[trigger] foods@[k].position),
                first_eaten(segs@, foods@) == first_eaten_from(segs@, foods@, j as int),
                forall|m: int| 0 <= m < i ==> segs@[m].position != p,
            decreases segs@.len() - i,
        {
            if segs[i].position == p {
                assert(segs@[i as int].position == p);
                return Some(j);
            }
            i = i + 1;
        }
        assert(!lies_on(segs@, foods@[j as int].position));
        j = j + 1;
    }
    None
}

/// The occupied cells: segment positions, then food positions.
pub fn occupied_cells(segs: &Vec<Segment>, foods: &Vec<FoodItem>) -> (r: Vec<GridPosition>)
    ensures
        r@ == occupied_spec(segs@, foods@),
{
    let mut r: Vec<GridPosition> = Vec::new();
    let mut i: usize = 0;
    while i < segs.len()
        invariant
            i <= segs@.len(),
            r@ == positions_of(segs@.take(i as int)),
        decreases segs@.len() - i,
    {
        r.push(segs[i].position);
        i = i + 1;
        assert(r@ =~= positions_of(segs@.take(i as int)));
    }
    assert(segs@.take(segs@.len() as int) =~= segs@);
    let mut j: usize = 0;
    while j < foods.len()
        invariant
            j <= foods@.len(),
            r@ == positions_of(segs@) + food_positions(foods@.take(j as int)),
        decreases foods@.len() - j,
    {
        r.push(foods[j].position);
        j = j + 1;
        assert(r@ =~= positions_of(segs@) + food_positions(foods@.take(j as int)));
    }
    assert(foods@.take(foods@.len() as int) =~= foods@);
    r
}

proof fn lemma_push_contains(s: Seq<GridPosition>, p: GridPosition, c: GridPosition)
    ensures
        s.push(p).contains(c) <==> s.contains(c) || c == p,
{
    if s.contains(c) {
        let i = choose|i: int| 0 <= i < s.len() && s[i] == c;
        assert(s.push(p)[i] == c);
    }
    if c == p {
        assert(s.push(p)[s.len() as int] == c);
    }
    if s.push(p).contains(c) {
        let i = choose|i: int| 0 <= i < s.push(p).len() && s.push(p)[i] == c;
        if i < s.len() {
            assert(s[i] == c);
        }
    }
}

proof fn lemma_free_before_push(arena: Arena, occ: Seq<GridPosition>, p: GridPosition, y: int, x: int)
    requires
        arena.wf(),
        is_free(arena, occ, p),
        0 <= y <= arena.height,
        0 <= x <= arena.width,
    ensures
        free_before(arena, occ.push(p), y, x) + (if p.y < y || (p.y == y && p.x < x) {
            1int
        } else {
            0int
        }) == free_before(arena, occ, y, x),
    decreases y, x,
{
    if y <= 0 && x <= 0 {
    } else if x <= 0 {
        lemma_free_before_push(arena, occ, p, y - 1, arena.width as int);
    } else {
        lemma_free_before_push(arena, occ, p, y, x - 1);
        let c = GridPosition { x: (x - 1) as u32, y: y as u32 };
        lemma_push_contains(occ, p, c);
    }
}

/// Taking a free cell leaves one free cell fewer.
pub proof fn lemma_free_count_push(arena: Arena, occ: Seq<GridPosition>, p: GridPosition)
    requires
        arena.wf(),
        is_free(arena, occ, p),
    ensures
        free_count(arena, occ.push(p)) + 1 == free_count(arena, occ),
{
    lemma_free_before_push(arena, occ, p, arena.height as int, 0);
}

pub(crate) proof fn lemma_occupied_members(segs: Seq<Segment>, foods: Seq<FoodItem>)
    ensures
        forall|i: int|
            0 <= i < segs.len() ==> occupied_spec(segs, foods).contains(#[trigger] segs[i].position),
        forall|j: int|
            0 <= j < foods.len() ==> occupied_spec(segs, foods).contains(#[trigger] foods[j].position),
{
    let occ = occupied_spec(segs, foods);
    assert forall|i: int| 0 <= i < segs.len() implies occ.contains(#[trigger] segs[i].position) by {
        assert(occ[i] == segs[i].position);
    }
    assert forall|j: int| 0 <= j < foods.len() implies occ.contains(#[trigger] foods[j].position) by {
        assert(occ[segs.len() + j] == foods[j].position);
    }
}

/// Places `food` on a random free cell if no food of its kind is on the
/// arena; `occupied` keeps listing segment and food cells.
fn spawn_if_missing(
    arena: &Arena,
    food: Food,
    segs: &Vec<Segment>,
    foods: &mut Vec<FoodItem>,
    occupied: &mut Vec<GridPosition>,
) -> (r: Result<(), SnakeError>)
    requires
        arena.wf(),
        food.wf(),
        foods_wf(*arena, segs@, old(foods)@),
        old(occupied)@ == occupied_spec(segs@, old(foods)@),
    ensures
        foods_wf(*arena, segs@, final(foods)@),
        final(occupied)@ == occupied_spec(segs@, final(foods)@),
        has_kind(old(foods)@, food.kind_spec()) ==> r is Ok && final(foods)@ == old(foods)@,
        !has_kind(old(foods)@, food.kind_spec()) ==> {
            &&& r is Ok <==> free_count(*arena, old(occupied)@) > 0
            &&& r is Err ==> r == Err::<(), SnakeError>(SnakeError::ArenaExhausted) && final(foods)@
                == old(foods)@
            &&& r is Ok ==> final(foods)@ == old(foods)@.push(final(foods)@.last())
                && final(foods)@.last().food == food && is_ranked_free(
                *arena,
                old(occupied)@,
                final(foods)@.last().position,
            ) && free_count(*arena, final(occupied)@) + 1 == free_count(*arena, old(occupied)@)
        },
{
    let kind = food.kind();
    let mut j: usize = 0;
    while j < foods.len()
        invariant
            j <= foods@.len(),
            foods@ == old(foods)@,
            occupied@ == old(occupied)@,
            foods_wf(*arena, segs@, old(foods)@),
            old(occupied)@ == occupied_spec(segs@, old(foods)@),
            kind == food.kind_spec(),
            forall|k: int| 0 <= k < j ==> (#[trigger] foods@[k]).food.kind_spec() != kind,
        decreases foods@.len() - j,
    {
        if foods[j].food.kind() == kind {
            assert(foods@[j as int].food.kind_spec() == kind);
            return Ok(());
        }
        j = j + 1;
    }
    let p = random_position_except(arena, occupied)?;
    let ghost occ0 = occupied@;
    let ghost foods0 = foods@;
    proof {
        let i = choose|i: nat| i < free_count(*arena, occ0) && #[trigger] is_nth_free(*arena, occ0, i, p);
        assert(is_free(*arena, occ0, p));
        lemma_free_count_push(*arena, occ0, p);
        lemma_occupied_members(segs@, foods0);
    }
    occupied.push(p);
    foods.push(FoodItem { food, position: p });
    proof {
        assert(foods@ =~= foods0.push(foods@.last()));
        assert(food_positions(foods@) =~= food_positions(foods0).push(p));
        assert(occupied@ =~= occupied_spec(segs@, foods@));
    }
    Ok(())
}

/// `after` is `before` followed by new foods, each of a kind missing from
/// `before`, taken from the menu, on a cell that was free.
pub open spec fn refilled(
    arena: Arena,
    menu: FoodMenu,
    segs: Seq<Segment>,
    before: Seq<FoodItem>,
    after: Seq<FoodItem>,
) -> bool {
    &&& after.len() >= before.len()
    &&& after.take(before.len() as int) == before
    &&& forall|j: int|
        before.len() <= j < after.len() ==> {
            &&& !has_kind(before, (#[trigger] after[j]).food.kind_spec())
            &&& after[j].food == menu.food_of(after[j].food.kind_spec())
            &&& !occupied_spec(segs, before).contains(after[j].position)
        }
}

/// Places the menu's food of every missing kind, Green, Red then Blue, each
/// on a random free cell. Succeeds exactly when there are at least as many
/// free cells as missing kinds.
pub fn spawn_missing_foods(
    arena: &Arena,
    menu: &FoodMenu,
    segs: &Vec<Segment>,
    foods: &mut Vec<FoodItem>,
) -> (r: Result<(), SnakeError>)
    requires
        arena.wf(),
        menu.wf(),
        foods_wf(*arena, segs@, old(foods)@),
    ensures
        foods_wf(*arena, segs@, final(foods)@),
        r is Ok <==> missing_kinds(old(foods)@) <= free_count(*arena, occupied_spec(segs@, old(foods)@)),
        r is Err ==> r == Err::<(), SnakeError>(SnakeError::ArenaExhausted),
        refilled(*arena, *menu, segs@, old(foods)@, final(foods)@),
        r is Ok ==> has_kind(final(foods)@, FoodKind::Green) && has_kind(final(foods)@, FoodKind::Red)
            && has_kind(final(foods)@, FoodKind::Blue),
{
    let ghost foods0 = foods@;
    let mut occupied = occupied_cells(segs, foods);
    let ghost occ0 = occupied@;
    let ghost missing0 = missing_kinds(foods0);
    let r1 = spawn_if_missing(arena, menu.green, segs, foods, &mut occupied);
    let ghost foods1 = foods@;
    let ghost occ1 = occupied@;
    proof {
        lemma_spawn_step(*arena, *menu, segs@, foods0, foods1, occ0, occ1, FoodKind::Green);
        lemma_occupied_prefix(segs@, foods0, foods1);
    }
    if r1.is_err() {
        return r1;
    }
    let r2 = spawn_if_missing(arena, menu.red, segs, foods, &mut occupied);
    let ghost foods2 = foods@;
    let ghost occ2 = occupied@;
    proof {
        lemma_spawn_step(*arena, *menu, segs@, foods1, foods2, occ1, occ2, FoodKind::Red);
        lemma_occupied_prefix(segs@, foods1, foods2);
        lemma_take_chain(foods0, foods1, foods2);
        lemma_occupied_prefix(segs@, foods0, foods2);
    }
    if r2.is_err() {
        return r2;
    }
    let r3 = spawn_if_missing(arena, menu.blue, segs, foods, &mut occupied);
    let ghost foods3 = foods@;
    let ghost occ3 = occupied@;
    proof {
        lemma_spawn_step(*arena, *menu, segs@, foods2, foods3, occ2, occ3, FoodKind::Blue);
        lemma_occupied_prefix(segs@, foods2, foods3);
        lemma_take_chain(foods0, foods2, foods3);
        lemma_occupied_prefix(segs@, foods0, foods3);
    }
    r3
}

/// Where the first eaten food is found, it lies under the chain; where none
/// is, no food does.
pub proof fn lemma_first_eaten(segs: Seq<Segment>, foods: Seq<FoodItem>, from: int)
    requires
        0 <= from,
    ensures
        first_eaten_from(segs, foods, from) matches Some(j) ==> from <= j < foods.len() && lies_on(
            segs,
            foods[j].position,
        ),
        first_eaten_from(segs, foods, from) is None ==> forall|k: int|
            from <= k < foods.len() ==> !lies_on(segs, #[trigger] foods[k].position),
    decreases foods.len() - from,
{
    if from < foods.len() && !lies_on(segs, foods[from].position) {
        lemma_first_eaten(segs, foods, from + 1);
    }
}

proof fn lemma_take_chain(a: Seq<FoodItem>, b: Seq<FoodItem>, c: Seq<FoodItem>)
    requires
        a.len() <= b.len() <= c.len(),
        b.take(a.len() as int) == a,
        c.take(b.len() as int) == b,
    ensures
        c.take(a.len() as int) == a,
{
    assert forall|i: int| 0 <= i < a.len() implies c[i] == a[i] by {
        assert(c.take(b.len() as int)[i] == c[i]);
        assert(b.take(a.len() as int)[i] == b[i]);
    }
    assert(c.take(a.len() as int) =~= a);
}

proof fn lemma_has_kind_push(foods: Seq<FoodItem>, item: FoodItem, kind: FoodKind)
    ensures
        has_kind(foods.push(item), kind) <==> has_kind(foods, kind) || item.food.kind_spec() == kind,
{
    let f2 = foods.push(item);
    if has_kind(foods, kind) {
        let j = choose|j: int| 0 <= j < foods.len() && (#[trigger] foods[j]).food.kind_spec() == kind;
        assert(f2[j] == foods[j]);
    }
    if item.food.kind_spec() == kind {
        assert(f2[foods.len() as int] == item);
    }
    if has_kind(f2, kind) {
        let j = choose|j: int| 0 <= j < f2.len() && (#[trigger] f2[j]).food.kind_spec() == kind;
        if j < foods.len() {
            assert(f2[j] == foods[j]);
        }
    }
}

/// When `later` extends `earlier`, every cell occupied before still is.
proof fn lemma_occupied_prefix(segs: Seq<Segment>, earlier: Seq<FoodItem>, later: Seq<FoodItem>)
    requires
        earlier.len() <= later.len(),
        later.take(earlier.len() as int) == earlier,
    ensures
        forall|c: GridPosition|
            occupied_spec(segs, earlier).contains(c) ==> #[trigger] occupied_spec(segs, later).contains(c),
{
    assert forall|c: GridPosition|
        occupied_spec(segs, earlier).contains(c) implies #[trigger] occupied_spec(segs, later).contains(c) by {
        let occ = occupied_spec(segs, earlier);
        let i = choose|i: int| 0 <= i < occ.len() && occ[i] == c;
        if i >= segs.len() {
            assert(later[i - segs.len()] == earlier[i - segs.len()]);
        }
        assert(occupied_spec(segs, later)[i] == c);
    }
}

/// What one call of `spawn_if_missing` for the menu's food of `kind` does to
/// the kinds that are missing and to the free cells.
proof fn lemma_spawn_step(
    arena: Arena,
    menu: FoodMenu,
    segs: Seq<Segment>,
    before: Seq<FoodItem>,
    after: Seq<FoodItem>,
    occ_before: Seq<GridPosition>,
    occ_after: Seq<GridPosition>,
    kind: FoodKind,
)
    requires
        menu.wf(),
        occ_before == occupied_spec(segs, before),
        has_kind(before, kind) ==> after == before,
        !has_kind(before, kind) && after != before ==> after == before.push(after.last())
            && after.last().food == menu.food_of(kind) && free_count(arena, occ_after) + 1 == free_count(
            arena,
            occ_before,
        ),
        after == before ==> occ_after == occ_before,
    ensures
        after.len() >= before.len(),
        after.take(before.len() as int) == before,
        forall|k: FoodKind|
            k != kind ==> (#[trigger] has_kind(after, k) <==> has_kind(before, k)),
        after != before ==> has_kind(after, kind) && !has_kind(before, kind),
        after != before ==> missing_kinds(after) + 1 == missing_kinds(before),
        after == before ==> missing_kinds(after) == missing_kinds(before),
{
    if after != before {
        assert(after.take(before.len() as int) =~= before);
        assert forall|k: FoodKind| true implies #[trigger] has_kind(after, k) <==> has_kind(before, k)
            || after.last().food.kind_spec() == k by {
            lemma_has_kind_push(before, after.last(), k);
        }
    } else {
        assert(after.take(before.len() as int) =~= before);
    }
}

} // verus!

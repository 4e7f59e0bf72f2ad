//! The snake: a chain of segments led by the head.
//!
//! Segments are kept in a vector ordered from the head to the tail. A
//! segment's `id` is its index, and every segment but the head `follows` the
//! segment just before it: on each step it takes that segment's position from
//! before the step.
use vstd::prelude::*;

use crate::grid::{Arena, GridPosition, SnakeDirection};

verus! {

/// One part of the snake.
#[derive(Debug, Clone, Copy, PartialEq, Eq, Structural)]
pub struct Segment {
    pub id: usize,
    pub position: GridPosition,
    /// The segment whose previous position this one takes; `None` for the head.
    pub follows: Option<usize>,
}

/// Errors of the snake simulation.
#[derive(Debug, Clone, Copy, PartialEq, Eq, Structural)]
pub enum SnakeError {
    /// A snake must have at least one segment.
    ConfigurationError,
    /// No free cell is left for a food.
    ArenaExhausted,
}

/// The `follows` links form one simple chain: the first segment is the head,
/// and each other segment follows the one before it.
pub open spec fn chain_wf(segs: Seq<Segment>) -> bool {
    &&& segs.len() >= 1
    &&& forall|i: int| 0 <= i < segs.len() ==> (#[trigger] segs[i]).id == i
    &&& segs[0].follows is None
    &&& forall|i: int| 1 <= i < segs.len() ==> (#[trigger] segs[i]).follows == Some((i - 1) as usize)
}

/// Segment `h` is the only one that follows nothing.
pub open spec fn is_sole_head(segs: Seq<Segment>, h: int) -> bool {
    &&& 0 <= h < segs.len()
    &&& forall|i: int| 0 <= i < segs.len() ==> ((#[trigger] segs[i]).follows is None <==> i == h)
}

/// Exactly one segment is a head (follows nothing).
pub open spec fn has_single_head(segs: Seq<Segment>) -> bool {
    exists|h: int| is_sole_head(segs, h)
}

/// Every `follows` link names a segment that exists and was created earlier,
/// so following links from any segment reaches the head without a cycle.
pub open spec fn links_descend(segs: Seq<Segment>) -> bool {
    forall|i: int|
        0 <= i < segs.len() && (#[trigger] segs[i]).follows is Some ==> {
            let j = segs[i].follows->0 as int;
            0 <= j < i && segs[j].id == j
        }
}

/// No segment is followed by two others.
pub open spec fn no_branching(segs: Seq<Segment>) -> bool {
    forall|i: int, j: int|
        0 <= i < segs.len() && 0 <= j < segs.len() && (#[trigger] segs[i]).follows is Some
            && segs[i].follows == (#[trigger] segs[j]).follows ==> i == j
}

/// The segment that no other segment follows.
pub open spec fn is_tail(segs: Seq<Segment>, t: int) -> bool {
    &&& 0 <= t < segs.len()
    &&& forall|i: int| 0 <= i < segs.len() ==> (#[trigger] segs[i]).follows != Some(t as usize)
}

/// A well-formed chain has one head, no cycle, no branching, and its tail is
/// its last segment, which is the only one that nothing follows.
pub proof fn lemma_chain_shape(segs: Seq<Segment>)
    requires
        chain_wf(segs),
    ensures
        has_single_head(segs),
        links_descend(segs),
        no_branching(segs),
        is_tail(segs, segs.len() - 1),
        forall|t: int| is_tail(segs, t) ==> t == segs.len() - 1,
{
    assert(is_sole_head(segs, 0));
    assert(segs[segs.len() - 1].id == segs.len() - 1);
    assert forall|i: int| 0 <= i < segs.len() implies (#[trigger] segs[i]).follows != Some(
        (segs.len() - 1) as usize,
    ) by {
        if i > 0 {
            assert(segs[i].follows == Some((i - 1) as usize));
            assert((i - 1) as usize != (segs.len() - 1) as usize);
        }
    }
    assert forall|t: int| is_tail(segs, t) implies t == segs.len() - 1 by {
        if t < segs.len() - 1 {
            assert(segs[t + 1].follows == Some(t as usize));
        }
    }
}

/// The positions of the segments, head first.
pub open spec fn positions_of(segs: Seq<Segment>) -> Seq<GridPosition> {
    segs.map_values(|s: Segment| s.position)
}

/// The chain after one step in direction `d`: the head moves one cell, every
/// other segment takes its leader's position from before the step.
pub open spec fn stepped(arena: Arena, segs: Seq<Segment>, d: SnakeDirection) -> Seq<Segment> {
    Seq::new(
        segs.len(),
        |i: int|
            if i == 0 {
                Segment { position: arena.step_spec(segs[0].position, d), ..segs[0] }
            } else {
                Segment { position: segs[i - 1].position, ..segs[i] }
            },
    )
}

/// The chain after `amount` new segments join at its tail, each on the tail's
/// cell and each following the one before it.
pub open spec fn grown(segs: Seq<Segment>, amount: nat) -> Seq<Segment> {
    Seq::new(
        segs.len() + amount,
        |i: int|
            if i < segs.len() {
                segs[i]
            } else {
                Segment {
                    id: i as usize,
                    position: segs.last().position,
                    follows: Some((i - 1) as usize),
                }
            },
    )
}

/// The head shares its cell with another segment.
pub open spec fn collides_spec(segs: Seq<Segment>) -> bool {
    exists|i: int| 1 <= i < segs.len() && #[trigger] segs[i].position == segs[0].position
}

/// The chain of a fresh snake: `length` segments, all on `position`.
pub open spec fn spawned(position: GridPosition, length: nat) -> Seq<Segment> {
    Seq::new(
        length,
        |i: int|
            Segment {
                id: i as usize,
                position,
                follows: if i == 0 {
                    None
                } else {
                    Some((i - 1) as usize)
                },
            },
    )
}

/// The index of the segment that no other segment follows.
pub fn find_tail_segment(segs: &Vec<Segment>) -> (r: usize)
    requires
        chain_wf(segs@),
    ensures
        is_tail(segs@, r as int),
        r == segs@.len() - 1,
{
    let n = segs.len();
    let mut referenced: Vec<bool> = Vec::new();
    let mut k: usize = 0;
    while k < n
        invariant
            k <= n,
            n == segs@.len(),
            referenced@.len() == k,
            forall|j: int| 0 <= j < k ==> !(#[trigger] referenced@[j]),
        decreases n - k,
    {
        referenced.push(false);
        k = k + 1;
    }
    let mut i: usize = 0;
    while i < n
        invariant
            i <= n,
            n == segs@.len(),
            chain_wf(segs@),
            referenced@.len() == n,
            forall|j: int|
                0 <= j < n ==> (#[trigger] referenced@[j] <==> exists|m: int|
                    0 <= m < i && segs@[m].follows == Some(j as usize)),
        decreases n - i,
    {
        match segs[i].follows {
            Some(f) => {
                assert(segs@[i as int].follows == Some(f));
                referenced.set(f, true);
                assert forall|j: int| 0 <= j < n implies (#[trigger] referenced@[j] <==> exists|m: int|
                    0 <= m < i + 1 && segs@[m].follows == Some(j as usize)) by {
                    if j == f {
                        assert(segs@[i as int].follows == Some(j as usize));
                    } else if referenced@[j] {
                        let m = choose|m: int| 0 <= m < i && segs@[m].follows == Some(j as usize);
                        assert(0 <= m < i + 1 && segs@[m].follows == Some(j as usize));
                    }
                }
            },
            None => {
                assert forall|j: int| 0 <= j < n implies (#[trigger] referenced@[j] <==> exists|m: int|
                    0 <= m < i + 1 && segs@[m].follows == Some(j as usize)) by {
                    if referenced@[j] {
                        let m = choose|m: int| 0 <= m < i && segs@[m].follows == Some(j as usize);
                        assert(0 <= m < i + 1 && segs@[m].follows == Some(j as usize));
                    }
                }
            },
        }
        i = i + 1;
    }
    proof {
        lemma_chain_shape(segs@);
        assert forall|j: int| 0 <= j < n - 1 implies #[trigger] referenced@[j] by {
            assert(segs@[j + 1].follows == Some(j as usize));
        }
        assert(!referenced@[n - 1]);
    }
    let mut t: usize = 0;
    while t < n
        invariant
            t <= n,
            n == segs@.len(),
            n >= 1,
            referenced@.len() == n,
            forall|j: int| 0 <= j < t ==> #[trigger] referenced@[j],
            forall|j: int| 0 <= j < n - 1 ==> #[trigger] referenced@[j],
            !referenced@[n - 1],
            is_tail(segs@, n - 1),
        decreases n - t,
    {
        if !referenced[t] {
            return t;
        }
        t = t + 1;
    }
    n - 1
}

/// The snake: the direction its head faces and its segments, head first.
#[derive(Debug, Clone)]
pub struct SnakeChain {
    pub facing: SnakeDirection,
    pub segments: Vec<Segment>,
}

impl SnakeChain {
    pub open spec fn wf(&self) -> bool {
        chain_wf(self.segments@)
    }

    /// A snake of `length` segments, all on `position`, the head facing
    /// `facing`; they draw apart as the head moves away.
    pub fn spawn(position: GridPosition, facing: SnakeDirection, length: u32) -> (r: Result<
        SnakeChain,
        SnakeError,
    >)
        ensures
            r is Err <==> length == 0,
            r is Err ==> r == Err::<SnakeChain, SnakeError>(SnakeError::ConfigurationError),
            r matches Ok(c) ==> c.wf() && c.facing == facing && c.segments@ == spawned(
                position,
                length as nat,
            ),
    {
        if length == 0 {
            return Err(SnakeError::ConfigurationError);
        }
        let n = length as usize;
        let mut segments: Vec<Segment> = Vec::new();
        segments.push(Segment { id: 0, position, follows: None });
        let mut i: usize = 1;
        while i < n
            invariant
                1 <= i <= n,
                n == length,
                segments@.len() == i,
                forall|j: int| 0 <= j < i ==> #[trigger] segments@[j] == spawned(position, length as nat)[j],
            decreases n - i,
        {
            segments.push(Segment { id: i, position, follows: Some(i - 1) });
            i = i + 1;
        }
        assert(segments@ =~= spawned(position, length as nat));
        Ok(SnakeChain { facing, segments })
    }

    pub fn len(&self) -> (r: usize)
        ensures
            r == self.segments@.len(),
    {
        self.segments.len()
    }

    pub fn head_position(&self) -> (r: GridPosition)
        requires
            self.wf(),
        ensures
            r == self.segments@[0].position,
    {
        self.segments[0].position
    }

    /// The segments' positions, head first.
    pub fn positions(&self) -> (r: Vec<GridPosition>)
        ensures
            r@ == positions_of(self.segments@),
    {
        let n = self.segments.len();
        let mut r: Vec<GridPosition> = Vec::new();
        let mut i: usize = 0;
        while i < n
            invariant
                i <= n,
                n == self.segments@.len(),
                r@.len() == i,
                forall|j: int| 0 <= j < i ==> #[trigger] r@[j] == self.segments@[j].position,
            decreases n - i,
        {
            r.push(self.segments[i].position);
            i = i + 1;
        }
        assert(r@ =~= positions_of(self.segments@));
        r
    }

    /// Moves the snake one cell in `direction`.
    ///
    /// All leaders' positions are read from a snapshot taken before anything
    /// moves, so each body segment lands where its leader was.
    pub fn step(&mut self, arena: &Arena, direction: SnakeDirection)
        requires
            old(self).wf(),
            arena.wf(),
        ensures
            final(self).wf(),
            final(self).facing == direction,
            final(self).segments@ == stepped(*arena, old(self).segments@, direction),
            final(self).segments@.len() == old(self).segments@.len(),
    {
        let snapshot = self.positions();
        let n = self.segments.len();
        let head = self.segments[0];
        let moved = Segment {
            id: head.id,
            position: arena.step(&head.position, direction),
            follows: head.follows,
        };
        self.segments.set(0, moved);
        self.facing = direction;
        let ghost before = old(self).segments@;
        let ghost target = stepped(*arena, before, direction);
        let mut i: usize = 1;
        while i < n
            invariant
                1 <= i <= n,
                n == before.len(),
                chain_wf(before),
                snapshot@ == positions_of(before),
                self.facing == direction,
                self.segments@.len() == n,
                target == stepped(*arena, before, direction),
                forall|j: int| 0 <= j < i ==> #[trigger] self.segments@[j] == target[j],
                forall|j: int| i <= j < n ==> #[trigger] self.segments@[j] == before[j],
            decreases n - i,
        {
            let seg = self.segments[i];
            assert(seg.follows == Some((i - 1) as usize));
            if let Some(leader) = seg.follows {
                let position = snapshot[leader];
                self.segments.set(i, Segment { id: seg.id, position, follows: seg.follows });
            }
            i = i + 1;
        }
        assert(self.segments@ =~= target);
    }

    /// Adds `amount` segments behind the tail, each on the tail's cell.
    pub fn grow(&mut self, amount: u32)
        requires
            old(self).wf(),
            old(self).segments@.len() + amount <= usize::MAX,
        ensures
            final(self).wf(),
            final(self).facing == old(self).facing,
            final(self).segments@ == grown(old(self).segments@, amount as nat),
            final(self).segments@.len() == old(self).segments@.len() + amount,
    {
        let tail = find_tail_segment(&self.segments);
        let tail_position = self.segments[tail].position;
        let ghost before = old(self).segments@;
        let ghost target = grown(before, amount as nat);
        let mut leader: usize = tail;
        let mut k: u32 = 0;
        while k < amount
            invariant
                k <= amount,
                before.len() >= 1,
                self.facing == old(self).facing,
                before.len() + amount <= usize::MAX,
                tail_position == before.last().position,
                target == grown(before, amount as nat),
                self.segments@.len() == before.len() + k,
                leader == self.segments@.len() - 1,
                forall|j: int| 0 <= j < self.segments@.len() ==> #[trigger] self.segments@[j] == target[j],
            decreases amount - k,
        {
            let id = self.segments.len();
            self.segments.push(Segment { id, position: tail_position, follows: Some(leader) });
            leader = id;
            k = k + 1;
        }
        assert(self.segments@ =~= target);
    }

    /// Whether the head shares its cell with any other segment.
    pub fn self_collides(&self) -> (r: bool)
        requires
            self.wf(),
        ensures
            r == collides_spec(self.segments@),
    {
        let head = self.segments[0].position;
        let n = self.segments.len();
        let mut i: usize = 1;
        while i < n
            invariant
                1 <= i <= n,
                n == self.segments@.len(),
                head == self.segments@[0].position,
                forall|j: int| 1 <= j < i ==> (#[trigger] self.segments@[j]).position != head,
            decreases n - i,
        {
            if self.segments[i].position == head {
                return true;
            }
            i = i + 1;
        }
        false
    }
}

/// Growing by `amount` adds exactly `amount` segments, all on the cell the
/// tail held before, and leaves the earlier segments as they were.
pub proof fn lemma_growth(segs: Seq<Segment>, amount: nat)
    requires
        chain_wf(segs),
    ensures
        grown(segs, amount).len() == segs.len() + amount,
        grown(segs, amount).subrange(0, segs.len() as int) == segs,
        forall|i: int|
            segs.len() <= i < segs.len() + amount ==> (#[trigger] grown(segs, amount)[i]).position
                == segs.last().position,
{
    assert(grown(segs, amount).subrange(0, segs.len() as int) =~= segs);
}

/// A step changes no segment count, id or link; only positions move.
pub proof fn lemma_step_keeps_links(arena: Arena, segs: Seq<Segment>, d: SnakeDirection)
    requires
        chain_wf(segs),
    ensures
        stepped(arena, segs, d).len() == segs.len(),
        chain_wf(stepped(arena, segs, d)),
        forall|i: int|
            0 <= i < segs.len() ==> (#[trigger] stepped(arena, segs, d)[i]).id == segs[i].id
                && stepped(arena, segs, d)[i].follows == segs[i].follows,
{
}

/// Growing keeps the chain well formed.
pub proof fn lemma_grown_wf(segs: Seq<Segment>, amount: nat)
    requires
        chain_wf(segs),
        segs.len() + amount <= usize::MAX + 1,
    ensures
        chain_wf(grown(segs, amount)),
{
    let g = grown(segs, amount);
    assert forall|i: int| 1 <= i < g.len() implies (#[trigger] g[i]).follows == Some((i - 1) as usize) by {
        if i < segs.len() {
            assert(g[i] == segs[i]);
        }
    }
}

/// An operation on the chain.
pub enum ChainOp {
    /// One step in a direction.
    Step(SnakeDirection),
    /// New segments at the tail.
    Grow(nat),
}

/// The chain after the operations `ops`, in order.
pub open spec fn after_ops(arena: Arena, segs: Seq<Segment>, ops: Seq<ChainOp>) -> Seq<Segment>
    decreases ops.len(),
{
    if ops.len() == 0 {
        segs
    } else {
        let next = match ops[0] {
            ChainOp::Step(d) => stepped(arena, segs, d),
            ChainOp::Grow(n) => grown(segs, n),
        };
        after_ops(arena, next, ops.drop_first())
    }
}

/// The segments that the operations `ops` add.
pub open spec fn total_growth(ops: Seq<ChainOp>) -> nat
    decreases ops.len(),
{
    if ops.len() == 0 {
        0
    } else {
        (match ops[0] {
            ChainOp::Step(_) => 0nat,
            ChainOp::Grow(n) => n,
        }) + total_growth(ops.drop_first())
    }
}

/// After any sequence of steps and growths the chain still has exactly one
/// head, no cycle and no branching, and its length has changed by the
/// growth alone.
pub proof fn lemma_chain_invariant(arena: Arena, segs: Seq<Segment>, ops: Seq<ChainOp>)
    requires
        chain_wf(segs),
        segs.len() + total_growth(ops) <= usize::MAX + 1,
    ensures
        chain_wf(after_ops(arena, segs, ops)),
        has_single_head(after_ops(arena, segs, ops)),
        links_descend(after_ops(arena, segs, ops)),
        no_branching(after_ops(arena, segs, ops)),
        after_ops(arena, segs, ops).len() == segs.len() + total_growth(ops),
    decreases ops.len(),
{
    if ops.len() == 0 {
        lemma_chain_shape(segs);
    } else {
        let next = match ops[0] {
            ChainOp::Step(d) => stepped(arena, segs, d),
            ChainOp::Grow(n) => grown(segs, n),
        };
        match ops[0] {
            ChainOp::Step(d) => {
                lemma_step_keeps_links(arena, segs, d);
            },
            ChainOp::Grow(n) => {
                lemma_grown_wf(segs, n);
            },
        }
        lemma_chain_invariant(arena, next, ops.drop_first());
    }
}

} // verus!

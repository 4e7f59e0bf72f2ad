//! One game of snake: its phases, and what happens on each frame.
//!
//! Per frame the host passes the keys pressed and the time elapsed. Waiting
//! phases look at the keys first; then, while playing, the frame buffers
//! input, ticks the clock and, when a step is due, moves the snake, checks it
//! against itself, lets it eat, refills food and, on a self-collision, ends
//! the game.
use vstd::prelude::*;

use crate::chain::{chain_wf, collides_spec, grown, spawned, stepped, Segment, SnakeChain, SnakeError};
use crate::clock::{scaled_duration, step_due, ticked_elapsed, GameTimer};
use crate::feeding::{
    find_eaten_food, first_eaten, foods_wf, lies_on, missing_kinds, occupied_spec,
    spawn_missing_foods, has_kind, refilled,
};
use crate::food::{AudioCue, FoodItem, FoodKind, FoodMenu};
use crate::grid::{lemma_step_inverse, Arena, GridPosition, SnakeDirection};
use crate::input::{chosen_direction, first_pressed, first_pressed_spec, DirectionAccumulator, KeyPresses};
use crate::spawner::free_count;

verus! {

/// The phases of a game. `Win` and `ExitModal` exist but nothing enters them.
#[derive(Debug, Clone, Copy, PartialEq, Eq, Structural, Hash, Default)]
pub enum SnakeGameState {
    #[default]
    NotStarted,
    WaitPlayer,
    Playing,
    GameOver,
    Win,
    ExitModal,
}

/// The fixed parameters of a game.
#[derive(Debug, Clone, Copy, PartialEq, Eq, Structural)]
pub struct SnakeConfig {
    pub arena: Arena,
    pub start_position: GridPosition,
    pub start_facing: SnakeDirection,
    pub start_length: u32,
    /// Base time between steps, in nanoseconds.
    pub step_duration: u64,
    pub menu: FoodMenu,
}

impl SnakeConfig {
    pub open spec fn wf(self) -> bool {
        &&& self.arena.wf()
        &&& self.arena.contains(self.start_position)
        &&& self.menu.wf()
        &&& self.start_length + self.menu.green.effect_spec().growth
            + self.menu.red.effect_spec().growth <= usize::MAX
    }

    /// A 13 by 13 arena, a snake of two segments in the middle cell facing
    /// left, one step every 0.4 s, and the standard foods.
    pub fn standard() -> (r: SnakeConfig)
        ensures
            r.wf(),
            r.arena == (Arena { width: 13, height: 13 }),
            r.start_position == (GridPosition { x: 6, y: 6 }),
            r.start_facing == SnakeDirection::Left,
            r.start_length == 2,
            r.step_duration == 400_000_000,
            r.menu == FoodMenu::standard_spec(),
    {
        SnakeConfig {
            arena: Arena::new(13, 13),
            start_position: GridPosition { x: 6, y: 6 },
            start_facing: SnakeDirection::Left,
            start_length: 2,
            step_duration: 400_000_000,
            menu: FoodMenu::standard(),
        }
    }
}

/// What happened during one frame.
#[derive(Debug, Clone, Copy, PartialEq, Eq, Structural)]
pub struct FrameReport {
    /// The snake moved one step.
    pub moved: bool,
    /// After the move the head lies on another segment.
    pub collided: bool,
    /// The kind of food eaten, if any.
    pub eaten: Option<FoodKind>,
    /// The sound to play for the food eaten.
    pub cue: Option<AudioCue>,
}

impl FrameReport {
    pub open spec fn is_idle(self) -> bool {
        !self.moved && !self.collided && self.eaten is None && self.cue is None
    }

    pub fn idle() -> (r: FrameReport)
        ensures
            r.is_idle(),
    {
        FrameReport { moved: false, collided: false, eaten: None, cue: None }
    }
}

/// Every food is the menu's food of its kind.
pub open spec fn foods_from_menu(menu: FoodMenu, foods: Seq<FoodItem>) -> bool {
    forall|j: int|
        0 <= j < foods.len() ==> (#[trigger] foods[j]).food == menu.food_of(foods[j].food.kind_spec())
}

/// Every segment lies in the arena.
pub open spec fn chain_in_arena(arena: Arena, segs: Seq<Segment>) -> bool {
    forall|i: int| 0 <= i < segs.len() ==> arena.contains(#[trigger] segs[i].position)
}

/// The chain after one step in `d` and the growth from the food reached.
pub open spec fn segments_after_step(
    arena: Arena,
    segs: Seq<Segment>,
    foods: Seq<FoodItem>,
    d: SnakeDirection,
) -> Seq<Segment> {
    let moved = stepped(arena, segs, d);
    match first_eaten(moved, foods) {
        Some(j) => grown(moved, foods[j].food.effect_spec().growth as nat),
        None => moved,
    }
}

/// The foods after one step in `d`: the one reached is gone.
pub open spec fn foods_after_step(
    arena: Arena,
    segs: Seq<Segment>,
    foods: Seq<FoodItem>,
    d: SnakeDirection,
) -> Seq<FoodItem> {
    match first_eaten(stepped(arena, segs, d), foods) {
        Some(j) => foods.remove(j),
        None => foods,
    }
}

/// The step duration after one step in `d`: the food reached may apply its
/// multiplier to it.
pub open spec fn duration_after_step(
    arena: Arena,
    segs: Seq<Segment>,
    foods: Seq<FoodItem>,
    d: SnakeDirection,
    duration: u64,
) -> u64 {
    match first_eaten(stepped(arena, segs, d), foods) {
        Some(j) => match foods[j].food.effect_spec().speed_multiplier {
            Some(m) => scaled_duration(duration, m),
            None => duration,
        },
        None => duration,
    }
}

/// The kind of the food reached by a step in `d`.
pub open spec fn eaten_after_step(
    arena: Arena,
    segs: Seq<Segment>,
    foods: Seq<FoodItem>,
    d: SnakeDirection,
) -> Option<FoodKind> {
    match first_eaten(stepped(arena, segs, d), foods) {
        Some(j) => Some(foods[j].food.kind_spec()),
        None => None,
    }
}

/// The sound for the food reached by a step in `d`.
pub open spec fn cue_after_step(
    arena: Arena,
    segs: Seq<Segment>,
    foods: Seq<FoodItem>,
    d: SnakeDirection,
) -> Option<AudioCue> {
    match first_eaten(stepped(arena, segs, d), foods) {
        Some(j) => Some(foods[j].food.effect_spec().cue),
        None => None,
    }
}

/// One step keeps the chain in the arena, and once the food reached is gone
/// no food lies under the chain.
proof fn lemma_step_keeps_foods(
    arena: Arena,
    segs: Seq<Segment>,
    foods: Seq<FoodItem>,
    d: SnakeDirection,
)
    requires
        arena.wf(),
        chain_wf(segs),
        chain_in_arena(arena, segs),
        foods_wf(arena, segs, foods),
    ensures
        chain_wf(stepped(arena, segs, d)),
        chain_in_arena(arena, stepped(arena, segs, d)),
        foods_wf(arena, stepped(arena, segs, d), foods_after_step(arena, segs, foods, d)),
{
    let moved = stepped(arena, segs, d);
    lemma_step_inverse(arena, segs[0].position, d);
    crate::feeding::lemma_first_eaten(moved, foods, 0);
    assert(chain_in_arena(arena, moved));
    // Only the head can lie on a food: every other segment took a cell of
    // the chain before the step.
    assert forall|k: int, i: int|
        0 <= k < foods.len() && 1 <= i < moved.len() implies (#[trigger] foods[k]).position != (
        #[trigger] moved[i]).position by {
        assert(moved[i].position == segs[i - 1].position);
    }
    match first_eaten(moved, foods) {
        Some(j) => {
            let rest = foods.remove(j);
            assert forall|k: int, i: int|
                0 <= k < rest.len() && 0 <= i < moved.len() implies (#[trigger] rest[k]).position != (
                #[trigger] moved[i]).position by {
                let k2 = if k < j {
                    k
                } else {
                    k + 1
                };
                assert(rest[k] == foods[k2]);
                if i == 0 {
                    let i2 = choose|i2: int|
                        0 <= i2 < moved.len() && #[trigger] moved[i2].position == foods[j].position;
                    if i2 > 0 {
                        assert(foods[j].position != moved[i2].position);
                    }
                    assert(foods[j].position != foods[k2].position);
                } else {
                    assert(foods[k2].position != moved[i].position);
                }
            }
            assert forall|k: int| 0 <= k < rest.len() implies arena.contains(
                (#[trigger] rest[k]).position,
            ) && rest[k].food.wf() by {
                let k2 = if k < j {
                    k
                } else {
                    k + 1
                };
                assert(rest[k] == foods[k2]);
            }
            assert forall|k: int, m: int|
                0 <= k < rest.len() && 0 <= m < rest.len() && k != m implies (
                #[trigger] rest[k]).food.kind_spec() != (#[trigger] rest[m]).food.kind_spec()
                && rest[k].position != rest[m].position by {
                let k2 = if k < j {
                    k
                } else {
                    k + 1
                };
                let m2 = if m < j {
                    m
                } else {
                    m + 1
                };
                assert(rest[k] == foods[k2]);
                assert(rest[m] == foods[m2]);
            }
        },
        None => {
            assert forall|k: int, i: int|
                0 <= k < foods.len() && 0 <= i < moved.len() implies (#[trigger] foods[k]).position != (
                #[trigger] moved[i]).position by {
                assert(!lies_on(moved, foods[k].position));
            }
        },
    }
}

/// New segments on the tail's cell keep the chain in the arena and off the
/// foods.
proof fn lemma_grow_keeps_foods(
    arena: Arena,
    segs: Seq<Segment>,
    foods: Seq<FoodItem>,
    amount: nat,
)
    requires
        segs.len() >= 1,
        chain_in_arena(arena, segs),
        foods_wf(arena, segs, foods),
    ensures
        chain_in_arena(arena, grown(segs, amount)),
        foods_wf(arena, grown(segs, amount), foods),
{
    let g = grown(segs, amount);
    assert(g[segs.len() - 1] == segs.last());
    assert forall|k: int, i: int|
        0 <= k < foods.len() && 0 <= i < g.len() implies (#[trigger] foods[k]).position != (
        #[trigger] g[i]).position by {
        if i >= segs.len() {
            assert(g[i].position == segs[segs.len() - 1].position);
        } else {
            assert(g[i] == segs[i]);
        }
    }
    assert forall|i: int| 0 <= i < g.len() implies arena.contains(#[trigger] g[i].position) by {
        if i >= segs.len() {
            assert(g[i].position == segs[segs.len() - 1].position);
        } else {
            assert(g[i] == segs[i]);
        }
    }
}

/// What a game is, seen as plain values.
pub struct GameView {
    pub config: SnakeConfig,
    pub phase: SnakeGameState,
    /// The buffered direction of the next move.
    pub direction: SnakeDirection,
    pub timer: GameTimer,
    pub has_snake: bool,
    pub facing: SnakeDirection,
    pub segments: Seq<Segment>,
    pub foods: Seq<FoodItem>,
}

/// The direction the next step takes after this frame's keys are buffered.
pub open spec fn next_direction(v: GameView, keys: KeyPresses) -> SnakeDirection {
    match chosen_direction(v.facing, keys) {
        Some(d) => d,
        None => v.direction,
    }
}

/// The direction chosen while waiting: the first key pressed, else Left.
pub open spec fn waiting_direction(keys: KeyPresses) -> SnakeDirection {
    match first_pressed_spec(keys) {
        Some(d) => d,
        None => SnakeDirection::Left,
    }
}

/// The clock with its base duration back and no gathered time.
pub open spec fn timer_restarted(t: GameTimer) -> GameTimer {
    GameTimer { base_duration: t.base_duration, duration: t.base_duration, elapsed: 0 }
}

/// The game after the keys of a frame spent waiting for the first move:
/// any arrow key starts play with a fresh clock.
pub open spec fn after_wait(v: GameView, keys: KeyPresses) -> GameView {
    if keys.any_spec() {
        GameView {
            direction: waiting_direction(keys),
            phase: SnakeGameState::Playing,
            timer: timer_restarted(v.timer),
            ..v
        }
    } else {
        GameView { direction: waiting_direction(keys), ..v }
    }
}

/// The game after the keys of a frame spent on the game-over screen: any
/// arrow key clears the arena, puts a fresh snake at the start facing that
/// key's direction, and starts play with a fresh clock.
pub open spec fn after_restart_wait(v: GameView, keys: KeyPresses) -> GameView {
    if keys.any_spec() {
        GameView {
            direction: waiting_direction(keys),
            phase: SnakeGameState::Playing,
            timer: timer_restarted(v.timer),
            has_snake: true,
            facing: waiting_direction(keys),
            segments: spawned(v.config.start_position, v.config.start_length as nat),
            foods: Seq::empty(),
            ..v
        }
    } else {
        GameView { direction: waiting_direction(keys), ..v }
    }
}

/// One frame of play from `v0` to `v1`: input is buffered, the clock ticks,
/// a due step moves the snake and lets it eat, missing foods are refilled,
/// and a self-collision ends the game.
pub open spec fn played(
    v0: GameView,
    v1: GameView,
    keys: KeyPresses,
    delta: u64,
    r: Result<FrameReport, SnakeError>,
) -> bool {
    let arena = v0.config.arena;
    let d = next_direction(v0, keys);
    let due = step_due(v0.timer.elapsed, v0.timer.duration, delta);
    let segs1 = if due {
        segments_after_step(arena, v0.segments, v0.foods, d)
    } else {
        v0.segments
    };
    let foods1 = if due {
        foods_after_step(arena, v0.segments, v0.foods, d)
    } else {
        v0.foods
    };
    let collided = due && collides_spec(stepped(arena, v0.segments, d));
    &&& v1.config == v0.config
    &&& v1.direction == d
    &&& v1.timer.base_duration == v0.timer.base_duration
    &&& v1.timer.elapsed == ticked_elapsed(v0.timer.elapsed, v0.timer.duration, delta)
    &&& v1.timer.duration == if due {
        duration_after_step(arena, v0.segments, v0.foods, d, v0.timer.duration)
    } else {
        v0.timer.duration
    }
    &&& v1.has_snake
    &&& v1.segments == segs1
    &&& v1.facing == if due {
        d
    } else {
        v0.facing
    }
    &&& v1.phase == if collided {
        SnakeGameState::GameOver
    } else {
        SnakeGameState::Playing
    }
    &&& refilled(arena, v0.config.menu, segs1, foods1, v1.foods)
    &&& (r is Ok <==> missing_kinds(foods1) <= free_count(arena, occupied_spec(segs1, foods1)))
    &&& r is Err ==> r == Err::<FrameReport, SnakeError>(SnakeError::ArenaExhausted)
    &&& r is Ok ==> has_kind(v1.foods, FoodKind::Green) && has_kind(v1.foods, FoodKind::Red)
        && has_kind(v1.foods, FoodKind::Blue)
    &&& r matches Ok(rep) ==> {
        &&& rep.moved == due
        &&& rep.collided == collided
        &&& rep.eaten == if due {
            eaten_after_step(arena, v0.segments, v0.foods, d)
        } else {
            None
        }
        &&& rep.cue == if due {
            cue_after_step(arena, v0.segments, v0.foods, d)
        } else {
            None
        }
    }
}

/// One whole frame from `v0` to `v1`: the waiting phases look at the keys,
/// then, if the game is being played, a frame of play follows.
pub open spec fn updated(
    v0: GameView,
    v1: GameView,
    keys: KeyPresses,
    delta: u64,
    r: Result<FrameReport, SnakeError>,
) -> bool {
    match v0.phase {
        SnakeGameState::WaitPlayer => if keys.any_spec() {
            played(after_wait(v0, keys), v1, keys, delta, r)
        } else {
            v1 == after_wait(v0, keys) && (r matches Ok(rep) && rep.is_idle())
        },
        SnakeGameState::GameOver => if keys.any_spec() {
            played(after_restart_wait(v0, keys), v1, keys, delta, r)
        } else {
            v1 == after_restart_wait(v0, keys) && (r matches Ok(rep) && rep.is_idle())
        },
        SnakeGameState::Playing => played(v0, v1, keys, delta, r),
        _ => v1 == v0 && (r matches Ok(rep) && rep.is_idle()),
    }
}

/// A game: its configuration, phase, buffered direction, clock, snake and
/// foods.
#[derive(Debug, Clone)]
pub struct SnakeGame {
    pub config: SnakeConfig,
    pub phase: SnakeGameState,
    pub accumulator: DirectionAccumulator,
    pub timer: GameTimer,
    /// The snake; there is none before the first start.
    pub snake: Option<SnakeChain>,
    pub foods: Vec<FoodItem>,
}

impl View for SnakeGame {
    type V = GameView;

    open spec fn view(&self) -> GameView {
        GameView {
            config: self.config,
            phase: self.phase,
            direction: self.accumulator.direction,
            timer: self.timer,
            has_snake: self.snake is Some,
            facing: match self.snake {
                Some(c) => c.facing,
                None => self.accumulator.direction,
            },
            segments: match self.snake {
                Some(c) => c.segments@,
                None => Seq::empty(),
            },
            foods: self.foods@,
        }
    }
}

impl SnakeGame {
    /// The snake, where there is one, is a well-formed chain inside the
    /// arena, and the foods obey their rules against it; before the first
    /// start there are neither snake nor foods.
    pub open spec fn wf(&self) -> bool {
        &&& self.config.wf()
        &&& self.config.start_length > 0
        &&& self.timer.base_duration == self.config.step_duration
        &&& foods_from_menu(self.config.menu, self.foods@)
        &&& self.phase != SnakeGameState::NotStarted ==> self.snake is Some
        &&& match self.snake {
            Some(c) => c.wf() && chain_in_arena(self.config.arena, c.segments@) && foods_wf(
                self.config.arena,
                c.segments@,
                self.foods@,
            ),
            None => self.foods@.len() == 0,
        }
    }

    /// The snake can take the largest growth a food gives without its length
    /// leaving `usize`.
    pub open spec fn has_growth_room(&self) -> bool {
        self.snake matches Some(c) ==> c.segments@.len() + self.config.menu.green.effect_spec().growth
            + self.config.menu.red.effect_spec().growth <= usize::MAX
    }

    /// A game not yet started. Refuses a snake length of zero.
    pub fn new(config: SnakeConfig) -> (r: Result<SnakeGame, SnakeError>)
        requires
            config.wf(),
        ensures
            r is Err <==> config.start_length == 0,
            r is Err ==> r == Err::<SnakeGame, SnakeError>(SnakeError::ConfigurationError),
            r matches Ok(g) ==> {
                &&& g.wf()
                &&& g.config == config
                &&& g.phase == SnakeGameState::NotStarted
                &&& g.accumulator.direction == config.start_facing
                &&& g.timer == GameTimer::new_spec(config.step_duration)
                &&& g.snake is None
                &&& g.foods@.len() == 0
            },
    {
        if config.start_length == 0 {
            return Err(SnakeError::ConfigurationError);
        }
        Ok(SnakeGame {
            config,
            phase: SnakeGameState::NotStarted,
            accumulator: DirectionAccumulator::new(config.start_facing),
            timer: GameTimer::new(config.step_duration),
            snake: None,
            foods: Vec::new(),
        })
    }

    /// A fresh snake at the start cell, facing the buffered direction.
    fn fresh_snake(&self) -> (r: SnakeChain)
        requires
            self.config.wf(),
            self.config.start_length > 0,
        ensures
            r.wf(),
            r.facing == self.accumulator.direction,
            r.segments@ == spawned(self.config.start_position, self.config.start_length as nat),
            chain_in_arena(self.config.arena, r.segments@),
    {
        match SnakeChain::spawn(
            self.config.start_position,
            self.accumulator.direction,
            self.config.start_length,
        ) {
            Ok(c) => c,
            Err(_) => {
                proof {
                    assert(false);
                }
                SnakeChain { facing: self.accumulator.direction, segments: Vec::new() }
            },
        }
    }

    /// One simulation step: the snake moves in the buffered direction, the
    /// head is checked against the other segments, and a food under the
    /// snake is eaten, with its growth, speed change and sound.
    pub fn step_snake(&mut self) -> (r: FrameReport)
        requires
            old(self).wf(),
            old(self).snake is Some,
            old(self).has_growth_room(),
        ensures
            final(self).wf(),
            final(self).config == old(self).config,
            final(self).phase == old(self).phase,
            final(self).accumulator == old(self).accumulator,
            final(self).timer.base_duration == old(self).timer.base_duration,
            final(self).timer.elapsed == old(self).timer.elapsed,
            ({
                let arena = old(self).config.arena;
                let segs = old(self).snake->Some_0.segments@;
                let foods = old(self).foods@;
                let d = old(self).accumulator.direction;
                &&& final(self).snake is Some
                &&& final(self).snake->Some_0.facing == d
                &&& final(self).snake->Some_0.segments@ == segments_after_step(arena, segs, foods, d)
                &&& final(self).foods@ == foods_after_step(arena, segs, foods, d)
                &&& final(self).timer.duration == duration_after_step(
                    arena,
                    segs,
                    foods,
                    d,
                    old(self).timer.duration,
                )
                &&& r.moved
                &&& r.collided == collides_spec(stepped(arena, segs, d))
                &&& r.eaten == eaten_after_step(arena, segs, foods, d)
                &&& r.cue == cue_after_step(arena, segs, foods, d)
            }),
    {
        let arena = self.config.arena;
        let d = self.accumulator.direction;
        let ghost segs0 = self.snake->Some_0.segments@;
        let ghost foods0 = self.foods@;
        let mut taken: Option<SnakeChain> = None;
        std::mem::swap(&mut taken, &mut self.snake);
        let mut c = match taken {
            Some(c) => c,
            None => {
                proof {
                    assert(false);
                }
                return FrameReport::idle();
            },
        };
        proof {
            lemma_step_keeps_foods(arena, segs0, foods0, d);
        }
        c.step(&arena, d);
        let collided = c.self_collides();
        let eaten = find_eaten_food(&c.segments, &self.foods);
        let mut report = FrameReport { moved: true, collided, eaten: None, cue: None };
        if let Some(j) = eaten {
            let item = self.foods.remove(j);
            let effect = item.food.effect();
            proof {
                assert(item == foods0[j as int]);
                assert(item.food == self.config.menu.food_of(item.food.kind_spec()));
                assert forall|k: int| 0 <= k < self.foods@.len() implies (
                #[trigger] self.foods@[k]).food == self.config.menu.food_of(
                    self.foods@[k].food.kind_spec(),
                ) by {
                    let k2 = if k < j {
                        k
                    } else {
                        k + 1
                    };
                    assert(self.foods@[k] == foods0[k2]);
                }
                lemma_grow_keeps_foods(arena, c.segments@, self.foods@, effect.growth as nat);
            }
            c.grow(effect.growth);
            if let Some(m) = effect.speed_multiplier {
                self.timer.set_duration_multiplier(m);
            }
            report.eaten = Some(item.food.kind());
            report.cue = Some(effect.cue);
        }
        self.snake = Some(c);
        report
    }

    /// Places the menu's food of every missing kind on a random free cell.
    fn refill_foods(&mut self) -> (r: Result<(), SnakeError>)
        requires
            old(self).wf(),
            old(self).snake is Some,
        ensures
            final(self).wf(),
            final(self).config == old(self).config,
            final(self).phase == old(self).phase,
            final(self).accumulator == old(self).accumulator,
            final(self).timer == old(self).timer,
            final(self).snake == old(self).snake,
            refilled(
                old(self).config.arena,
                old(self).config.menu,
                old(self)@.segments,
                old(self).foods@,
                final(self).foods@,
            ),
            r is Ok <==> missing_kinds(old(self).foods@) <= free_count(
                old(self).config.arena,
                occupied_spec(old(self)@.segments, old(self).foods@),
            ),
            r is Err ==> r == Err::<(), SnakeError>(SnakeError::ArenaExhausted),
            r is Ok ==> has_kind(final(self).foods@, FoodKind::Green) && has_kind(
                final(self).foods@,
                FoodKind::Red,
            ) && has_kind(final(self).foods@, FoodKind::Blue),
    {
        let ghost foods0 = self.foods@;
        let r = match &self.snake {
            Some(c) => spawn_missing_foods(
                &self.config.arena,
                &self.config.menu,
                &c.segments,
                &mut self.foods,
            ),
            None => Ok(()),
        };
        proof {
            let menu = self.config.menu;
            assert forall|j: int| 0 <= j < self.foods@.len() implies (
            #[trigger] self.foods@[j]).food == menu.food_of(self.foods@[j].food.kind_spec()) by {
                if j < foods0.len() {
                    assert(self.foods@.take(foods0.len() as int)[j] == self.foods@[j]);
                }
            }
        }
        r
    }

    /// Waiting for the first move: the first arrow key pressed (else Left)
    /// is buffered, and any arrow key starts play with a fresh clock.
    pub fn wait_for_input(&mut self, keys: &KeyPresses)
        requires
            old(self).wf(),
            old(self).phase == SnakeGameState::WaitPlayer,
        ensures
            final(self).wf(),
            final(self)@ == after_wait(old(self)@, *keys),
            final(self).snake == old(self).snake,
            final(self).foods == old(self).foods,
    {
        let d = match first_pressed(keys) {
            Some(d) => d,
            None => SnakeDirection::Left,
        };
        self.accumulator = DirectionAccumulator::new(d);
        if keys.any() {
            self.timer.reset_duration();
            self.timer.reset();
            self.phase = SnakeGameState::Playing;
        }
    }

    /// On the game-over screen: the first arrow key pressed (else Left) is
    /// buffered, and any arrow key clears the arena, puts a fresh snake at
    /// the start and starts play with a fresh clock.
    pub fn wait_for_restart(&mut self, keys: &KeyPresses)
        requires
            old(self).wf(),
            old(self).phase == SnakeGameState::GameOver,
        ensures
            final(self).wf(),
            final(self)@ == after_restart_wait(old(self)@, *keys),
            !keys.any_spec() ==> final(self).snake == old(self).snake && final(self).foods
                == old(self).foods,
    {
        let d = match first_pressed(keys) {
            Some(d) => d,
            None => SnakeDirection::Left,
        };
        self.accumulator = DirectionAccumulator::new(d);
        if keys.any() {
            let c = self.fresh_snake();
            self.snake = Some(c);
            self.foods = Vec::new();
            self.timer.reset_duration();
            self.timer.reset();
            self.phase = SnakeGameState::Playing;
            proof {
                assert(self@.foods =~= Seq::<FoodItem>::empty());
                assert(self@ =~= after_restart_wait(old(self)@, *keys));
            }
        }
    }

    /// One frame of play: buffer the keys, tick the clock, take a step if
    /// one is due, refill missing foods, and end the game on a
    /// self-collision. Fails when no free cell is left for a missing food.
    pub fn play(&mut self, keys: &KeyPresses, delta: u64) -> (r: Result<FrameReport, SnakeError>)
        requires
            old(self).wf(),
            old(self).phase == SnakeGameState::Playing,
            old(self).has_growth_room(),
        ensures
            final(self).wf(),
            played(old(self)@, final(self)@, *keys, delta, r),
    {
        let facing = match &self.snake {
            Some(c) => c.facing,
            None => self.accumulator.direction,
        };
        self.accumulator.accumulate(facing, keys);
        let due = self.timer.tick(delta);
        let mut report = FrameReport::idle();
        if due {
            report = self.step_snake();
        }
        let refill = self.refill_foods();
        if report.collided {
            self.phase = SnakeGameState::GameOver;
        }
        match refill {
            Ok(()) => Ok(report),
            Err(e) => Err(e),
        }
    }

    /// One frame: the keys pressed and the nanoseconds elapsed since the last
    /// frame.
    pub fn update(&mut self, keys: &KeyPresses, delta: u64) -> (r: Result<FrameReport, SnakeError>)
        requires
            old(self).wf(),
            old(self).has_growth_room(),
        ensures
            final(self).wf(),
            updated(old(self)@, final(self)@, *keys, delta, r),
    {
        match self.phase {
            SnakeGameState::WaitPlayer => self.wait_for_input(keys),
            SnakeGameState::GameOver => self.wait_for_restart(keys),
            _ => {},
        }
        if self.phase == SnakeGameState::Playing {
            self.play(keys, delta)
        } else {
            Ok(FrameReport::idle())
        }
    }

    /// Begins a fresh session: a new snake, no food, waiting for the player.
    pub fn request_start(&mut self)
        requires
            old(self).wf(),
        ensures
            final(self).wf(),
            final(self).config == old(self).config,
            final(self).phase == SnakeGameState::WaitPlayer,
            final(self).accumulator == old(self).accumulator,
            final(self).timer == old(self).timer,
            final(self).snake matches Some(c) && c.facing == old(self).accumulator.direction
                && c.segments@ == spawned(
                old(self).config.start_position,
                old(self).config.start_length as nat,
            ),
            final(self).foods@.len() == 0,
    {
        let c = self.fresh_snake();
        self.snake = Some(c);
        self.foods = Vec::new();
        self.phase = SnakeGameState::WaitPlayer;
    }
}

/// A due step that brings the head onto another segment ends the game.
pub proof fn lemma_collision_ends_game(
    v0: GameView,
    v1: GameView,
    keys: KeyPresses,
    delta: u64,
    r: Result<FrameReport, SnakeError>,
)
    requires
        played(v0, v1, keys, delta, r),
        step_due(v0.timer.elapsed, v0.timer.duration, delta),
        collides_spec(stepped(v0.config.arena, v0.segments, next_direction(v0, keys))),
    ensures
        v1.phase == SnakeGameState::GameOver,
        r matches Ok(rep) ==> rep.collided,
{
}

/// After the game is over, frames without an arrow key change neither the
/// snake, nor the foods, nor the clock, and the game stays over.
pub proof fn lemma_game_over_freezes(
    v0: GameView,
    v1: GameView,
    keys: KeyPresses,
    delta: u64,
    r: Result<FrameReport, SnakeError>,
)
    requires
        updated(v0, v1, keys, delta, r),
        v0.phase == SnakeGameState::GameOver,
        !keys.any_spec(),
    ensures
        v1.phase == SnakeGameState::GameOver,
        v1.segments == v0.segments,
        v1.facing == v0.facing,
        v1.foods == v0.foods,
        v1.timer == v0.timer,
        r matches Ok(rep) && !rep.moved,
{
}

/// In a well-formed game there is at most one food of each kind, no two
/// foods share a cell, and no food lies under the snake.
pub proof fn lemma_food_uniqueness(g: SnakeGame)
    requires
        g.wf(),
    ensures
        forall|j: int, k: int|
            0 <= j < g@.foods.len() && 0 <= k < g@.foods.len() && (#[trigger] g@.foods[j]).food.kind_spec()
                == (#[trigger] g@.foods[k]).food.kind_spec() ==> j == k,
        forall|j: int, k: int|
            0 <= j < g@.foods.len() && 0 <= k < g@.foods.len() && (#[trigger] g@.foods[j]).position
                == (#[trigger] g@.foods[k]).position ==> j == k,
        forall|j: int, i: int|
            0 <= j < g@.foods.len() && 0 <= i < g@.segments.len() ==> (#[trigger] g@.foods[j]).position
                != (#[trigger] g@.segments[i]).position,
{
}

/// A food placed during a frame lands on a cell that neither a segment nor
/// another food held, and is of a kind that was missing.
pub proof fn lemma_spawn_on_free_cell(
    v0: GameView,
    v1: GameView,
    keys: KeyPresses,
    delta: u64,
    r: Result<FrameReport, SnakeError>,
    j: int,
)
    requires
        played(v0, v1, keys, delta, r),
        ({
            let d = next_direction(v0, keys);
            let due = step_due(v0.timer.elapsed, v0.timer.duration, delta);
            let foods1 = if due {
                foods_after_step(v0.config.arena, v0.segments, v0.foods, d)
            } else {
                v0.foods
            };
            foods1.len() <= j < v1.foods.len()
        }),
    ensures
        ({
            let d = next_direction(v0, keys);
            let due = step_due(v0.timer.elapsed, v0.timer.duration, delta);
            let segs1 = if due {
                segments_after_step(v0.config.arena, v0.segments, v0.foods, d)
            } else {
                v0.segments
            };
            let foods1 = if due {
                foods_after_step(v0.config.arena, v0.segments, v0.foods, d)
            } else {
                v0.foods
            };
            &&& forall|i: int| 0 <= i < segs1.len() ==> v1.foods[j].position != #[trigger] segs1[i].position
            &&& forall|k: int| 0 <= k < foods1.len() ==> v1.foods[j].position != #[trigger] foods1[k].position
            &&& !has_kind(foods1, v1.foods[j].food.kind_spec())
        }),
{
    let d = next_direction(v0, keys);
    let due = step_due(v0.timer.elapsed, v0.timer.duration, delta);
    let segs1 = if due {
        segments_after_step(v0.config.arena, v0.segments, v0.foods, d)
    } else {
        v0.segments
    };
    let foods1 = if due {
        foods_after_step(v0.config.arena, v0.segments, v0.foods, d)
    } else {
        v0.foods
    };
    crate::feeding::lemma_occupied_members(segs1, foods1);
}

/// A reversal is never taken: with the snake facing and heading `f` and only
/// the opposite key pressed, the buffer keeps `f` and a due step moves the
/// head one cell in direction `f`.
pub proof fn lemma_reversal_keeps_course(
    v0: GameView,
    v1: GameView,
    keys: KeyPresses,
    delta: u64,
    r: Result<FrameReport, SnakeError>,
)
    requires
        played(v0, v1, keys, delta, r),
        v0.segments.len() >= 1,
        v0.direction == v0.facing,
        forall|e: SnakeDirection| keys.pressed(e) <==> e == v0.facing.opposite_spec(),
    ensures
        v1.direction == v0.facing,
        step_due(v0.timer.elapsed, v0.timer.duration, delta) ==> v1.facing == v0.facing
            && v1.segments[0].position == v0.config.arena.step_spec(
            v0.segments[0].position,
            v0.facing,
        ),
{
    crate::input::lemma_reversal_rejected(v0.facing, keys);
    let arena = v0.config.arena;
    let moved = stepped(arena, v0.segments, v0.facing);
    match first_eaten(moved, v0.foods) {
        Some(j) => {
            assert(grown(moved, v0.foods[j].food.effect_spec().growth as nat)[0] == moved[0]);
        },
        None => {},
    }
}

} // verus!

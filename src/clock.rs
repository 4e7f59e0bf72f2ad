//! The fixed-step clock that decides when the snake moves.
//!
//! Times are whole nanoseconds.
use vstd::prelude::*;

use crate::food::SpeedMultiplier;

verus! {

/// `a + b`, or `u64::MAX` where that does not fit.
pub open spec fn saturating_sum(a: u64, b: u64) -> u64 {
    if a + b > u64::MAX {
        u64::MAX
    } else {
        (a + b) as u64
    }
}

/// `duration` divided by the multiplier `m` (rounded down), or `u64::MAX`
/// where that does not fit.
pub open spec fn scaled_duration(duration: u64, m: SpeedMultiplier) -> u64 {
    let v = duration * m.denominator / (m.numerator as int);
    if v > u64::MAX {
        u64::MAX
    } else {
        v as u64
    }
}

/// Whether a step is due after `delta` more time has gathered.
pub open spec fn step_due(elapsed: u64, duration: u64, delta: u64) -> bool {
    saturating_sum(elapsed, delta) >= duration
}

/// The gathered time after a tick: whole periods are taken off when a step
/// is due, the rest is kept.
pub open spec fn ticked_elapsed(elapsed: u64, duration: u64, delta: u64) -> u64 {
    let total = saturating_sum(elapsed, delta);
    if total < duration {
        total
    } else if duration == 0 {
        0
    } else {
        (total % duration) as u64
    }
}

/// A repeating step timer whose duration a speed multiplier can change.
#[derive(Debug, Clone, Copy, PartialEq, Eq, Structural)]
pub struct GameTimer {
    /// The duration a reset restores.
    pub base_duration: u64,
    /// The current time between steps.
    pub duration: u64,
    /// Time gathered since the last step.
    pub elapsed: u64,
}

impl GameTimer {
    pub open spec fn new_spec(base_duration: u64) -> GameTimer {
        GameTimer { base_duration, duration: base_duration, elapsed: 0 }
    }

    pub fn new(base_duration: u64) -> (r: GameTimer)
        ensures
            r == GameTimer::new_spec(base_duration),
    {
        GameTimer { base_duration, duration: base_duration, elapsed: 0 }
    }

    /// Adds `delta` to the gathered time and says whether a step is due.
    ///
    /// When it is, whole periods are taken off and the rest is kept, so steps
    /// stay periodic; at most one step is signalled per call.
    pub fn tick(&mut self, delta: u64) -> (due: bool)
        ensures
            due == step_due(old(self).elapsed, old(self).duration, delta),
            final(self).elapsed == ticked_elapsed(old(self).elapsed, old(self).duration, delta),
            final(self).duration == old(self).duration,
            final(self).base_duration == old(self).base_duration,
    {
        self.elapsed = self.elapsed.saturating_add(delta);
        if self.elapsed < self.duration {
            return false;
        }
        if self.duration == 0 {
            self.elapsed = 0;
        } else {
            self.elapsed = self.elapsed % self.duration;
        }
        true
    }

    /// Divides the current duration by `m`; successive multipliers compound.
    pub fn set_duration_multiplier(&mut self, m: SpeedMultiplier)
        requires
            m.wf(),
        ensures
            final(self).duration == scaled_duration(old(self).duration, m),
            final(self).base_duration == old(self).base_duration,
            final(self).elapsed == old(self).elapsed,
    {
        proof {
            let d = self.duration as int;
            let k = m.denominator as int;
            assert(d * k <= 18446744073709551615 * 4294967295) by (nonlinear_arith)
                requires
                    0 <= d <= 18446744073709551615,
                    0 <= k <= 4294967295,
            ;
        }
        let product: u128 = (self.duration as u128) * (m.denominator as u128);
        let v: u128 = product / (m.numerator as u128);
        if v > u64::MAX as u128 {
            self.duration = u64::MAX;
        } else {
            self.duration = v as u64;
        }
    }

    /// Restores the base duration.
    pub fn reset_duration(&mut self)
        ensures
            final(self).duration == old(self).base_duration,
            final(self).base_duration == old(self).base_duration,
            final(self).elapsed == old(self).elapsed,
    {
        self.duration = self.base_duration;
    }

    /// Drops the gathered time; the duration is kept.
    pub fn reset(&mut self)
        ensures
            final(self).elapsed == 0,
            final(self).duration == old(self).duration,
            final(self).base_duration == old(self).base_duration,
    {
        self.elapsed = 0;
    }
}

/// Multipliers compound: applying `first` and then `second` divides the
/// duration by both in turn, the second acting on the first's result.
pub proof fn lemma_multipliers_compound(
    duration: u64,
    first: SpeedMultiplier,
    second: SpeedMultiplier,
)
    requires
        first.wf(),
        second.wf(),
        duration * first.denominator / (first.numerator as int) * second.denominator / (
        second.numerator as int) <= u64::MAX,
        duration * first.denominator / (first.numerator as int) <= u64::MAX,
    ensures
        scaled_duration(scaled_duration(duration, first), second) == duration * first.denominator
            / (first.numerator as int) * second.denominator / (second.numerator as int),
{
}

} // verus!

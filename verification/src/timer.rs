//! Countdown timers, advanced by the elapsed milliseconds of each tick.
//!
//! A one-shot timer runs to its duration and stays finished; a repeating
//! timer wraps around and reports `finished` only on the tick in which it
//! wrapped. All waiting in the simulation is expressed through these
//! timers, polled once per tick.

use vstd::prelude::*;

verus! {

use crate::geom::TIME_LIMIT;

/// A millisecond countdown timer.
#[derive(Clone, Copy, PartialEq, Eq, Structural, Debug)]
pub struct Timer {
    pub duration_ms: u64,
    pub elapsed_ms: u64,
    pub repeating: bool,
    pub just_finished: bool,
}

impl Timer {
    /// Valid durations and an elapsed time that never runs past one period.
    pub open spec fn wf(self) -> bool {
        &&& 0 < self.duration_ms <= TIME_LIMIT
        &&& if self.repeating {
            self.elapsed_ms < self.duration_ms
        } else {
            self.elapsed_ms <= self.duration_ms
        }
    }

    /// Whether the timer reports completion: a one-shot timer once it has
    /// run its duration, a repeating timer only on the tick it wrapped.
    pub open spec fn spec_finished(self) -> bool {
        if self.repeating {
            self.just_finished
        } else {
            self.elapsed_ms == self.duration_ms
        }
    }

    /// The timer state after advancing by `delta` milliseconds.
    pub open spec fn spec_tick(self, delta: u64) -> Timer
        recommends
            self.wf(),
            delta <= TIME_LIMIT,
    {
        if !self.repeating && self.elapsed_ms == self.duration_ms {
            Timer { just_finished: false, ..self }
        } else {
            let total = self.elapsed_ms + delta;
            if total >= self.duration_ms {
                if self.repeating {
                    Timer {
                        elapsed_ms: (total % (self.duration_ms as int)) as u64,
                        just_finished: true,
                        ..self
                    }
                } else {
                    Timer { elapsed_ms: self.duration_ms, just_finished: true, ..self }
                }
            } else {
                Timer { elapsed_ms: total as u64, just_finished: false, ..self }
            }
        }
    }

    /// Creates a fresh timer with nothing elapsed.
    pub fn new(duration_ms: u64, repeating: bool) -> (r: Timer)
        requires
            0 < duration_ms <= TIME_LIMIT,
        ensures
            r == (Timer { duration_ms, elapsed_ms: 0, repeating, just_finished: false }),
            r.wf(),
    {
        Timer { duration_ms, elapsed_ms: 0, repeating, just_finished: false }
    }

    /// Advances the timer by `delta` milliseconds. A one-shot timer that
    /// already finished is left alone except that it stops reporting the
    /// finish as fresh; otherwise the elapsed time grows, finishing the
    /// timer when it reaches the duration, and a repeating timer keeps the
    /// overshoot as the start of its next period.
    pub fn tick(&mut self, delta: u64)
        requires
            old(self).wf(),
            delta <= TIME_LIMIT,
        ensures
            *final(self) == old(self).spec_tick(delta),
            final(self).wf(),
            final(self).duration_ms == old(self).duration_ms,
            final(self).repeating == old(self).repeating,
    {
        if !self.repeating && self.elapsed_ms == self.duration_ms {
            self.just_finished = false;
        } else {
            let total = self.elapsed_ms + delta;
            if total >= self.duration_ms {
                if self.repeating {
                    self.elapsed_ms = total % self.duration_ms;
                } else {
                    self.elapsed_ms = self.duration_ms;
                }
                self.just_finished = true;
            } else {
                self.elapsed_ms = total;
                self.just_finished = false;
            }
        }
    }

    /// Whether the timer reports completion this tick.
    pub fn finished(&self) -> (r: bool)
        ensures
            r == self.spec_finished(),
    {
        if self.repeating {
            self.just_finished
        } else {
            self.elapsed_ms == self.duration_ms
        }
    }

    /// Whether the timer finished on the tick that just ran.
    pub fn just_finished(&self) -> (r: bool)
        ensures
            r == self.just_finished,
    {
        self.just_finished
    }

    /// Rewinds the timer to the start of a fresh period.
    pub fn reset(&mut self)
        ensures
            *final(self) == (Timer {
                elapsed_ms: 0,
                just_finished: false,
                ..*old(self)
            }),
            old(self).wf() ==> final(self).wf(),
    {
        self.elapsed_ms = 0;
        self.just_finished = false;
    }

    /// The elapsed fraction of the current period, in milli-units (1000
    /// stands for the full period).
    pub fn percent_milli(&self) -> (r: u64)
        requires
            self.wf(),
        ensures
            r == self.elapsed_ms * 1000 / (self.duration_ms as int),
            r <= 1000,
    {
        proof {
            let e = self.elapsed_ms as int;
            let d = self.duration_ms as int;
            assert(e * 1000 <= d * 1000) by (nonlinear_arith)
                requires
                    e <= d,
            ;
            assert(d * 1000 / d == 1000) by (nonlinear_arith)
                requires
                    d > 0,
            ;
            vstd::arithmetic::div_mod::lemma_div_is_ordered(e * 1000, d * 1000, d);
        }
        self.elapsed_ms * 1000 / self.duration_ms
    }
}

/// The three match timers: the round clock, the reward clock and the
/// periodic cooking tick, all repeating.
#[derive(Clone, Copy, PartialEq, Eq, Structural, Debug)]
pub struct MatchTimers {
    pub game: Timer,
    pub reward: Timer,
    pub cook: Timer,
}

/// Length of an active round, in milliseconds.
pub const ROUND_MS: u64 = 10_000;

/// Length of the reward phase, in milliseconds.
pub const REWARD_MS: u64 = 5_000;

/// Cadence of the periodic cooking tick, in milliseconds.
pub const COOK_MS: u64 = 1_000;

impl MatchTimers {
    pub open spec fn wf(self) -> bool {
        &&& self.game.wf()
        &&& self.reward.wf()
        &&& self.cook.wf()
        &&& self.game.repeating
        &&& self.reward.repeating
        &&& self.cook.repeating
    }
}

impl Default for MatchTimers {
    /// A 10 second repeating round clock, a 5 second repeating reward
    /// clock and a 1 second repeating cooking tick.
    fn default() -> (r: MatchTimers)
        ensures
            r.game == (Timer {
                duration_ms: ROUND_MS,
                elapsed_ms: 0,
                repeating: true,
                just_finished: false,
            }),
            r.reward == (Timer {
                duration_ms: REWARD_MS,
                elapsed_ms: 0,
                repeating: true,
                just_finished: false,
            }),
            r.cook == (Timer {
                duration_ms: COOK_MS,
                elapsed_ms: 0,
                repeating: true,
                just_finished: false,
            }),
            r.wf(),
    {
        MatchTimers {
            game: Timer::new(ROUND_MS, true),
            reward: Timer::new(REWARD_MS, true),
            cook: Timer::new(COOK_MS, true),
        }
    }
}

} // verus!

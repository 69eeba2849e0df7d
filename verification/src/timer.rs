//! Clock primitives: a repeating interval timer and a one-shot countdown.
//! Spawners and weapon cooldowns are built from the repeating timer; both
//! tick on real elapsed milliseconds, independent of the simulation step.

use vstd::prelude::*;

verus! {

/// Upper bound on a timer duration, in milliseconds.
pub const DURATION_LIMIT_MS: u64 = 1_000_000_000;

/// Upper bound on the real-time delta handed to one update, in milliseconds.
pub const DELTA_LIMIT_MS: u64 = 1_000_000_000;

/// A repeating interval timer.  Each update adds the real delta; the timer
/// reports how many interval boundaries were crossed and carries the
/// remainder over into the next interval.
#[derive(Clone, Copy, PartialEq, Eq, Structural, Debug)]
pub struct RepeatTimer {
    pub duration_ms: u64,
    pub elapsed_ms: u64,
}

impl RepeatTimer {
    /// Well-formed: a positive, bounded duration, and the carried remainder
    /// is always strictly inside the interval.
    pub open spec fn wf(self) -> bool {
        &&& 1 <= self.duration_ms <= DURATION_LIMIT_MS
        &&& self.elapsed_ms < self.duration_ms
    }

    /// A fresh timer with nothing elapsed.
    pub fn new(duration_ms: u64) -> (r: RepeatTimer)
        requires
            1 <= duration_ms <= DURATION_LIMIT_MS,
        ensures
            r.wf(),
            r.duration_ms == duration_ms,
            r.elapsed_ms == 0,
    {
        RepeatTimer { duration_ms, elapsed_ms: 0 }
    }

    /// Advance the timer by `delta_ms` real milliseconds.  Returns the
    /// number of interval boundaries crossed by this update — "just
    /// finished" fires exactly once per crossing — and keeps the remainder.
    pub fn tick(&mut self, delta_ms: u64) -> (fired: u64)
        requires
            old(self).wf(),
            delta_ms <= DELTA_LIMIT_MS,
        ensures
            final(self).wf(),
            final(self).duration_ms == old(self).duration_ms,
            fired == (old(self).elapsed_ms + delta_ms) / (old(self).duration_ms as int),
            final(self).elapsed_ms == (old(self).elapsed_ms + delta_ms) % (
            old(self).duration_ms as int),
    {
        let total = self.elapsed_ms + delta_ms;
        let fired = total / self.duration_ms;
        self.elapsed_ms = total % self.duration_ms;
        fired
    }
}

/// A one-shot countdown.  It accumulates elapsed time up to its duration,
/// reports the single update on which the duration is reached, and does not
/// re-arm.
#[derive(Clone, Copy, PartialEq, Eq, Structural, Debug)]
pub struct Countdown {
    pub duration_ms: u64,
    pub elapsed_ms: u64,
}

impl Countdown {
    /// Well-formed: bounded duration and the elapsed time never exceeds it.
    pub open spec fn wf(self) -> bool {
        &&& self.duration_ms <= DURATION_LIMIT_MS
        &&& self.elapsed_ms <= self.duration_ms
    }

    /// The countdown has run to its end.
    pub open spec fn finished(self) -> bool {
        self.elapsed_ms == self.duration_ms
    }

    /// A fresh countdown with nothing elapsed.
    pub fn new(duration_ms: u64) -> (r: Countdown)
        requires
            duration_ms <= DURATION_LIMIT_MS,
        ensures
            r.wf(),
            r.duration_ms == duration_ms,
            r.elapsed_ms == 0,
    {
        Countdown { duration_ms, elapsed_ms: 0 }
    }

    /// Advance the countdown by `delta_ms` real milliseconds, saturating at
    /// the duration.  Returns true exactly on the update that reaches the
    /// end.
    pub fn tick(&mut self, delta_ms: u64) -> (just_finished: bool)
        requires
            old(self).wf(),
            delta_ms <= DELTA_LIMIT_MS,
        ensures
            final(self).wf(),
            final(self).duration_ms == old(self).duration_ms,
            final(self).elapsed_ms == if old(self).elapsed_ms + delta_ms
                >= old(self).duration_ms {
                old(self).duration_ms as int
            } else {
                old(self).elapsed_ms + delta_ms
            },
            just_finished == (!old(self).finished() && final(self).finished()),
    {
        let was_finished = self.elapsed_ms == self.duration_ms;
        let total = self.elapsed_ms + delta_ms;
        if total >= self.duration_ms {
            self.elapsed_ms = self.duration_ms;
        } else {
            self.elapsed_ms = total;
        }
        !was_finished && self.elapsed_ms == self.duration_ms
    }
}

} // verus!

//! Score: per-subtype kill counters with fixed point multipliers.

use vstd::prelude::*;

verus! {

/// Points awarded for a destroyed fighter.
pub const SCORE_FIGHTER: u64 = 10;

/// Points awarded for a destroyed torpedo ship.
pub const SCORE_TORPEDO: u64 = 50;

/// Aggregate kill counters, one per enemy subtype.
#[derive(Clone, Copy, PartialEq, Eq, Structural, Debug)]
pub struct Score {
    pub fighter: u32,
    pub torpedo: u32,
}

/// `x + k` capped at `u32::MAX`.
pub open spec fn sat_add_u32(x: u32, k: int) -> int
    recommends
        k >= 0,
{
    if x + k > u32::MAX {
        u32::MAX as int
    } else {
        x + k
    }
}

impl Score {
    /// Zeroed counters.
    pub fn new() -> (r: Score)
        ensures
            r.fighter == 0,
            r.torpedo == 0,
    {
        Score { fighter: 0, torpedo: 0 }
    }

    /// Points from destroyed fighters.
    pub open spec fn sum_fighter_spec(self) -> int {
        SCORE_FIGHTER * self.fighter
    }

    /// Points from destroyed torpedo ships.
    pub open spec fn sum_torpedo_spec(self) -> int {
        SCORE_TORPEDO * self.torpedo
    }

    /// Total score.
    pub open spec fn sum_spec(self) -> int {
        self.sum_fighter_spec() + self.sum_torpedo_spec()
    }

    /// Points from destroyed fighters.
    pub fn sum_fighter(&self) -> (r: u64)
        ensures
            r == self.sum_fighter_spec(),
    {
        SCORE_FIGHTER * (self.fighter as u64)
    }

    /// Points from destroyed torpedo ships.
    pub fn sum_torpedo(&self) -> (r: u64)
        ensures
            r == self.sum_torpedo_spec(),
    {
        SCORE_TORPEDO * (self.torpedo as u64)
    }

    /// Total score.
    pub fn sum(&self) -> (r: u64)
        ensures
            r == self.sum_spec(),
    {
        self.sum_fighter() + self.sum_torpedo()
    }

    /// Zeroed counters, for the reset on leaving the game-over state.
    pub fn reset() -> (r: Score)
        ensures
            r.fighter == 0,
            r.torpedo == 0,
    {
        Score::new()
    }

    /// Record `k` destroyed fighters, saturating at the counter's limit.
    pub fn add_fighter_kills(&mut self, k: u32)
        ensures
            final(self).fighter == sat_add_u32(old(self).fighter, k as int),
            final(self).torpedo == old(self).torpedo,
    {
        if self.fighter > u32::MAX - k {
            self.fighter = u32::MAX;
        } else {
            self.fighter = self.fighter + k;
        }
    }

    /// Record `k` destroyed torpedo ships, saturating at the counter's
    /// limit.
    pub fn add_torpedo_kills(&mut self, k: u32)
        ensures
            final(self).torpedo == sat_add_u32(old(self).torpedo, k as int),
            final(self).fighter == old(self).fighter,
    {
        if self.torpedo > u32::MAX - k {
            self.torpedo = u32::MAX;
        } else {
            self.torpedo = self.torpedo + k;
        }
    }
}

} // verus!

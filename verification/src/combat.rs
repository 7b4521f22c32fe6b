//! Health and attack pacing, shared by the survivour and the zombies.

use vstd::prelude::*;
use crate::timer::Timer;

verus! {

/// The most health the survivour can hold.
pub const MAX_SURVIVOUR_HEALTH: i32 = 3;

/// Health after one point of damage: one less, but never below nothing.
pub open spec fn damaged(health: int) -> int {
    if health > 0 {
        health - 1
    } else {
        health
    }
}

/// Health after one health pickup: one more, but never above the survivour's most.
pub open spec fn healed(health: int) -> int {
    if health < MAX_SURVIVOUR_HEALTH {
        health + 1
    } else {
        health
    }
}

/// Points of health left.
#[derive(Clone, Copy, Debug, PartialEq, Eq, Structural)]
pub struct Health(pub i32);

/// The pause that must pass between two attacks.
#[derive(Clone, Copy, Debug, PartialEq, Eq, Structural)]
pub struct AttackDelay {
    pub delay: Timer,
}

/// What everything that fights carries.
#[derive(Clone, Copy, Debug, PartialEq, Eq, Structural)]
pub struct CombatBundle {
    pub health: Health,
    pub attack_delay: AttackDelay,
}

impl Health {
    /// Whether the health lies within what the survivour may hold.
    pub open spec fn in_survivour_range(self) -> bool {
        0 <= self.0 <= MAX_SURVIVOUR_HEALTH
    }

    /// Whether no health is left.
    pub fn is_spent(&self) -> (spent: bool)
        ensures
            spent == (self.0 <= 0),
    {
        self.0 <= 0
    }

    /// Takes one point of health away, unless none is left.
    pub fn damage(&mut self)
        ensures
            final(self).0 == damaged(old(self).0 as int),
            old(self).in_survivour_range() ==> final(self).in_survivour_range(),
    {
        if self.0 > 0 {
            self.0 = self.0 - 1;
        }
    }

    /// Gives one point of health back, unless the survivour's most is reached.
    pub fn heal(&mut self)
        ensures
            final(self).0 == healed(old(self).0 as int),
            old(self).in_survivour_range() ==> final(self).in_survivour_range(),
    {
        if self.0 < MAX_SURVIVOUR_HEALTH {
            self.0 = self.0 + 1;
        }
    }
}

impl AttackDelay {
    /// A fresh pause of `ms` milliseconds.
    pub fn from_millis(ms: u64) -> (d: AttackDelay)
        ensures
            d.delay == Timer::fresh(ms),
    {
        AttackDelay { delay: Timer::from_millis(ms) }
    }
}

} // verus!

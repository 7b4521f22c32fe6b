//! What a slain zombie may leave behind for the survivour to gather.

use vstd::prelude::*;
use crate::collision::CollisionSize;
use crate::geometry::Vec2;
use crate::timer::Timer;

verus! {

/// How long a pickup lies on the ground before it is gone, in milliseconds.
pub const POWERUP_LIFETIME_MS: u64 = 60_000;

/// The width of a health pickup's box, in thousandths of a unit.
pub const HEALTH_PICKUP_WIDTH: i32 = 32_000;

/// The height of a health pickup's box, in thousandths of a unit.
pub const HEALTH_PICKUP_HEIGHT: i32 = 26_000;

/// How far a pickup slides from where the zombie fell, in world units.
pub const PICKUP_SLIDE: u32 = 25;

/// The kinds of pickup.
#[derive(Clone, Copy, Debug, PartialEq, Eq, Structural)]
pub enum PowerUp {
    Health,
}

/// The chance, in percent, that a zombie leaves each kind of pickup.
#[derive(Clone, Copy, Debug, PartialEq, Eq, Structural)]
pub struct PowerupSpawnChance {
    pub health: u32,
}

/// The time a pickup has left.
#[derive(Clone, Copy, Debug, PartialEq, Eq, Structural)]
pub struct PowerupTimer(pub Timer);

/// A pickup on the ground. It can be gathered from the moment it appears, at
/// `position`; `rest` is where its slide along the ground comes to an end,
/// which only the picture of it follows.
#[derive(Clone, Copy, Debug, PartialEq, Eq, Structural)]
pub struct Pickup {
    pub position: Vec2,
    pub rest: Vec2,
    pub powerup: PowerUp,
    pub timer: PowerupTimer,
    pub collision_size: CollisionSize,
}

impl Pickup {
    /// Whether the pickup has the lifetime of its kind and some of it left.
    pub open spec fn lasts(self) -> bool {
        &&& self.timer.0.spec_duration() == POWERUP_LIFETIME_MS
        &&& !self.timer.0.spec_finished()
        &&& self.timer.0.spec_elapsed() < POWERUP_LIFETIME_MS
    }

    /// A pickup is taken away by time in the very step in which it has lain
    /// for its whole lifetime, and in no step before. Until then each step
    /// adds to the time it has lain.
    pub proof fn lemma_fades_on_time(self, dt_ms: u64)
        requires
            self.lasts(),
        ensures
            self.fades(dt_ms) <==> self.timer.0.spec_elapsed() + dt_ms >= POWERUP_LIFETIME_MS,
            !self.fades(dt_ms) ==> self.aged(dt_ms).lasts() && self.aged(
                dt_ms,
            ).timer.0.spec_elapsed() == self.timer.0.spec_elapsed() + dt_ms,
    {
        self.timer.0.lemma_made(dt_ms);
    }

    /// The pickup `dt_ms` milliseconds later.
    pub open spec fn aged(self, dt_ms: u64) -> Pickup {
        Pickup { timer: PowerupTimer(self.timer.0.after_tick(dt_ms)), ..self }
    }

    /// Whether the pickup's time runs out within the next `dt_ms` milliseconds.
    pub open spec fn fades(self, dt_ms: u64) -> bool {
        self.timer.0.after_tick(dt_ms).spec_just_finished()
    }
}

impl PowerupSpawnChance {
    /// Whether a draw from 0 to 99 calls for a health pickup.
    pub open spec fn spec_grants_health(self, roll: u32) -> bool {
        roll < self.health
    }

    /// Whether a draw from 0 to 99 calls for a health pickup: it does when it
    /// lies below the chance.
    pub fn grants_health(&self, roll: u32) -> (granted: bool)
        ensures
            granted == self.spec_grants_health(roll),
    {
        roll < self.health
    }
}

} // verus!

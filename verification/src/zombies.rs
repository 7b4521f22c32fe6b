//! The three kinds of zombie, what each is made of, and how they walk.

use vstd::prelude::*;
use crate::collision::CollisionSize;
use crate::combat::{AttackDelay, CombatBundle, Health};
use crate::geometry::{heading_toward, moved, Heading, Vec2};
use crate::survivour::Survivour;
use crate::powerups::PowerupSpawnChance;
use crate::timer::Timer;

verus! {

/// The kinds of zombie.
#[derive(Clone, Copy, Debug, PartialEq, Eq, Structural)]
pub enum Zombie {
    Chaser,
    Crawler,
    Bloater,
}

/// How fast something walks, in world units per second.
#[derive(Clone, Copy, Debug, PartialEq, Eq, Structural)]
pub struct MovementSpeed {
    pub speed: u32,
}

/// A zombie on the ground, with everything that belongs to it.
#[derive(Clone, Copy, Debug, PartialEq, Eq, Structural)]
pub struct ZombieBundle {
    pub position: Vec2,
    pub heading: Heading,
    pub zombie: Zombie,
    pub movement_speed: MovementSpeed,
    pub combat_bundle: CombatBundle,
    pub collision_size: CollisionSize,
    pub powerup_spawn_chance: PowerupSpawnChance,
}

impl Zombie {
    /// The health a zombie of this kind starts with.
    pub open spec fn spec_starting_health(self) -> int {
        match self {
            Zombie::Chaser => 1,
            Zombie::Crawler => 3,
            Zombie::Bloater => 5,
        }
    }

    /// The walking speed of this kind, in world units per second.
    pub open spec fn spec_speed(self) -> int {
        match self {
            Zombie::Chaser => 100,
            Zombie::Crawler => 80,
            Zombie::Bloater => 60,
        }
    }

    /// The box of this kind, in thousandths of a unit. It is smaller than the
    /// picture of the zombie, so that a hit looks like one.
    pub open spec fn spec_collision_size(self) -> Vec2 {
        match self {
            Zombie::Chaser => Vec2 { x: 19_000, y: 41_000 },
            Zombie::Crawler => Vec2 { x: 38_000, y: 32_000 },
            Zombie::Bloater => Vec2 { x: 31_000, y: 51_000 },
        }
    }

    /// The chance, in percent, that this kind leaves a health pickup.
    pub open spec fn spec_drop_chance(self) -> int {
        match self {
            Zombie::Chaser => 10,
            Zombie::Crawler => 12,
            Zombie::Bloater => 15,
        }
    }

    /// The pause between two attacks of this kind, in milliseconds.
    pub open spec fn spec_attack_delay(self) -> int {
        match self {
            Zombie::Chaser => 1_000,
            Zombie::Crawler => 2_000,
            Zombie::Bloater => 3_000,
        }
    }

    /// The score that slaying this kind is worth.
    pub open spec fn spec_points(self) -> int {
        match self {
            Zombie::Chaser => 1,
            Zombie::Crawler => 3,
            Zombie::Bloater => 5,
        }
    }

    pub fn starting_health(&self) -> (h: i32)
        ensures
            h == self.spec_starting_health(),
    {
        match self {
            Zombie::Chaser => 1,
            Zombie::Crawler => 3,
            Zombie::Bloater => 5,
        }
    }

    pub fn speed(&self) -> (s: u32)
        ensures
            s == self.spec_speed(),
    {
        match self {
            Zombie::Chaser => 100,
            Zombie::Crawler => 80,
            Zombie::Bloater => 60,
        }
    }

    pub fn collision_size(&self) -> (s: Vec2)
        ensures
            s == self.spec_collision_size(),
    {
        match self {
            Zombie::Chaser => Vec2 { x: 19_000, y: 41_000 },
            Zombie::Crawler => Vec2 { x: 38_000, y: 32_000 },
            Zombie::Bloater => Vec2 { x: 31_000, y: 51_000 },
        }
    }

    pub fn drop_chance(&self) -> (c: u32)
        ensures
            c == self.spec_drop_chance(),
    {
        match self {
            Zombie::Chaser => 10,
            Zombie::Crawler => 12,
            Zombie::Bloater => 15,
        }
    }

    pub fn attack_delay(&self) -> (ms: u64)
        ensures
            ms == self.spec_attack_delay(),
    {
        match self {
            Zombie::Chaser => 1_000,
            Zombie::Crawler => 2_000,
            Zombie::Bloater => 3_000,
        }
    }

    pub fn points(&self) -> (p: i32)
        ensures
            p == self.spec_points(),
    {
        match self {
            Zombie::Chaser => 1,
            Zombie::Crawler => 3,
            Zombie::Bloater => 5,
        }
    }
}

impl ZombieBundle {
    /// A zombie of kind `zombie` as it first appears at `pos`: facing along
    /// the x axis, with the health, speed, box, drop chance and fresh attack
    /// delay of its kind.
    pub open spec fn spec_of_kind(zombie: Zombie, pos: Vec2) -> ZombieBundle {
        ZombieBundle {
            position: pos,
            heading: Heading::spec_ahead(),
            zombie,
            movement_speed: MovementSpeed { speed: zombie.spec_speed() as u32 },
            combat_bundle: CombatBundle {
                health: Health(zombie.spec_starting_health() as i32),
                attack_delay: AttackDelay {
                    delay: Timer::fresh(zombie.spec_attack_delay() as u64),
                },
            },
            collision_size: CollisionSize(zombie.spec_collision_size()),
            powerup_spawn_chance: PowerupSpawnChance { health: zombie.spec_drop_chance() as u32 },
        }
    }

    /// Whether `self` is a zombie of kind `zombie` as it first appears at `pos`.
    pub open spec fn is_new(self, zombie: Zombie, pos: Vec2) -> bool {
        self == ZombieBundle::spec_of_kind(zombie, pos)
    }

    /// Whether the zombie is still among the living.
    pub open spec fn alive(self) -> bool {
        self.combat_bundle.health.0 > 0
    }

    /// A new zombie of the given kind at `pos`.
    pub fn of_kind(zombie: Zombie, pos: Vec2) -> (z: ZombieBundle)
        ensures
            z.is_new(zombie, pos),
            z.alive(),
    {
        ZombieBundle {
            position: pos,
            heading: Heading { x: 1000, y: 0 },
            zombie,
            movement_speed: MovementSpeed { speed: zombie.speed() },
            combat_bundle: CombatBundle {
                health: Health(zombie.starting_health()),
                attack_delay: AttackDelay { delay: Timer::from_millis(zombie.attack_delay()) },
            },
            collision_size: CollisionSize(zombie.collision_size()),
            powerup_spawn_chance: PowerupSpawnChance { health: zombie.drop_chance() },
        }
    }

    /// A new chaser at `pos`: quick, and felled by one hit.
    pub fn chaser(pos: Vec2) -> (z: ZombieBundle)
        ensures
            z.is_new(Zombie::Chaser, pos),
    {
        ZombieBundle::of_kind(Zombie::Chaser, pos)
    }

    /// A new crawler at `pos`: slower, and felled by three hits.
    pub fn crawler(pos: Vec2) -> (z: ZombieBundle)
        ensures
            z.is_new(Zombie::Crawler, pos),
    {
        ZombieBundle::of_kind(Zombie::Crawler, pos)
    }

    /// A new bloater at `pos`: slowest, and felled by five hits.
    pub fn bloater(pos: Vec2) -> (z: ZombieBundle)
        ensures
            z.is_new(Zombie::Bloater, pos),
    {
        ZombieBundle::of_kind(Zombie::Bloater, pos)
    }
}

/// The heading of a zombie at `from` that is after something at `target`:
/// straight toward it, or along the x axis where it stands on it already.
pub open spec fn pursuit_heading(from: Vec2, target: Vec2) -> Heading {
    if from == target {
        Heading::spec_ahead()
    } else {
        heading_toward(from, target)
    }
}

/// The zombie `z` after one step of `dt_ms` milliseconds straight toward
/// `target`, facing the way it walks.
pub open spec fn pursuing(z: ZombieBundle, target: Vec2, dt_ms: u64) -> ZombieBundle {
    ZombieBundle {
        position: moved(
            z.position,
            pursuit_heading(z.position, target),
            z.movement_speed.speed,
            dt_ms,
        ),
        heading: pursuit_heading(z.position, target),
        ..z
    }
}

/// One step of every zombie: each turns straight toward the place where the
/// survivour stands now and walks that way at its own speed. Nothing is in
/// a zombie's way. Where the survivour is missing the zombies stand still.
pub fn zombies_walk(survivour: Option<&Survivour>, zombies: &mut Vec<ZombieBundle>, dt_ms: u64)
    ensures
        final(zombies)@.len() == old(zombies)@.len(),
        forall|i: int|
            0 <= i < old(zombies)@.len() ==> #[trigger] final(zombies)@[i] == if survivour is Some {
                pursuing(old(zombies)@[i], survivour->0.position, dt_ms)
            } else {
                old(zombies)@[i]
            },
{
    if let Some(s) = survivour {
        let n: usize = zombies.len();
        let mut i: usize = 0;
        while i < n
            invariant
                0 <= i <= n,
                n == zombies@.len(),
                n == old(zombies)@.len(),
                forall|k: int|
                    0 <= k < i ==> #[trigger] zombies@[k] == pursuing(
                        old(zombies)@[k],
                        s.position,
                        dt_ms,
                    ),
                forall|k: int| i <= k < n ==> #[trigger] zombies@[k] == old(zombies)@[k],
            decreases n - i,
        {
            let mut z: ZombieBundle = zombies[i];
            let heading: Heading = match Heading::toward(z.position, s.position) {
                Some(h) => h,
                None => Heading::ahead(),
            };
            z.position = z.position.advance(heading, z.movement_speed.speed, dt_ms);
            z.heading = heading;
            zombies.set(i, z);
            i = i + 1;
        }
    }
}

} // verus!

//! The whole simulation as one value, and the step that carries it from one
//! frame to the next.
//!
//! Within a step the systems run in a fixed order: the survivour walks, the
//! view follows, the survivour aims and shoots, the zombies walk, the
//! bullets fly, bullets and zombies meet, the survivour gathers pickups,
//! blood and pickups fade, and the director sends the next wave when its
//! time has come. What a step brings into being (a bullet, blood, pickups,
//! a wave) joins the world at the end of the step and takes part from the
//! next step on.

use vstd::prelude::*;
use crate::collision::{
    blood_of, collision_zombies_bullets, count_set, despawn_blood, despawn_powerup, drop_pickups,
    fallen, healed_by, may_drop, overlaps, spec_blood_of, survivour_health_pickup, Decal, Hits,
    Kill, Tally,
};
use crate::sweep::{discard, kept, lemma_kept_prefix, lemma_kept_sound, marked, stays};
use crate::census::{
    alive_count, counted, lemma_census_agree, lemma_census_concat, lemma_census_horde,
    lemma_census_kept,
};
use crate::collision::BLOOD_LIFETIME_MS;
use crate::combat::{CombatBundle, Health, MAX_SURVIVOUR_HEALTH};
use crate::powerups::POWERUP_LIFETIME_MS;
use crate::timer::Timer;
use crate::waves::MAX_WAVE;
use crate::geometry::{heading_toward, Vec2};
use crate::map::{create_map, MapBounds};
use crate::powerups::Pickup;
use crate::survivour::{
    fired, look_at_cursor, shoot_bullet, spawn_survivour, survivour_walks, update_bullet,
    update_camera, view_after, walked, BulletBundle, Intent, Survivour,
};
use crate::waves::{
    generate_wave, init_wave_stats, is_horde, FirstWave, Score, Wave, WaveStats, ZombieCount,
};
use crate::zombies::{pursuing, zombies_walk, Zombie, ZombieBundle};

verus! {

/// Everything that lives in the simulation.
#[derive(Debug)]
pub struct World {
    pub survivour: Option<Survivour>,
    pub zombies: Vec<ZombieBundle>,
    pub bullets: Vec<BulletBundle>,
    pub pickups: Vec<Pickup>,
    pub blood: Vec<Decal>,
    pub map_bounds: Option<MapBounds>,
    pub camera: Vec2,
    pub stats: WaveStats,
}

/// The world as contracts speak of it.
pub struct WorldView {
    pub survivour: Option<Survivour>,
    pub zombies: Seq<ZombieBundle>,
    pub bullets: Seq<BulletBundle>,
    pub pickups: Seq<Pickup>,
    pub blood: Seq<Decal>,
    pub map_bounds: Option<MapBounds>,
    pub camera: Vec2,
    pub stats: WaveStats,
}

/// What the player asks for during one step, and what the player sees.
#[derive(Clone, Copy, Debug, PartialEq, Eq, Structural)]
pub struct Input {
    /// The directions and the trigger held down.
    pub intent: Intent,
    /// The place on the ground that is aimed at.
    pub aim: Vec2,
    /// The width and the height of the view.
    pub window: Vec2,
}

impl View for World {
    type V = WorldView;

    open spec fn view(&self) -> WorldView {
        WorldView {
            survivour: self.survivour,
            zombies: self.zombies@,
            bullets: self.bullets@,
            pickups: self.pickups@,
            blood: self.blood@,
            map_bounds: self.map_bounds,
            camera: self.camera,
            stats: self.stats,
        }
    }
}

/// The blood of the fallen among the first `n` zombies, in their order.
pub open spec fn blood_of_fallen(zombies: Seq<ZombieBundle>, n: int) -> Seq<Decal>
    decreases n,
{
    if n <= 0 {
        Seq::empty()
    } else if zombies[n - 1].alive() {
        blood_of_fallen(zombies, n - 1)
    } else {
        blood_of_fallen(zombies, n - 1).push(spec_blood_of(zombies[n - 1]))
    }
}

/// The pickups among the first `n` drops, in their order.
pub open spec fn granted(drops: Seq<Option<Pickup>>, n: int) -> Seq<Pickup>
    decreases n,
{
    if n <= 0 {
        Seq::empty()
    } else if drops[n - 1] is Some {
        granted(drops, n - 1).push(drops[n - 1]->0)
    } else {
        granted(drops, n - 1)
    }
}

/// The pickups, each a step older.
pub open spec fn aged_pickups(pickups: Seq<Pickup>, dt_ms: u64) -> Seq<Pickup> {
    Seq::new(pickups.len(), |i: int| pickups[i].aged(dt_ms))
}

/// For each pickup whether its time runs out during the step.
pub open spec fn fading_pickups(pickups: Seq<Pickup>, dt_ms: u64) -> Seq<bool> {
    Seq::new(pickups.len(), |i: int| pickups[i].fades(dt_ms))
}

/// The marks of blood, each a step older.
pub open spec fn aged_blood(blood: Seq<Decal>, dt_ms: u64) -> Seq<Decal> {
    Seq::new(blood.len(), |i: int| blood[i].aged(dt_ms))
}

/// For each mark of blood whether its time runs out during the step.
pub open spec fn fading_blood(blood: Seq<Decal>, dt_ms: u64) -> Seq<bool> {
    Seq::new(blood.len(), |i: int| blood[i].fades(dt_ms))
}

impl WorldView {
    /// What holds of the world between steps: the ground, if known, is well
    /// formed, and so are the wave and the head counts; the survivour's
    /// health is within its range; every zombie is alive, and the head
    /// counts are those of the zombies; and every pickup and every mark of
    /// blood has the lifetime of its kind, of which some is still left.
    pub open spec fn wf(self) -> bool {
        &&& self.map_bounds is Some ==> self.map_bounds->0.wf()
        &&& self.stats.wave.wf()
        &&& self.stats.zombie_count.wf()
        &&& counted(self.stats.zombie_count, self.zombies)
        &&& self.survivour is Some ==> self.survivour->0.combat_bundle.health.in_survivour_range()
        &&& forall|i: int| 0 <= i < self.zombies.len() ==> (#[trigger] self.zombies[i]).alive()
        &&& forall|i: int| 0 <= i < self.pickups.len() ==> (#[trigger] self.pickups[i]).lasts()
        &&& forall|i: int| 0 <= i < self.blood.len() ==> (#[trigger] self.blood[i]).lasts()
    }

    /// The world as play begins: the survivour at the origin of the ground,
    /// nothing else on it, and the director at wave one.
    pub open spec fn at_start() -> WorldView {
        WorldView {
            survivour: Some(Survivour::spec_new()),
            zombies: Seq::empty(),
            bullets: Seq::empty(),
            pickups: Seq::empty(),
            blood: Seq::empty(),
            map_bounds: Some(MapBounds { x: 32, y: 32 }),
            camera: Vec2 { x: 0, y: 0 },
            stats: WaveStats {
                wave: Wave::spec_default(),
                zombie_count: ZombieCount::spec_zero(),
                first_wave: FirstWave(true),
                score: Score(0),
            },
        }
    }
}

impl World {
    /// The world as play begins. Entering play anew starts from here, with
    /// nothing left of what was there before.
    pub fn new() -> (w: World)
        ensures
            w@ == WorldView::at_start(),
            w@.wf(),
    {
        let w = World {
            survivour: Some(spawn_survivour()),
            zombies: Vec::new(),
            bullets: Vec::new(),
            pickups: Vec::new(),
            blood: Vec::new(),
            map_bounds: Some(create_map()),
            camera: Vec2 { x: 0, y: 0 },
            stats: init_wave_stats(),
        };
        proof {
            assert(w@.zombies =~= Seq::empty());
            assert(w@.bullets =~= Seq::empty());
            assert(w@.pickups =~= Seq::empty());
            assert(w@.blood =~= Seq::empty());
        }
        w
    }
}

/// Whether every zombie is alive.
fn all_alive(zombies: &Vec<ZombieBundle>) -> (ok: bool)
    ensures
        ok == forall|i: int| 0 <= i < zombies@.len() ==> (#[trigger] zombies@[i]).alive(),
{
    let n: usize = zombies.len();
    let mut i: usize = 0;
    while i < n
        invariant
            0 <= i <= n,
            n == zombies@.len(),
            forall|k: int| 0 <= k < i ==> (#[trigger] zombies@[k]).alive(),
        decreases n - i,
    {
        if zombies[i].combat_bundle.health.0 <= 0 {
            return false;
        }
        i = i + 1;
    }
    true
}

/// How many of the zombies are alive and of kind `kind`.
fn count_alive(zombies: &Vec<ZombieBundle>, kind: Zombie) -> (n: usize)
    ensures
        n == alive_count(zombies@, kind, zombies@.len() as int),
{
    let len: usize = zombies.len();
    let mut n: usize = 0;
    let mut i: usize = 0;
    while i < len
        invariant
            0 <= i <= len,
            len == zombies@.len(),
            n == alive_count(zombies@, kind, i as int),
            n <= i,
        decreases len - i,
    {
        let z: ZombieBundle = zombies[i];
        let same: bool = match (z.zombie, kind) {
            (Zombie::Chaser, Zombie::Chaser) => true,
            (Zombie::Crawler, Zombie::Crawler) => true,
            (Zombie::Bloater, Zombie::Bloater) => true,
            _ => false,
        };
        if same && z.combat_bundle.health.0 > 0 {
            n = n + 1;
        }
        i = i + 1;
    }
    n
}

/// Whether a head count is the number `n`.
fn is_count(count: i32, n: usize) -> (same: bool)
    ensures
        same == (count as int == n as int),
{
    count >= 0 && count as usize == n
}

/// Whether every pickup has the lifetime of its kind and some of it left.
fn all_pickups_last(pickups: &Vec<Pickup>) -> (ok: bool)
    ensures
        ok == forall|i: int| 0 <= i < pickups@.len() ==> (#[trigger] pickups@[i]).lasts(),
{
    let n: usize = pickups.len();
    let mut i: usize = 0;
    while i < n
        invariant
            0 <= i <= n,
            n == pickups@.len(),
            forall|k: int| 0 <= k < i ==> (#[trigger] pickups@[k]).lasts(),
        decreases n - i,
    {
        let t: Timer = pickups[i].timer.0;
        if t.duration() != POWERUP_LIFETIME_MS || t.finished() || t.elapsed() >= POWERUP_LIFETIME_MS {
            return false;
        }
        i = i + 1;
    }
    true
}

/// Whether every mark of blood has the lifetime of blood and some of it left.
fn all_blood_lasts(blood: &Vec<Decal>) -> (ok: bool)
    ensures
        ok == forall|i: int| 0 <= i < blood@.len() ==> (#[trigger] blood@[i]).lasts(),
{
    let n: usize = blood.len();
    let mut i: usize = 0;
    while i < n
        invariant
            0 <= i <= n,
            n == blood@.len(),
            forall|k: int| 0 <= k < i ==> (#[trigger] blood@[k]).lasts(),
        decreases n - i,
    {
        let t: Timer = blood[i].timer.0;
        if t.duration() != BLOOD_LIFETIME_MS || t.finished() || t.elapsed() >= BLOOD_LIFETIME_MS {
            return false;
        }
        i = i + 1;
    }
    true
}

impl World {
    /// Whether the world is as it is between steps. A world that was made
    /// by `new` and changed by nothing but `tick` always is.
    pub fn is_well_formed(&self) -> (ok: bool)
        ensures
            ok == self@.wf(),
    {
        let bounds_ok: bool = match self.map_bounds {
            Some(b) => MapBounds::new(b.x, b.y).is_some(),
            None => true,
        };
        let wave_ok: bool = 1 <= self.stats.wave.count && self.stats.wave.count <= MAX_WAVE;
        let c: ZombieCount = self.stats.zombie_count;
        let count_ok: bool = 0 <= c.chaser && 0 <= c.crawler && 0 <= c.bloater && c.chaser as i64
            + c.crawler as i64 + c.bloater as i64 <= i32::MAX as i64;
        let health_ok: bool = match self.survivour {
            Some(s) => 0 <= s.combat_bundle.health.0 && s.combat_bundle.health.0
                <= MAX_SURVIVOUR_HEALTH,
            None => true,
        };
        let counted_ok: bool = is_count(c.chaser, count_alive(&self.zombies, Zombie::Chaser))
            && is_count(c.crawler, count_alive(&self.zombies, Zombie::Crawler)) && is_count(
            c.bloater,
            count_alive(&self.zombies, Zombie::Bloater),
        );
        let alive_ok: bool = all_alive(&self.zombies);
        let pickups_ok: bool = all_pickups_last(&self.pickups);
        let blood_ok: bool = all_blood_lasts(&self.blood);
        assert(self@.zombies == self.zombies@);
        assert(self@.pickups == self.pickups@);
        assert(self@.blood == self.blood@);
        bounds_ok && wave_ok && count_ok && counted_ok && health_ok && alive_ok && pickups_ok
            && blood_ok
    }
}

/// Marks the zombies that have no health left.
pub fn mark_fallen(zombies: &Vec<ZombieBundle>) -> (flags: Vec<bool>)
    ensures
        flags@ == fallen(zombies@),
{
    let mut flags: Vec<bool> = Vec::new();
    let n: usize = zombies.len();
    let mut i: usize = 0;
    while i < n
        invariant
            0 <= i <= n,
            n == zombies@.len(),
            flags@.len() == i,
            forall|k: int| 0 <= k < i ==> #[trigger] flags@[k] == !zombies@[k].alive(),
        decreases n - i,
    {
        flags.push(zombies[i].combat_bundle.health.0 <= 0);
        i = i + 1;
    }
    proof {
        assert(flags@ =~= fallen(zombies@));
    }
    flags
}

/// Makes the blood that the fallen zombies turn into.
pub fn bleed(zombies: &Vec<ZombieBundle>) -> (blood: Vec<Decal>)
    ensures
        blood@ == blood_of_fallen(zombies@, zombies@.len() as int),
{
    let mut blood: Vec<Decal> = Vec::new();
    let n: usize = zombies.len();
    let mut i: usize = 0;
    while i < n
        invariant
            0 <= i <= n,
            n == zombies@.len(),
            blood@ == blood_of_fallen(zombies@, i as int),
        decreases n - i,
    {
        if zombies[i].combat_bundle.health.0 <= 0 {
            blood.push(blood_of(&zombies[i]));
        }
        i = i + 1;
    }
    blood
}

/// Picks the pickups out of the drops.
pub fn collect_granted(drops: &Vec<Option<Pickup>>) -> (pickups: Vec<Pickup>)
    ensures
        pickups@ == granted(drops@, drops@.len() as int),
{
    let mut pickups: Vec<Pickup> = Vec::new();
    let n: usize = drops.len();
    let mut i: usize = 0;
    while i < n
        invariant
            0 <= i <= n,
            n == drops@.len(),
            pickups@ == granted(drops@, i as int),
        decreases n - i,
    {
        match drops[i] {
            Some(p) => {
                pickups.push(p);
            },
            None => {},
        }
        i = i + 1;
    }
    pickups
}

/// What one step did, for whoever shows and sounds the game.
#[derive(Debug)]
pub struct Report {
    /// Whether the survivour fired.
    pub shot: bool,
    /// For each bullet that was in flight whether it was lost beyond its
    /// range.
    pub lost: Vec<bool>,
    /// For each bullet that was still in flight when bullets and zombies
    /// met, whether it struck.
    pub spent: Vec<bool>,
    /// The zombies slain, by their places among the zombies and the bullets
    /// that met.
    pub kills: Vec<Kill>,
    /// For each zombie whether it fell.
    pub fallen: Vec<bool>,
    /// For each kill what the slain zombie left.
    pub drops: Vec<Option<Pickup>>,
    /// For each pickup that lay on the ground whether the survivour
    /// gathered it.
    pub gathered: Vec<bool>,
    /// For each pickup that was not gathered whether its time ran out.
    pub faded: Vec<bool>,
    /// For each mark of blood whether its time ran out.
    pub dried: Vec<bool>,
    /// Whether a wave came.
    pub wave_came: bool,
}

impl WorldView {
    /// The survivour once it has walked.
    pub open spec fn walker(self, input: Input, dt_ms: u64) -> Option<Survivour> {
        match self.survivour {
            Some(s) => Some(
                if self.map_bounds is Some {
                    Survivour {
                        position: walked(
                            s.position,
                            input.intent,
                            s.movement_speed.speed,
                            self.map_bounds->0,
                            dt_ms,
                        ),
                        ..s
                    }
                } else {
                    s
                },
            ),
            None => None,
        }
    }

    /// The centre of the view once it has followed the survivour.
    pub open spec fn camera_after(self, input: Input, dt_ms: u64) -> Vec2 {
        if self.survivour is Some && self.map_bounds is Some {
            view_after(
                self.camera,
                self.walker(input, dt_ms)->0.position,
                input.window,
                self.map_bounds->0,
            )
        } else {
            self.camera
        }
    }

    /// The survivour once it has walked and turned toward the place aimed at.
    pub open spec fn aimer(self, input: Input, dt_ms: u64) -> Option<Survivour> {
        match self.walker(input, dt_ms) {
            Some(s) => Some(
                Survivour {
                    heading: if s.position == input.aim {
                        s.heading
                    } else {
                        heading_toward(s.position, input.aim)
                    },
                    ..s
                },
            ),
            None => None,
        }
    }

    /// The bullet that the survivour fires during the step, if any.
    pub open spec fn shot(self, input: Input, dt_ms: u64) -> Option<BulletBundle> {
        match self.aimer(input, dt_ms) {
            Some(s) => if s.fires(input.intent.shoot, dt_ms) {
                Some(fired(s.position, s.heading))
            } else {
                None
            },
            None => None,
        }
    }

    /// The survivour once it has walked, aimed and worked its gun.
    pub open spec fn gunner(self, input: Input, dt_ms: u64) -> Option<Survivour> {
        match self.aimer(input, dt_ms) {
            Some(s) => Some(s.after_gun(input.intent.shoot, dt_ms)),
            None => None,
        }
    }

    /// The zombies once they have walked toward the survivour.
    pub open spec fn walking_zombies(self, input: Input, dt_ms: u64) -> Seq<ZombieBundle> {
        if self.survivour is Some {
            Seq::new(
                self.zombies.len(),
                |i: int| pursuing(self.zombies[i], self.walker(input, dt_ms)->0.position, dt_ms),
            )
        } else {
            self.zombies
        }
    }

    /// For each bullet whether it has flown beyond its range.
    pub open spec fn lost_bullets(self) -> Seq<bool> {
        Seq::new(self.bullets.len(), |i: int| self.bullets[i].spec_out_of_range())
    }

    /// The bullets still within their range, once they have flown on.
    pub open spec fn flying_bullets(self, dt_ms: u64) -> Seq<BulletBundle> {
        kept(
            Seq::new(
                self.bullets.len(),
                |i: int|
                    if self.bullets[i].spec_out_of_range() {
                        self.bullets[i]
                    } else {
                        self.bullets[i].flown(dt_ms)
                    },
            ),
            self.lost_bullets(),
            self.bullets.len() as int,
        )
    }

    /// How the meeting of the zombies and the bullets ends.
    pub open spec fn meeting(self, input: Input, dt_ms: u64) -> Tally {
        Tally::start(
            self.walking_zombies(input, dt_ms),
            self.flying_bullets(dt_ms).len(),
            self.stats.zombie_count,
            self.stats.score,
        ).after_zombies(self.flying_bullets(dt_ms), self.zombies.len() as int)
    }

    /// For each pickup on the ground whether the survivour gathers it.
    pub open spec fn gathered(self, input: Input, dt_ms: u64) -> Seq<bool> {
        Seq::new(
            self.pickups.len(),
            |j: int|
                self.survivour is Some && overlaps(
                    self.gunner(input, dt_ms)->0.position,
                    self.gunner(input, dt_ms)->0.collision_size.0,
                    self.pickups[j].position,
                    self.pickups[j].collision_size.0,
                ),
        )
    }

    /// The survivour at the end of the step.
    pub open spec fn survivour_after(self, input: Input, dt_ms: u64) -> Option<Survivour> {
        match self.gunner(input, dt_ms) {
            Some(s) => Some(
                Survivour {
                    combat_bundle: CombatBundle {
                        health: Health(
                            healed_by(
                                s.combat_bundle.health.0 as int,
                                count_set(self.gathered(input, dt_ms), self.pickups.len() as int),
                            ) as i32,
                        ),
                        ..s.combat_bundle
                    },
                    ..s
                },
            ),
            None => None,
        }
    }

    /// The pickups that were neither gathered nor ran out of time, a step
    /// older. Only what was not gathered is held against its time.
    pub open spec fn lasting_pickups(self, input: Input, dt_ms: u64) -> Seq<Pickup> {
        let left = kept(self.pickups, self.gathered(input, dt_ms), self.pickups.len() as int);
        kept(aged_pickups(left, dt_ms), fading_pickups(left, dt_ms), left.len() as int)
    }

    /// The blood that did not run out of time, a step older. Nothing but
    /// time takes blood away.
    pub open spec fn lasting_blood(self, dt_ms: u64) -> Seq<Decal> {
        kept(aged_blood(self.blood, dt_ms), fading_blood(self.blood, dt_ms), self.blood.len() as int)
    }

    /// The zombies that outlive the meeting with the bullets.
    pub open spec fn living_zombies(self, input: Input, dt_ms: u64) -> Seq<ZombieBundle> {
        let met = self.meeting(input, dt_ms).zombies;
        kept(met, fallen(met), met.len() as int)
    }

    /// Whether a wave comes at the end of the step: no zombie is left, the
    /// ground is known, and the pause is over.
    pub open spec fn wave_comes(self, input: Input, dt_ms: u64) -> bool {
        &&& self.meeting(input, dt_ms).count == ZombieCount::spec_zero()
        &&& self.map_bounds is Some
        &&& self.stats.wave.timer.after_tick(dt_ms).spec_finished()
    }

    /// What the director keeps at the end of the step, where `drawn` are
    /// the head counts of the wave that comes, if one does.
    pub open spec fn stats_after(self, input: Input, dt_ms: u64, drawn: ZombieCount) -> WaveStats {
        let met = self.meeting(input, dt_ms);
        let wave = self.stats.wave;
        if self.wave_comes(input, dt_ms) {
            WaveStats {
                wave: Wave {
                    count: Wave::next_count(wave.count as int, self.stats.first_wave.0) as i32,
                    timer: wave.timer.after_tick(dt_ms).after_reset(),
                },
                zombie_count: drawn,
                first_wave: FirstWave(false),
                score: met.score,
            }
        } else {
            WaveStats {
                wave: if met.count == ZombieCount::spec_zero() {
                    Wave { timer: wave.timer.after_tick(dt_ms), ..wave }
                } else {
                    wave
                },
                zombie_count: met.count,
                first_wave: self.stats.first_wave,
                score: met.score,
            }
        }
    }

    /// The world one step of `dt_ms` milliseconds later, where chance gave
    /// `drops` for the kills and, if a wave came, the zombies `horde` with
    /// the head counts `drawn`.
    pub open spec fn stepped(
        self,
        input: Input,
        dt_ms: u64,
        drops: Seq<Option<Pickup>>,
        horde: Seq<ZombieBundle>,
        drawn: ZombieCount,
    ) -> WorldView {
        let met = self.meeting(input, dt_ms);
        let flying = kept(self.flying_bullets(dt_ms), met.spent, met.spent.len() as int);
        WorldView {
            survivour: self.survivour_after(input, dt_ms),
            zombies: self.living_zombies(input, dt_ms) + horde,
            bullets: if self.shot(input, dt_ms) is Some {
                flying.push(self.shot(input, dt_ms)->0)
            } else {
                flying
            },
            pickups: self.lasting_pickups(input, dt_ms) + granted(drops, drops.len() as int),
            blood: self.lasting_blood(dt_ms) + blood_of_fallen(met.zombies, met.zombies.len() as int),
            map_bounds: self.map_bounds,
            camera: self.camera_after(input, dt_ms),
            stats: self.stats_after(input, dt_ms, drawn),
        }
    }
}

/// Whether `p` is one of the pickups among the first `n` drops.
pub open spec fn was_dropped(drops: Seq<Option<Pickup>>, n: int, p: Pickup) -> bool {
    exists|i: int| #![trigger drops[i]] 0 <= i < n && drops[i] is Some && drops[i]->0 == p
}

/// Whether `d` is the blood of a fallen zombie among the first `n`.
pub open spec fn was_bled(zombies: Seq<ZombieBundle>, n: int, d: Decal) -> bool {
    exists|i: int|
        #![trigger zombies[i]]
        0 <= i < n && !zombies[i].alive() && spec_blood_of(zombies[i]) == d
}

/// Every pickup among the granted was dropped.
pub proof fn lemma_granted_members(drops: Seq<Option<Pickup>>, n: int)
    requires
        0 <= n <= drops.len(),
    ensures
        forall|k: int|
            0 <= k < granted(drops, n).len() ==> was_dropped(
                drops,
                n,
                #[trigger] granted(drops, n)[k],
            ),
    decreases n,
{
    let now = granted(drops, n);
    if n > 0 {
        lemma_granted_members(drops, n - 1);
        let prev = granted(drops, n - 1);
        assert forall|k: int| 0 <= k < now.len() implies was_dropped(drops, n, #[trigger] now[k]) by {
            if k < prev.len() {
                assert(was_dropped(drops, n - 1, prev[k]));
                let i = choose|i: int|
                    #![trigger drops[i]]
                    0 <= i < n - 1 && drops[i] is Some && drops[i]->0 == prev[k];
                assert(0 <= i < n && drops[i] is Some && drops[i]->0 == now[k]);
            } else {
                assert(drops[n - 1] is Some && drops[n - 1]->0 == now[k]);
            }
        }
    }
}

/// Every mark of blood of the fallen is the blood of a zombie that fell.
pub proof fn lemma_blood_members(zombies: Seq<ZombieBundle>, n: int)
    requires
        0 <= n <= zombies.len(),
    ensures
        forall|k: int|
            0 <= k < blood_of_fallen(zombies, n).len() ==> was_bled(
                zombies,
                n,
                #[trigger] blood_of_fallen(zombies, n)[k],
            ),
    decreases n,
{
    let now = blood_of_fallen(zombies, n);
    if n > 0 {
        lemma_blood_members(zombies, n - 1);
        let prev = blood_of_fallen(zombies, n - 1);
        assert forall|k: int| 0 <= k < now.len() implies was_bled(zombies, n, #[trigger] now[k]) by {
            if k < prev.len() {
                assert(was_bled(zombies, n - 1, prev[k]));
                let i = choose|i: int|
                    #![trigger zombies[i]]
                    0 <= i < n - 1 && !zombies[i].alive() && spec_blood_of(zombies[i]) == prev[k];
                assert(0 <= i < n && !zombies[i].alive() && spec_blood_of(zombies[i]) == now[k]);
            } else {
                assert(!zombies[n - 1].alive() && spec_blood_of(zombies[n - 1]) == now[k]);
            }
        }
    }
}

impl WorldView {
    /// A step keeps the head counts true. Walking changes neither a
    /// zombie's kind nor its health; each kill takes one zombie off the
    /// ground and off the counts; and a wave comes only onto ground that
    /// is clear, with head counts that are those of its zombies.
    pub proof fn lemma_step_counted(
        self,
        input: Input,
        dt_ms: u64,
        horde: Seq<ZombieBundle>,
        drawn: ZombieCount,
    )
        requires
            self.wf(),
            drawn.wf(),
            if self.wave_comes(input, dt_ms) {
                is_horde(horde, drawn, self.map_bounds->0)
            } else {
                horde.len() == 0
            },
        ensures
            self.meeting(input, dt_ms).is_counted(),
            counted(
                self.stats_after(input, dt_ms, drawn).zombie_count,
                self.living_zombies(input, dt_ms) + horde,
            ),
    {
        let walking = self.walking_zombies(input, dt_ms);
        let n = self.zombies.len() as int;
        assert forall|i: int|
            0 <= i < n implies (#[trigger] self.zombies[i]).zombie == walking[i].zombie
            && self.zombies[i].alive() == walking[i].alive() by {}
        lemma_census_agree(self.zombies, walking, Zombie::Chaser, n);
        lemma_census_agree(self.zombies, walking, Zombie::Crawler, n);
        lemma_census_agree(self.zombies, walking, Zombie::Bloater, n);
        let flying = self.flying_bullets(dt_ms);
        let start = Tally::start(walking, flying.len(), self.stats.zombie_count, self.stats.score);
        assert(start.is_counted());
        start.lemma_after_zombies_counted(flying, n);
        start.lemma_after_zombies_keeps_shape(flying, n);
        let met = self.meeting(input, dt_ms);
        let living = self.living_zombies(input, dt_ms);
        lemma_census_kept(met.zombies, Zombie::Chaser, n);
        lemma_census_kept(met.zombies, Zombie::Crawler, n);
        lemma_census_kept(met.zombies, Zombie::Bloater, n);
        assert(counted(met.count, living));
        if self.wave_comes(input, dt_ms) {
            lemma_census_horde(horde, drawn, self.map_bounds->0);
            lemma_census_concat(living, horde, Zombie::Chaser, horde.len() as int);
            lemma_census_concat(living, horde, Zombie::Crawler, horde.len() as int);
            lemma_census_concat(living, horde, Zombie::Bloater, horde.len() as int);
        } else {
            assert(living + horde =~= living);
        }
    }
}

/// Carries the world one step of `dt_ms` milliseconds on.
///
/// All but chance is settled by the world before and the input: the world
/// after is `stepped`. Chance gives the drops of the slain, which the
/// report holds, and the zombies of a wave that comes, which stand last
/// among the zombies.
pub fn tick(world: &mut World, input: &Input, dt_ms: u64) -> (report: Report)
    requires
        old(world)@.wf(),
    ensures
        final(world)@.wf(),
        ({
            let before = old(world)@;
            let met = before.meeting(*input, dt_ms);
            let living = before.living_zombies(*input, dt_ms);
            let horde = final(world)@.zombies.skip(living.len() as int);
            &&& final(world)@.zombies.len() >= living.len()
            &&& final(world)@ == before.stepped(
                *input,
                dt_ms,
                report.drops@,
                horde,
                final(world).stats.zombie_count,
            )
            &&& report.shot == before.shot(*input, dt_ms) is Some
            &&& report.lost@ == before.lost_bullets()
            &&& report.spent@ == met.spent
            &&& report.kills@ == met.kills
            &&& report.fallen@ == fallen(met.zombies)
            &&& report.gathered@ == before.gathered(*input, dt_ms)
            &&& report.faded@ == fading_pickups(
                kept(before.pickups, before.gathered(*input, dt_ms), before.pickups.len() as int),
                dt_ms,
            )
            &&& report.dried@ == fading_blood(before.blood, dt_ms)
            &&& report.wave_came == before.wave_comes(*input, dt_ms)
            &&& report.drops@.len() == met.kills.len()
            &&& forall|k: int|
                0 <= k < met.kills.len() ==> may_drop(
                    #[trigger] report.drops@[k],
                    met.kills[k],
                    met.zombies,
                    before.flying_bullets(dt_ms),
                )
            &&& if before.wave_comes(*input, dt_ms) {
                &&& final(world).stats.zombie_count.fits_wave(before.stats.wave.count as int)
                &&& is_horde(horde, final(world).stats.zombie_count, before.map_bounds->0)
            } else {
                horde.len() == 0
            }
        }),
{
    let ghost before = world@;
    let bounds: Option<MapBounds> = world.map_bounds;
    let mut camera: Vec2 = world.camera;
    let mut shot: Option<BulletBundle> = None;
    let mut survivour: Option<Survivour> = world.survivour;

    // The survivour walks, the view follows, the survivour aims and shoots.
    survivour_walks(survivour.as_mut(), &input.intent, bounds.as_ref(), dt_ms);
    update_camera(survivour.as_ref(), Some(&mut camera), input.window, bounds.as_ref());
    look_at_cursor(survivour.as_mut(), &input.aim);
    let fired_now: Option<BulletBundle> = shoot_bullet(survivour.as_mut(), &input.intent, dt_ms);
    assert(survivour == before.gunner(*input, dt_ms));
    assert(fired_now == before.shot(*input, dt_ms));
    assert(camera == before.camera_after(*input, dt_ms));

    // The zombies walk, the bullets fly.
    let mut zombies: Vec<ZombieBundle> = Vec::new();
    zombies.append(&mut world.zombies);
    zombies_walk(survivour.as_ref(), &mut zombies, dt_ms);
    assert(zombies@ =~= before.walking_zombies(*input, dt_ms));
    let mut all_bullets: Vec<BulletBundle> = Vec::new();
    all_bullets.append(&mut world.bullets);
    let lost: Vec<bool> = update_bullet(&mut all_bullets, dt_ms);
    let bullets: Vec<BulletBundle> = discard(&all_bullets, &lost);
    proof {
        assert(lost@ =~= before.lost_bullets());
        assert(all_bullets@ =~= Seq::new(
            before.bullets.len(),
            |i: int|
                if before.bullets[i].spec_out_of_range() {
                    before.bullets[i]
                } else {
                    before.bullets[i].flown(dt_ms)
                },
        ));
        assert(bullets@ == before.flying_bullets(dt_ms));
    }

    // Bullets and zombies meet.
    let mut count: ZombieCount = world.stats.zombie_count;
    let mut score: Score = world.stats.score;
    let hits: Hits = collision_zombies_bullets(&mut zombies, &bullets, &mut count, &mut score);
    let ghost met = before.meeting(*input, dt_ms);
    proof {
        assert(met.zombies == zombies@);
        assert(met.kills == hits.kills@);
        assert(met.spent == hits.spent@);
        assert forall|k: int| 0 <= k < hits.kills@.len() implies (#[trigger] hits.kills@[k]).zombie
            < zombies@.len() && hits.kills@[k].bullet < bullets@.len() by {
            let start = Tally::start(
                before.walking_zombies(*input, dt_ms),
                bullets@.len(),
                before.stats.zombie_count,
                before.stats.score,
            );
            assert(met.made_kill(start, k));
        }
    }
    let drops: Vec<Option<Pickup>> = drop_pickups(&hits.kills, &zombies, &bullets);
    let mut flying: Vec<BulletBundle> = discard(&bullets, &hits.spent);
    let down: Vec<bool> = mark_fallen(&zombies);
    let mut fresh_blood: Vec<Decal> = bleed(&zombies);
    let mut living: Vec<ZombieBundle> = discard(&zombies, &down);
    assert(living@ == before.living_zombies(*input, dt_ms));

    // The survivour gathers pickups; blood and pickups fade.
    let gathered: Vec<bool> = survivour_health_pickup(survivour.as_mut(), &world.pickups);
    assert(gathered@ =~= before.gathered(*input, dt_ms));
    assert(survivour == before.survivour_after(*input, dt_ms));
    let mut left: Vec<Pickup> = discard(&world.pickups, &gathered);
    let ghost left_before = left@;
    let faded: Vec<bool> = despawn_powerup(&mut left, dt_ms);
    let mut pickups: Vec<Pickup> = discard(&left, &faded);
    proof {
        assert(left@ =~= aged_pickups(left_before, dt_ms));
        assert(faded@ =~= fading_pickups(left_before, dt_ms));
        assert(pickups@ == before.lasting_pickups(*input, dt_ms));
    }
    let mut old_blood: Vec<Decal> = Vec::new();
    old_blood.append(&mut world.blood);
    let dried: Vec<bool> = despawn_blood(&mut old_blood, dt_ms);
    let mut blood: Vec<Decal> = discard(&old_blood, &dried);
    proof {
        assert(old_blood@ =~= aged_blood(before.blood, dt_ms));
        assert(dried@ =~= fading_blood(before.blood, dt_ms));
        assert(blood@ == before.lasting_blood(dt_ms));
    }

    // The director sends the next wave when its time has come.
    let mut wave: Wave = world.stats.wave;
    let mut first_wave: FirstWave = world.stats.first_wave;
    let came: Option<Vec<ZombieBundle>> = generate_wave(
        &mut wave,
        &mut count,
        &mut first_wave,
        bounds.as_ref(),
        dt_ms,
    );
    let wave_came: bool = came.is_some();
    assert(wave_came == before.wave_comes(*input, dt_ms));

    // What the step brought into being joins the world.
    proof {
        lemma_kept_sound(zombies@, down@, zombies@.len() as int);
        lemma_kept_sound(before.pickups, gathered@, before.pickups.len() as int);
        lemma_kept_sound(left@, faded@, left@.len() as int);
        lemma_kept_sound(old_blood@, dried@, old_blood@.len() as int);
        lemma_granted_members(drops@, drops@.len() as int);
        lemma_blood_members(zombies@, zombies@.len() as int);
    }
    let ghost living_before = living@;
    match came {
        Some(h) => {
            let mut horde: Vec<ZombieBundle> = h;
            living.append(&mut horde);
        },
        None => {},
    }
    let mut granted_now: Vec<Pickup> = collect_granted(&drops);
    let ghost lasting = pickups@;
    let ghost lasting_blood = blood@;
    pickups.append(&mut granted_now);
    blood.append(&mut fresh_blood);
    match fired_now {
        Some(b) => {
            flying.push(b);
        },
        None => {},
    }
    let shot_fired: bool = fired_now.is_some();
    world.survivour = survivour;
    world.zombies = living;
    world.bullets = flying;
    world.pickups = pickups;
    world.blood = blood;
    world.camera = camera;
    world.stats = WaveStats { wave, zombie_count: count, first_wave, score };
    proof {
        let after = world@;
        let horde = after.zombies.skip(living_before.len() as int);
        let want = before.stepped(*input, dt_ms, drops@, horde, count);
        assert(after.zombies =~= living_before + horde);
        assert(after.zombies =~= want.zombies);
        assert(after.bullets =~= want.bullets);
        assert(after.pickups =~= want.pickups);
        assert(after.blood =~= want.blood);
        assert(after.stats == want.stats);
        assert(after == want);
        before.lemma_step_counted(*input, dt_ms, horde, count);
        assert forall|i: int| 0 <= i < after.zombies.len() implies (#[trigger] after.zombies[i]).alive() by {
            if i < living_before.len() {
                assert(stays(zombies@, down@, zombies@.len() as int, living_before[i]));
            } else {
                assert(after.zombies[i] == horde[i - living_before.len()]);
            }
        }
        assert forall|i: int| 0 <= i < after.pickups.len() implies (
        #[trigger] after.pickups[i]).lasts() by {
            if i < lasting.len() {
                assert(stays(left@, faded@, left@.len() as int, lasting[i]));
                let k = choose|k: int|
                    #![trigger left@[k]]
                    0 <= k < left@.len() && !marked(faded@, k) && left@[k] == lasting[i];
                assert(stays(
                    before.pickups,
                    gathered@,
                    before.pickups.len() as int,
                    left_before[k],
                ));
                left_before[k].timer.0.lemma_made(dt_ms);
            } else {
                let p = after.pickups[i];
                assert(p == granted(drops@, drops@.len() as int)[i - lasting.len()]);
                assert(was_dropped(drops@, drops@.len() as int, p));
                let k = choose|k: int|
                    #![trigger drops@[k]]
                    0 <= k < drops@.len() && drops@[k] is Some && drops@[k]->0 == p;
                assert(may_drop(drops@[k], hits.kills@[k], zombies@, bullets@));
                p.timer.0.lemma_made(POWERUP_LIFETIME_MS);
            }
        }
        assert forall|i: int| 0 <= i < after.blood.len() implies (#[trigger] after.blood[i]).lasts() by {
            if i < lasting_blood.len() {
                assert(stays(old_blood@, dried@, old_blood@.len() as int, lasting_blood[i]));
                let k = choose|k: int|
                    #![trigger old_blood@[k]]
                    0 <= k < old_blood@.len() && !marked(dried@, k) && old_blood@[k]
                        == lasting_blood[i];
                before.blood[k].timer.0.lemma_made(dt_ms);
            } else {
                let d = after.blood[i];
                assert(d == blood_of_fallen(zombies@, zombies@.len() as int)[i
                    - lasting_blood.len()]);
                assert(was_bled(zombies@, zombies@.len() as int, d));
                d.timer.0.lemma_made(BLOOD_LIFETIME_MS);
            }
        }
    }
    Report {
        shot: shot_fired,
        lost,
        spent: hits.spent,
        kills: hits.kills,
        fallen: down,
        drops,
        gathered,
        faded,
        dried,
        wave_came,
    }
}

/// For each pickup whether the step takes it off the ground: because it was
/// gathered, or because its time ran out.
pub open spec fn leaving_pickups(pickups: Seq<Pickup>, gathered: Seq<bool>, dt_ms: u64) -> Seq<bool> {
    Seq::new(pickups.len(), |i: int| marked(gathered, i) || pickups[i].fades(dt_ms))
}

/// Taking the gathered pickups away first and then, of the rest, those
/// whose time ran out, leaves the pickups that were neither gathered nor
/// out of time, each a step older.
pub proof fn lemma_pickups_leave_once(pickups: Seq<Pickup>, gathered: Seq<bool>, dt_ms: u64, n: int)
    requires
        0 <= n <= pickups.len(),
    ensures
        ({
            let left = kept(pickups, gathered, n);
            kept(aged_pickups(left, dt_ms), fading_pickups(left, dt_ms), left.len() as int) == kept(
                aged_pickups(pickups, dt_ms),
                leaving_pickups(pickups, gathered, dt_ms),
                n,
            )
        }),
    decreases n,
{
    if n > 0 {
        lemma_pickups_leave_once(pickups, gathered, dt_ms, n - 1);
        lemma_kept_sound(pickups, gathered, n - 1);
        let left = kept(pickups, gathered, n);
        let before = kept(pickups, gathered, n - 1);
        let leaving = leaving_pickups(pickups, gathered, dt_ms);
        assert(marked(leaving, n - 1) == (marked(gathered, n - 1) || pickups[n - 1].fades(dt_ms)));
        if !marked(gathered, n - 1) {
            let len = before.len() as int;
            assert(left == before.push(pickups[n - 1]));
            lemma_kept_prefix(
                aged_pickups(left, dt_ms),
                fading_pickups(left, dt_ms),
                aged_pickups(before, dt_ms),
                fading_pickups(before, dt_ms),
                len,
            );
            assert(marked(fading_pickups(left, dt_ms), len) == pickups[n - 1].fades(dt_ms));
            assert(aged_pickups(left, dt_ms)[len] == pickups[n - 1].aged(dt_ms));
        }
    }
}

impl WorldView {
    /// A pickup leaves the ground for one reason only. The pickups that
    /// the survivour gathers are taken first; of the others, those whose
    /// time runs out are taken next. So the pickups that last are those
    /// that were neither gathered nor out of time, and no pickup is held
    /// against its time once it has been gathered.
    pub proof fn lemma_pickup_fates(self, input: Input, dt_ms: u64)
        ensures
            self.lasting_pickups(input, dt_ms) == kept(
                aged_pickups(self.pickups, dt_ms),
                leaving_pickups(self.pickups, self.gathered(input, dt_ms), dt_ms),
                self.pickups.len() as int,
            ),
    {
        lemma_pickups_leave_once(
            self.pickups,
            self.gathered(input, dt_ms),
            dt_ms,
            self.pickups.len() as int,
        );
    }
}

} // verus!

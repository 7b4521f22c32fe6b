//! The wave director: it counts the zombies that are left, keeps the score,
//! and sends in the next wave once the ground is clear and the pause is over.

use vstd::prelude::*;
use crate::geometry::Vec2;
use crate::map::MapBounds;
use crate::random::draw_between;
use crate::timer::Timer;
use crate::zombies::{Zombie, ZombieBundle};

verus! {

/// The pause between the clearing of one wave and the coming of the next,
/// in milliseconds.
pub const WAVE_PAUSE_MS: u64 = 5_000;

/// The highest wave number for which a wave's head count can still be held.
pub const MAX_WAVE: i32 = 357_913_941;

/// The number of the current wave and the pause before the next one.
#[derive(Clone, Copy, Debug, PartialEq, Eq, Structural)]
pub struct Wave {
    pub count: i32,
    pub timer: Timer,
}

/// Whether no wave has come yet.
#[derive(Clone, Copy, Debug, PartialEq, Eq, Structural)]
pub struct FirstWave(pub bool);

/// The running score.
#[derive(Clone, Copy, Debug, PartialEq, Eq, Structural)]
pub struct Score(pub i32);

/// How many zombies of each kind are left.
#[derive(Clone, Copy, Debug, PartialEq, Eq, Structural)]
pub struct ZombieCount {
    pub chaser: i32,
    pub crawler: i32,
    pub bloater: i32,
}

/// Everything the director keeps, as it stands when play begins.
#[derive(Clone, Copy, Debug, PartialEq, Eq, Structural)]
pub struct WaveStats {
    pub wave: Wave,
    pub zombie_count: ZombieCount,
    pub first_wave: FirstWave,
    pub score: Score,
}

/// The score after `points` more, held at the largest score there is.
pub open spec fn score_after(score: int, points: int) -> int {
    if score + points > i32::MAX {
        i32::MAX as int
    } else {
        score + points
    }
}

impl Wave {
    /// A wave number from one upward, small enough for its head count.
    pub open spec fn wf(self) -> bool {
        1 <= self.count <= MAX_WAVE
    }

    /// Wave one with its whole pause ahead.
    pub open spec fn spec_default() -> Wave {
        Wave { count: 1, timer: Timer::fresh(WAVE_PAUSE_MS) }
    }

    /// The wave number after a wave has come: the first wave keeps its
    /// number, every later one takes the next. The highest wave number
    /// there is stays.
    pub open spec fn next_count(count: int, first: bool) -> int {
        if first || count >= MAX_WAVE {
            count
        } else {
            count + 1
        }
    }

    /// Closes the coming of a wave: the pause starts anew, and the wave
    /// number goes up by one unless this was the first wave.
    pub fn advance(&mut self, first_wave: &mut FirstWave)
        ensures
            final(self).count == Wave::next_count(old(self).count as int, old(first_wave).0),
            final(self).timer == old(self).timer.after_reset(),
            !final(first_wave).0,
            old(self).wf() ==> final(self).wf(),
    {
        if first_wave.0 {
            first_wave.0 = false;
        } else if self.count < MAX_WAVE {
            self.count = self.count + 1;
        }
        self.timer.reset();
    }
}

/// The wave number after `spawns` more waves have come, for a director that
/// stands at wave `count` and has seen its first wave or not.
pub open spec fn count_after_spawns(count: int, first: bool, spawns: nat) -> int
    decreases spawns,
{
    if spawns == 0 {
        count
    } else {
        count_after_spawns(Wave::next_count(count, first), false, (spawns - 1) as nat)
    }
}

/// The wave number goes up by one with every wave that comes, but for the
/// very first, which keeps its number. This holds as long as the wave
/// numbers stay below the highest there is.
pub proof fn lemma_wave_number(count: int, first: bool, spawns: nat)
    requires
        count + spawns <= MAX_WAVE,
    ensures
        count_after_spawns(count, first, spawns) == if spawns == 0 {
            count
        } else if first {
            count + spawns - 1
        } else {
            count + spawns
        },
    decreases spawns,
{
    if spawns > 0 {
        lemma_wave_number(Wave::next_count(count, first), false, (spawns - 1) as nat);
    }
}

impl Default for Wave {
    fn default() -> (w: Wave)
        ensures
            w == Wave::spec_default(),
            w.wf(),
    {
        Wave { count: 1, timer: Timer::from_millis(WAVE_PAUSE_MS) }
    }
}

impl Default for FirstWave {
    fn default() -> (f: FirstWave)
        ensures
            f.0,
    {
        FirstWave(true)
    }
}

impl Default for Score {
    fn default() -> (s: Score)
        ensures
            s.0 == 0,
    {
        Score(0)
    }
}

impl Score {
    /// Adds what slaying `zombie` is worth. The score stops at the largest
    /// number that can be held.
    pub fn increase(&mut self, zombie: &Zombie)
        ensures
            final(self).0 == score_after(old(self).0 as int, zombie.spec_points()),
            old(self).0 + zombie.spec_points() <= i32::MAX ==> final(self).0 - old(self).0
                == zombie.spec_points(),
    {
        let points: i32 = zombie.points();
        if self.0 > i32::MAX - points {
            self.0 = i32::MAX;
        } else {
            self.0 = self.0 + points;
        }
    }
}

impl Default for ZombieCount {
    fn default() -> (c: ZombieCount)
        ensures
            c == ZombieCount::spec_zero(),
    {
        ZombieCount { chaser: 0, crawler: 0, bloater: 0 }
    }
}

impl ZombieCount {
    /// No zombie of any kind.
    pub open spec fn spec_zero() -> ZombieCount {
        ZombieCount { chaser: 0, crawler: 0, bloater: 0 }
    }

    /// Counts that are not negative and whose sum can be held.
    pub open spec fn wf(self) -> bool {
        &&& 0 <= self.chaser
        &&& 0 <= self.crawler
        &&& 0 <= self.bloater
        &&& self.chaser + self.crawler + self.bloater <= i32::MAX
    }

    /// The number of zombies of kind `zombie`.
    pub open spec fn of(self, zombie: Zombie) -> int {
        match zombie {
            Zombie::Chaser => self.chaser as int,
            Zombie::Crawler => self.crawler as int,
            Zombie::Bloater => self.bloater as int,
        }
    }

    /// The number of zombies of all kinds.
    pub open spec fn spec_total(self) -> int {
        self.chaser + self.crawler + self.bloater
    }

    /// The counts after one zombie of kind `zombie` has died. A count that is
    /// at nothing stays there.
    pub open spec fn without_one(self, zombie: Zombie) -> ZombieCount {
        match zombie {
            Zombie::Chaser => ZombieCount {
                chaser: if self.chaser > 0 { (self.chaser - 1) as i32 } else { self.chaser },
                ..self
            },
            Zombie::Crawler => ZombieCount {
                crawler: if self.crawler > 0 { (self.crawler - 1) as i32 } else { self.crawler },
                ..self
            },
            Zombie::Bloater => ZombieCount {
                bloater: if self.bloater > 0 { (self.bloater - 1) as i32 } else { self.bloater },
                ..self
            },
        }
    }

    /// Whether these counts may open wave number `wave`: from one to three
    /// chasers, to two crawlers and to one bloater for each wave so far.
    pub open spec fn fits_wave(self, wave: int) -> bool {
        &&& 1 <= self.chaser <= 3 * wave
        &&& 1 <= self.crawler <= 2 * wave
        &&& 1 <= self.bloater <= wave
    }

    /// The kind of the zombie that stands at place `i` of a wave with these
    /// counts: the chasers come first, then the crawlers, then the bloaters.
    pub open spec fn kind_at(self, i: int) -> Zombie {
        if i < self.chaser {
            Zombie::Chaser
        } else if i < self.chaser + self.crawler {
            Zombie::Crawler
        } else {
            Zombie::Bloater
        }
    }

    /// The counts with no zombie of any kind.
    pub fn zero() -> (c: ZombieCount)
        ensures
            c == ZombieCount::spec_zero(),
    {
        ZombieCount { chaser: 0, crawler: 0, bloater: 0 }
    }

    /// Whether no zombie is left.
    pub fn is_zero(&self) -> (z: bool)
        ensures
            z == (*self == ZombieCount::spec_zero()),
    {
        self.chaser == 0 && self.crawler == 0 && self.bloater == 0
    }

    /// The number of zombies of all kinds.
    pub fn total(&self) -> (t: i32)
        requires
            self.wf(),
        ensures
            t == self.spec_total(),
    {
        self.chaser + self.crawler + self.bloater
    }

    /// Takes one zombie of kind `zombie` off the counts.
    pub fn decrease_count(&mut self, zombie: &Zombie)
        ensures
            *final(self) == old(self).without_one(*zombie),
            old(self).wf() ==> final(self).wf(),
    {
        match zombie {
            Zombie::Chaser => {
                if self.chaser > 0 {
                    self.chaser = self.chaser - 1;
                }
            },
            Zombie::Crawler => {
                if self.crawler > 0 {
                    self.crawler = self.crawler - 1;
                }
            },
            Zombie::Bloater => {
                if self.bloater > 0 {
                    self.bloater = self.bloater - 1;
                }
            },
        }
    }
}

/// The director's state as play begins: wave one with its full pause ahead,
/// no zombie counted, no wave come yet, no score.
pub fn init_wave_stats() -> (s: WaveStats)
    ensures
        s == (WaveStats {
            wave: Wave::spec_default(),
            zombie_count: ZombieCount::spec_zero(),
            first_wave: FirstWave(true),
            score: Score(0),
        }),
{
    WaveStats {
        wave: Wave::default(),
        zombie_count: ZombieCount::default(),
        first_wave: FirstWave::default(),
        score: Score::default(),
    }
}

/// Whether `z` is a new zombie of kind `zombie` that stands somewhere on the
/// ground within `bounds`.
pub open spec fn spawned_within(z: ZombieBundle, zombie: Zombie, bounds: MapBounds) -> bool {
    &&& z.is_new(zombie, z.position)
    &&& bounds.holds(z.position.x as int, z.position.y as int)
}

/// Whether `horde` is a wave with the head counts `count`, each zombie new
/// and on the ground: first the chasers, then the crawlers, then the bloaters.
pub open spec fn is_horde(horde: Seq<ZombieBundle>, count: ZombieCount, bounds: MapBounds) -> bool {
    &&& horde.len() == count.spec_total()
    &&& forall|i: int|
        0 <= i < horde.len() ==> spawned_within(#[trigger] horde[i], count.kind_at(i), bounds)
}

/// Draws the head counts that open wave number `wave`.
pub fn draw_counts(wave: i32) -> (count: ZombieCount)
    requires
        1 <= wave <= MAX_WAVE,
    ensures
        count.fits_wave(wave as int),
        count.wf(),
        count.spec_total() >= 3,
{
    let chaser: i32 = draw_between(1, wave * 3);
    let crawler: i32 = draw_between(1, wave * 2);
    let bloater: i32 = draw_between(1, wave);
    ZombieCount { chaser, crawler, bloater }
}

/// Draws a place on the ground within `bounds`.
pub fn draw_position(bounds: &MapBounds) -> (pos: Vec2)
    requires
        bounds.wf(),
    ensures
        bounds.holds(pos.x as int, pos.y as int),
{
    let w: i32 = bounds.half_width();
    let h: i32 = bounds.half_height();
    let x: i32 = draw_between(-w, w - 1);
    let y: i32 = draw_between(-h, h - 1);
    Vec2 { x, y }
}

/// Adds `n` new zombies of kind `zombie` to `horde`, each at a place drawn
/// on the ground within `bounds`.
pub fn spawn_kind(zombie: Zombie, n: i32, bounds: &MapBounds, horde: &mut Vec<ZombieBundle>)
    requires
        bounds.wf(),
        0 <= n,
    ensures
        final(horde)@.len() == old(horde)@.len() + n,
        forall|i: int| 0 <= i < old(horde)@.len() ==> final(horde)@[i] == old(horde)@[i],
        forall|i: int|
            old(horde)@.len() <= i < final(horde)@.len() ==> spawned_within(
                #[trigger] final(horde)@[i],
                zombie,
                *bounds,
            ),
{
    let mut k: i32 = 0;
    while k < n
        invariant
            bounds.wf(),
            0 <= k <= n,
            horde@.len() == old(horde)@.len() + k,
            forall|i: int| 0 <= i < old(horde)@.len() ==> horde@[i] == old(horde)@[i],
            forall|i: int|
                old(horde)@.len() <= i < horde@.len() ==> spawned_within(
                    #[trigger] horde@[i],
                    zombie,
                    *bounds,
                ),
        decreases n - k,
    {
        let pos: Vec2 = draw_position(bounds);
        let z: ZombieBundle = ZombieBundle::of_kind(zombie, pos);
        horde.push(z);
        k = k + 1;
    }
}

/// Makes the zombies of a wave with the head counts `count`.
pub fn spawn_horde(count: &ZombieCount, bounds: &MapBounds) -> (horde: Vec<ZombieBundle>)
    requires
        count.wf(),
        bounds.wf(),
    ensures
        is_horde(horde@, *count, *bounds),
{
    let mut horde: Vec<ZombieBundle> = Vec::new();
    spawn_kind(Zombie::Chaser, count.chaser, bounds, &mut horde);
    spawn_kind(Zombie::Crawler, count.crawler, bounds, &mut horde);
    spawn_kind(Zombie::Bloater, count.bloater, bounds, &mut horde);
    horde
}

/// One step of the director, `dt_ms` milliseconds after the last.
///
/// While zombies are left nothing happens at all. Once none is left the
/// pause runs. When the pause is over and the ground's bounds are known, a
/// wave comes: its head counts are drawn for the current wave number and
/// written to `zombie_count`, its zombies are returned, the pause starts
/// anew, and the wave number goes up by one unless this was the first wave.
/// Without bounds no wave comes, and the pause stays over until they are known.
pub fn generate_wave(
    wave: &mut Wave,
    zombie_count: &mut ZombieCount,
    first_wave: &mut FirstWave,
    map_bounds: Option<&MapBounds>,
    dt_ms: u64,
) -> (horde: Option<Vec<ZombieBundle>>)
    requires
        old(wave).wf(),
        map_bounds is Some ==> map_bounds->0.wf(),
    ensures
        horde is Some <==> (*old(zombie_count) == ZombieCount::spec_zero() && map_bounds is Some
            && old(wave).timer.after_tick(dt_ms).spec_finished()),
        *old(zombie_count) != ZombieCount::spec_zero() ==> *final(wave) == *old(wave),
        *old(zombie_count) == ZombieCount::spec_zero() && horde is None ==> *final(wave) == (Wave {
            timer: old(wave).timer.after_tick(dt_ms),
            ..*old(wave)
        }),
        horde is None ==> *final(zombie_count) == *old(zombie_count) && *final(first_wave) == *old(
            first_wave,
        ),
        horde is Some ==> {
            &&& final(zombie_count).fits_wave(old(wave).count as int)
            &&& final(zombie_count).wf()
            &&& final(zombie_count).spec_total() >= 3
            &&& is_horde(horde->0@, *final(zombie_count), *map_bounds->0)
            &&& final(wave).count == Wave::next_count(old(wave).count as int, old(first_wave).0)
            &&& final(wave).timer == old(wave).timer.after_tick(dt_ms).after_reset()
            &&& !final(first_wave).0
        },
        final(wave).wf(),
{
    if !zombie_count.is_zero() {
        return None;
    }
    wave.timer.tick(dt_ms);
    if !wave.timer.finished() {
        return None;
    }
    let bounds: &MapBounds = match map_bounds {
        Some(b) => b,
        None => {
            return None;
        },
    };
    let count: ZombieCount = draw_counts(wave.count);
    let horde: Vec<ZombieBundle> = spawn_horde(&count, bounds);
    *zombie_count = count;
    wave.advance(first_wave);
    Some(horde)
}

} // verus!

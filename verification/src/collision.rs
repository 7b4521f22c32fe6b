//! Boxes that meet, and what follows when they do: bullets wound zombies,
//! the slain leave blood and sometimes a pickup, the survivour gathers
//! pickups, and blood and pickups fade when their time is up.

use vstd::prelude::*;
use crate::combat::MAX_SURVIVOUR_HEALTH;
use crate::geometry::{saturate, saturate_coord, Heading, Vec2};
use crate::powerups::{
    Pickup, PowerUp, PowerupSpawnChance, PowerupTimer, HEALTH_PICKUP_HEIGHT, HEALTH_PICKUP_WIDTH,
    PICKUP_SLIDE, POWERUP_LIFETIME_MS,
};
use crate::random::draw_between;
use crate::survivour::{BulletBundle, Survivour};
use crate::timer::Timer;
use crate::waves::{score_after, Score, ZombieCount};
use crate::zombies::ZombieBundle;

verus! {

/// How long blood stays on the ground, in milliseconds.
pub const BLOOD_LIFETIME_MS: u64 = 10_000;

/// The width and height of a box that is centred on its owner's position.
#[derive(Clone, Copy, Debug, PartialEq, Eq, Structural)]
pub struct CollisionSize(pub Vec2);

/// The time a mark of blood has left.
#[derive(Clone, Copy, Debug, PartialEq, Eq, Structural)]
pub struct BloodTimer(pub Timer);

/// Whether two boxes, each centred on its position, share some area. Boxes
/// that only touch along an edge do not.
pub open spec fn overlaps(a_pos: Vec2, a_size: Vec2, b_pos: Vec2, b_size: Vec2) -> bool {
    &&& 2 * a_pos.x - a_size.x < 2 * b_pos.x + b_size.x
    &&& 2 * a_pos.x + a_size.x > 2 * b_pos.x - b_size.x
    &&& 2 * a_pos.y - a_size.y < 2 * b_pos.y + b_size.y
    &&& 2 * a_pos.y + a_size.y > 2 * b_pos.y - b_size.y
}

/// Whether two boxes, each centred on its position, share some area.
pub fn collide(a_pos: Vec2, a_size: Vec2, b_pos: Vec2, b_size: Vec2) -> (hit: bool)
    ensures
        hit == overlaps(a_pos, a_size, b_pos, b_size),
{
    let ax: i64 = 2 * (a_pos.x as i64);
    let ay: i64 = 2 * (a_pos.y as i64);
    let bx: i64 = 2 * (b_pos.x as i64);
    let by: i64 = 2 * (b_pos.y as i64);
    let aw: i64 = a_size.x as i64;
    let ah: i64 = a_size.y as i64;
    let bw: i64 = b_size.x as i64;
    let bh: i64 = b_size.y as i64;
    ax - aw < bx + bw && ax + aw > bx - bw && ay - ah < by + bh && ay + ah > by - bh
}

/// A zombie slain by a bullet: their places among the zombies and the
/// bullets that met.
#[derive(Clone, Copy, Debug, PartialEq, Eq, Structural)]
pub struct Kill {
    pub zombie: usize,
    pub bullet: usize,
}

/// What a meeting of zombies and bullets leaves behind: for each bullet
/// whether it is spent, and the kills in the order in which they fell.
#[derive(Debug)]
pub struct Hits {
    pub spent: Vec<bool>,
    pub kills: Vec<Kill>,
}

/// The state of a meeting of zombies and bullets while it is worked through.
pub struct Tally {
    pub zombies: Seq<ZombieBundle>,
    pub spent: Seq<bool>,
    pub count: ZombieCount,
    pub score: Score,
    pub kills: Seq<Kill>,
}

/// The zombie `z` with one point of health less.
pub open spec fn wounded(z: ZombieBundle) -> ZombieBundle {
    ZombieBundle {
        combat_bundle: crate::combat::CombatBundle {
            health: crate::combat::Health((z.combat_bundle.health.0 - 1) as i32),
            ..z.combat_bundle
        },
        ..z
    }
}

impl Tally {
    /// The state before anything has met: no bullet spent, nobody slain.
    pub open spec fn start(
        zombies: Seq<ZombieBundle>,
        bullets: nat,
        count: ZombieCount,
        score: Score,
    ) -> Tally {
        Tally { zombies, spent: Seq::new(bullets, |j: int| false), count, score, kills: Seq::empty() }
    }

    /// Whether zombie `i` and bullet `j` strike each other: the zombie is
    /// alive, the bullet is not spent, and their boxes overlap.
    pub open spec fn strikes(self, bullets: Seq<BulletBundle>, i: int, j: int) -> bool {
        &&& self.zombies[i].alive()
        &&& !self.spent[j]
        &&& overlaps(
            self.zombies[i].position,
            self.zombies[i].collision_size.0,
            bullets[j].position,
            bullets[j].collision_size.0,
        )
    }

    /// The state after zombie `i` and bullet `j` have been held against each
    /// other. If they strike, the bullet is spent and the zombie loses one
    /// point of health; if that was its last, it is slain: it leaves the
    /// head count, its worth goes to the score, and the kill is noted.
    pub open spec fn strike(self, bullets: Seq<BulletBundle>, i: int, j: int) -> Tally {
        if self.strikes(bullets, i, j) {
            let z = wounded(self.zombies[i]);
            let hit = Tally {
                zombies: self.zombies.update(i, z),
                spent: self.spent.update(j, true),
                ..self
            };
            if z.alive() {
                hit
            } else {
                Tally {
                    count: self.count.without_one(z.zombie),
                    score: Score(
                        score_after(self.score.0 as int, z.zombie.spec_points()) as i32,
                    ),
                    kills: self.kills.push(Kill { zombie: i as usize, bullet: j as usize }),
                    ..hit
                }
            }
        } else {
            self
        }
    }

    /// The state after zombie `i` has been held against the first `j` bullets.
    pub open spec fn after_bullets(self, bullets: Seq<BulletBundle>, i: int, j: int) -> Tally
        decreases j,
    {
        if j <= 0 {
            self
        } else {
            self.after_bullets(bullets, i, j - 1).strike(bullets, i, j - 1)
        }
    }

    /// The state after each of the first `i` zombies, in turn, has been held
    /// against every bullet.
    pub open spec fn after_zombies(self, bullets: Seq<BulletBundle>, i: int) -> Tally
        decreases i,
    {
        if i <= 0 {
            self
        } else {
            self.after_zombies(bullets, i - 1).after_bullets(bullets, i - 1, bullets.len() as int)
        }
    }

    /// Whether the state holds exactly these values.
    pub open spec fn holds(
        self,
        zombies: Seq<ZombieBundle>,
        spent: Seq<bool>,
        count: ZombieCount,
        score: Score,
        kills: Seq<Kill>,
    ) -> bool {
        &&& self.zombies == zombies
        &&& self.spent == spent
        &&& self.count == count
        &&& self.score == score
        &&& self.kills == kills
    }

    /// Strikes change neither how many zombies and bullets there are, nor
    /// where a zombie stands, nor anything of it but its health.
    pub proof fn lemma_strike_keeps_shape(self, bullets: Seq<BulletBundle>, i: int, j: int)
        requires
            0 <= i < self.zombies.len(),
            0 <= j < self.spent.len(),
        ensures
            self.strike(bullets, i, j).zombies.len() == self.zombies.len(),
            self.strike(bullets, i, j).spent.len() == self.spent.len(),
    {
    }

    /// Working through bullets keeps the numbers of zombies and bullets.
    pub proof fn lemma_after_bullets_keeps_shape(self, bullets: Seq<BulletBundle>, i: int, j: int)
        requires
            0 <= i < self.zombies.len(),
            0 <= j <= self.spent.len(),
        ensures
            self.after_bullets(bullets, i, j).zombies.len() == self.zombies.len(),
            self.after_bullets(bullets, i, j).spent.len() == self.spent.len(),
        decreases j,
    {
        if j > 0 {
            self.lemma_after_bullets_keeps_shape(bullets, i, j - 1);
            self.after_bullets(bullets, i, j - 1).lemma_strike_keeps_shape(bullets, i, j - 1);
        }
    }

    /// Working through zombies keeps the numbers of zombies and bullets.
    pub proof fn lemma_after_zombies_keeps_shape(self, bullets: Seq<BulletBundle>, i: int)
        requires
            0 <= i <= self.zombies.len(),
            bullets.len() == self.spent.len(),
        ensures
            self.after_zombies(bullets, i).zombies.len() == self.zombies.len(),
            self.after_zombies(bullets, i).spent.len() == self.spent.len(),
        decreases i,
    {
        if i > 0 {
            self.lemma_after_zombies_keeps_shape(bullets, i - 1);
            self.after_zombies(bullets, i - 1).lemma_after_bullets_keeps_shape(
                bullets,
                i - 1,
                bullets.len() as int,
            );
        }
    }
}

/// The zombie `z` with `health` points of health.
pub open spec fn with_health(z: ZombieBundle, health: int) -> ZombieBundle {
    ZombieBundle {
        combat_bundle: crate::combat::CombatBundle {
            health: crate::combat::Health(health as i32),
            ..z.combat_bundle
        },
        ..z
    }
}

/// The head counts after the kills at places `lo` up to `hi` have each taken
/// one zombie of the kind slain off the counts.
pub open spec fn reckoned_count(
    count: ZombieCount,
    zombies: Seq<ZombieBundle>,
    kills: Seq<Kill>,
    lo: int,
    hi: int,
) -> ZombieCount
    decreases hi - lo,
{
    if hi <= lo {
        count
    } else {
        reckoned_count(count, zombies, kills, lo, hi - 1).without_one(
            zombies[kills[hi - 1].zombie as int].zombie,
        )
    }
}

/// The score after the kills at places `lo` up to `hi` have each added the
/// worth of the kind slain.
pub open spec fn reckoned_score(
    score: int,
    zombies: Seq<ZombieBundle>,
    kills: Seq<Kill>,
    lo: int,
    hi: int,
) -> int
    decreases hi - lo,
{
    if hi <= lo {
        score
    } else {
        score_after(
            reckoned_score(score, zombies, kills, lo, hi - 1),
            zombies[kills[hi - 1].zombie as int].zombie.spec_points(),
        )
    }
}

/// The reckoning looks only at the kills between `lo` and `hi`.
pub proof fn lemma_reckoned_prefix(
    count: ZombieCount,
    score: int,
    zombies: Seq<ZombieBundle>,
    a: Seq<Kill>,
    b: Seq<Kill>,
    lo: int,
    hi: int,
)
    requires
        0 <= lo,
        hi <= a.len(),
        hi <= b.len(),
        forall|q: int| lo <= q < hi ==> a[q] == b[q],
    ensures
        reckoned_count(count, zombies, a, lo, hi) == reckoned_count(count, zombies, b, lo, hi),
        reckoned_score(score, zombies, a, lo, hi) == reckoned_score(score, zombies, b, lo, hi),
    decreases hi - lo,
{
    if hi > lo {
        lemma_reckoned_prefix(count, score, zombies, a, b, lo, hi - 1);
    }
}

impl Tally {
    /// The health of zombie `k`.
    pub open spec fn health_of(self, k: int) -> int {
        self.zombies[k].combat_bundle.health.0 as int
    }

    /// Whether the kill at place `q` was made on the way from `start` to
    /// `self`: a zombie that was alive then and has no health now, felled by
    /// a bullet that was unspent then and is spent now.
    pub open spec fn made_kill(self, start: Tally, q: int) -> bool {
        let kill = self.kills[q];
        &&& kill.zombie < self.zombies.len()
        &&& kill.bullet < self.spent.len()
        &&& start.health_of(kill.zombie as int) > 0
        &&& self.health_of(kill.zombie as int) == 0
        &&& !start.spent[kill.bullet as int]
        &&& self.spent[kill.bullet as int]
    }

    /// What holds of every state that strikes can make of `start`.
    ///
    /// A zombie changes in nothing but its health. A zombie that was alive
    /// has lost some health or none, and never more than it had; one that
    /// was not is left alone. A spent bullet stays spent. The kills noted
    /// before are still there; each kill since is of another zombie by
    /// another bullet, and every zombie that lost its last health is
    /// among them. Each kill since has taken one zombie of its kind off the
    /// head counts and added its worth to the score, and nothing else has
    /// touched them.
    pub open spec fn follows(self, start: Tally) -> bool {
        &&& self.count == reckoned_count(
            start.count,
            start.zombies,
            self.kills,
            start.kills.len() as int,
            self.kills.len() as int,
        )
        &&& self.score.0 == reckoned_score(
            start.score.0 as int,
            start.zombies,
            self.kills,
            start.kills.len() as int,
            self.kills.len() as int,
        )
        &&& self.zombies.len() == start.zombies.len()
        &&& self.spent.len() == start.spent.len()
        &&& forall|k: int|
            0 <= k < self.zombies.len() ==> #[trigger] self.zombies[k] == with_health(
                start.zombies[k],
                self.health_of(k),
            )
        &&& forall|k: int|
            0 <= k < self.zombies.len() && start.health_of(k) > 0 ==> 0 <= #[trigger] self.health_of(k)
                <= start.health_of(k)
        &&& forall|k: int|
            0 <= k < self.zombies.len() && start.health_of(k) <= 0 ==> #[trigger] self.health_of(k)
                == start.health_of(k)
        &&& forall|j: int| 0 <= j < self.spent.len() && start.spent[j] ==> #[trigger] self.spent[j]
        &&& start.kills.len() <= self.kills.len()
        &&& forall|q: int| 0 <= q < start.kills.len() ==> #[trigger] self.kills[q] == start.kills[q]
        &&& forall|q: int|
            start.kills.len() <= q < self.kills.len() ==> #[trigger] self.made_kill(start, q)
        &&& forall|p: int, q: int|
            start.kills.len() <= p < q < self.kills.len() ==> (#[trigger] self.kills[p]).zombie != (
            #[trigger] self.kills[q]).zombie && self.kills[p].bullet != self.kills[q].bullet
        &&& forall|k: int|
            0 <= k < self.zombies.len() && start.health_of(k) > 0 && #[trigger] self.health_of(k) == 0
                ==> exists|q: int|
                start.kills.len() <= q < self.kills.len() && (#[trigger] self.kills[q]).zombie == k
    }

    /// A strike takes exactly one point of health from exactly one living
    /// zombie and spends exactly one unspent bullet, or changes nothing.
    pub proof fn lemma_strike(self, bullets: Seq<BulletBundle>, i: int, j: int)
        requires
            0 <= i < self.zombies.len(),
            0 <= j < self.spent.len(),
        ensures
            ({
                let after = self.strike(bullets, i, j);
                &&& after.zombies.len() == self.zombies.len()
                &&& after.spent.len() == self.spent.len()
                &&& forall|k: int|
                    0 <= k < self.zombies.len() && k != i ==> after.zombies[k] == self.zombies[k]
                &&& forall|k: int| 0 <= k < self.spent.len() && k != j ==> after.spent[k] == self.spent[k]
                &&& after.zombies[i] == with_health(self.zombies[i], after.health_of(i))
                &&& if self.strikes(bullets, i, j) {
                    &&& self.health_of(i) > 0
                    &&& after.health_of(i) == self.health_of(i) - 1
                    &&& !self.spent[j]
                    &&& after.spent[j]
                } else {
                    after == self
                }
            }),
    {
    }

    /// A strike keeps what holds of the states that follow `start`.
    pub proof fn lemma_strike_follows(self, start: Tally, bullets: Seq<BulletBundle>, i: int, j: int)
        requires
            self.follows(start),
            0 <= i < self.zombies.len() <= usize::MAX,
            0 <= j < self.spent.len() <= usize::MAX,
        ensures
            self.strike(bullets, i, j).follows(start),
    {
        let after = self.strike(bullets, i, j);
        self.lemma_strike(bullets, i, j);
        if self.strikes(bullets, i, j) {
            assert(self.zombies[i] == with_health(start.zombies[i], self.health_of(i)));
            assert(self.health_of(i) > 0);
            assert(start.health_of(i) > 0);
            lemma_reckoned_prefix(
                start.count,
                start.score.0 as int,
                start.zombies,
                self.kills,
                after.kills,
                start.kills.len() as int,
                self.kills.len() as int,
            );
            assert forall|k: int| 0 <= k < after.zombies.len() implies #[trigger] after.zombies[k]
                == with_health(start.zombies[k], after.health_of(k)) by {
                assert(self.zombies[k] == with_health(start.zombies[k], self.health_of(k)));
            }
            assert forall|k: int|
                0 <= k < after.zombies.len() && start.health_of(k) > 0 implies 0
                <= #[trigger] after.health_of(k) <= start.health_of(k) by {
                assert(0 <= self.health_of(k) <= start.health_of(k));
            }
            assert forall|k: int|
                0 <= k < after.zombies.len() && start.health_of(k) <= 0 implies #[trigger] after.health_of(
                k,
            ) == start.health_of(k) by {
                assert(self.health_of(k) == start.health_of(k));
            }
            assert forall|q: int| 0 <= q < start.kills.len() implies #[trigger] after.kills[q]
                == start.kills[q] by {
                assert(self.kills[q] == start.kills[q]);
            }
            assert forall|q: int| start.kills.len() <= q < after.kills.len() implies #[trigger] after.made_kill(
                start,
                q,
            ) by {
                if q < self.kills.len() {
                    assert(self.made_kill(start, q));
                    assert(after.kills[q] == self.kills[q]);
                    assert(self.kills[q].zombie != i);
                }
            }
            assert forall|p: int, q: int| start.kills.len() <= p < q < after.kills.len() implies (
            #[trigger] after.kills[p]).zombie != (#[trigger] after.kills[q]).zombie
                && after.kills[p].bullet != after.kills[q].bullet by {
                assert(self.made_kill(start, p));
                assert(after.kills[p] == self.kills[p]);
                if q < self.kills.len() {
                    assert(after.kills[q] == self.kills[q]);
                }
            }
            assert forall|k: int|
                0 <= k < after.zombies.len() && start.health_of(k) > 0 && #[trigger] after.health_of(k)
                    == 0 implies exists|q: int|
                start.kills.len() <= q < after.kills.len() && (#[trigger] after.kills[q]).zombie
                    == k by {
                if k == i {
                    let q = after.kills.len() - 1;
                    assert(after.kills[q].zombie == k);
                } else {
                    assert(self.health_of(k) == 0);
                    let q = choose|q: int|
                        start.kills.len() <= q < self.kills.len() && (#[trigger] self.kills[q]).zombie
                            == k;
                    assert(after.kills[q].zombie == k);
                }
            }
        }
    }

    /// Holding a zombie against the bullets keeps what holds of the states
    /// that follow `start`.
    pub proof fn lemma_after_bullets_follows(
        self,
        start: Tally,
        bullets: Seq<BulletBundle>,
        i: int,
        j: int,
    )
        requires
            self.follows(start),
            0 <= i < self.zombies.len() <= usize::MAX,
            0 <= j <= self.spent.len() <= usize::MAX,
        ensures
            self.after_bullets(bullets, i, j).follows(start),
        decreases j,
    {
        if j > 0 {
            self.lemma_after_bullets_follows(start, bullets, i, j - 1);
            self.after_bullets(bullets, i, j - 1).lemma_strike_follows(start, bullets, i, j - 1);
        }
    }

    /// However the zombies and the bullets meet, no zombie is wounded below
    /// nothing, none is slain twice, and a zombie that was dead before takes
    /// no part.
    pub proof fn lemma_after_zombies_follows(self, bullets: Seq<BulletBundle>, i: int)
        requires
            0 <= i <= self.zombies.len() <= usize::MAX,
            bullets.len() == self.spent.len() <= usize::MAX,
        ensures
            self.after_zombies(bullets, i).follows(self),
        decreases i,
    {
        if i > 0 {
            self.lemma_after_zombies_follows(bullets, i - 1);
            self.after_zombies(bullets, i - 1).lemma_after_bullets_follows(
                self,
                bullets,
                i - 1,
                bullets.len() as int,
            );
        }
    }
}

/// Lets the bullets wound the zombies.
///
/// Each zombie in turn is held against each bullet in turn. A living zombie
/// whose box overlaps that of an unspent bullet is struck: the bullet is
/// spent and the zombie loses one point of health. A bullet strikes once; a
/// zombie that has lost its last point is slain and struck no more. For each
/// zombie slain its kind's count goes down by one and its worth is added to
/// the score. The zombies stay in place, the slain among them with no health
/// left; `Hits` tells which bullets are spent and who was slain by which.
pub fn collision_zombies_bullets(
    zombies: &mut Vec<ZombieBundle>,
    bullets: &Vec<BulletBundle>,
    zombie_count: &mut ZombieCount,
    score: &mut Score,
) -> (hits: Hits)
    ensures
        Tally::start(
            old(zombies)@,
            bullets@.len(),
            *old(zombie_count),
            *old(score),
        ).after_zombies(bullets@, old(zombies)@.len() as int).holds(
            final(zombies)@,
            hits.spent@,
            *final(zombie_count),
            *final(score),
            hits.kills@,
        ),
        (Tally {
            zombies: final(zombies)@,
            spent: hits.spent@,
            count: *final(zombie_count),
            score: *final(score),
            kills: hits.kills@,
        }).follows(Tally::start(old(zombies)@, bullets@.len(), *old(zombie_count), *old(score))),
        final(zombies)@.len() == old(zombies)@.len(),
        hits.spent@.len() == bullets@.len(),
        old(zombie_count).wf() ==> final(zombie_count).wf(),
{
    let n: usize = zombies.len();
    let m: usize = bullets.len();
    let mut spent: Vec<bool> = Vec::new();
    let mut j: usize = 0;
    while j < m
        invariant
            0 <= j <= m,
            spent@.len() == j,
            forall|k: int| 0 <= k < j ==> !#[trigger] spent@[k],
        decreases m - j,
    {
        spent.push(false);
        j = j + 1;
    }
    let mut kills: Vec<Kill> = Vec::new();
    let ghost start = Tally::start(old(zombies)@, bullets@.len(), *old(zombie_count), *old(score));
    proof {
        assert(start.spent =~= spent@);
        assert(start.kills =~= kills@);
    }
    let mut i: usize = 0;
    while i < n
        invariant
            0 <= i <= n,
            n == zombies@.len(),
            n == old(zombies)@.len(),
            m == bullets@.len(),
            m == spent@.len(),
            start.zombies.len() == n,
            start.spent.len() == m,
            old(zombie_count).wf() ==> zombie_count.wf(),
            start.after_zombies(bullets@, i as int).holds(
                zombies@,
                spent@,
                *zombie_count,
                *score,
                kills@,
            ),
        decreases n - i,
    {
        let ghost row = start.after_zombies(bullets@, i as int);
        let mut j: usize = 0;
        while j < m
            invariant
                0 <= j <= m,
                0 <= i < n,
                n == zombies@.len(),
                m == bullets@.len(),
                m == spent@.len(),
                row.zombies.len() == n,
                row.spent.len() == m,
                old(zombie_count).wf() ==> zombie_count.wf(),
                row.after_bullets(bullets@, i as int, j as int).holds(
                    zombies@,
                    spent@,
                    *zombie_count,
                    *score,
                    kills@,
                ),
            decreases m - j,
        {
            let ghost before = row.after_bullets(bullets@, i as int, j as int);
            let z: ZombieBundle = zombies[i];
            let b: BulletBundle = bullets[j];
            if z.combat_bundle.health.0 > 0 && !spent[j] && collide(
                z.position,
                z.collision_size.0,
                b.position,
                b.collision_size.0,
            ) {
                let mut struck: ZombieBundle = z;
                struck.combat_bundle.health.0 = z.combat_bundle.health.0 - 1;
                assert(struck == wounded(z));
                zombies.set(i, struck);
                spent.set(j, true);
                if struck.combat_bundle.health.0 <= 0 {
                    zombie_count.decrease_count(&struck.zombie);
                    score.increase(&struck.zombie);
                    kills.push(Kill { zombie: i, bullet: j });
                }
            }
            proof {
                let after = before.strike(bullets@, i as int, j as int);
                assert(after.zombies =~= zombies@);
                assert(after.spent =~= spent@);
                assert(after.kills =~= kills@);
            }
            j = j + 1;
        }
        proof {
            start.lemma_after_zombies_keeps_shape(bullets@, i as int + 1);
        }
        i = i + 1;
    }
    proof {
        start.lemma_after_zombies_follows(bullets@, n as int);
        let end = start.after_zombies(bullets@, n as int);
        assert(end == (Tally {
            zombies: zombies@,
            spent: spent@,
            count: *zombie_count,
            score: *score,
            kills: kills@,
        }));
    }
    Hits { spent, kills }
}

/// For each zombie whether it has no health left.
pub open spec fn fallen(zombies: Seq<ZombieBundle>) -> Seq<bool> {
    Seq::new(zombies.len(), |i: int| !zombies[i].alive())
}

/// A mark of blood on the ground.
#[derive(Clone, Copy, Debug, PartialEq, Eq, Structural)]
pub struct Decal {
    pub position: Vec2,
    pub timer: BloodTimer,
}

impl Decal {
    /// Whether the blood has the lifetime of blood and some of it left.
    pub open spec fn lasts(self) -> bool {
        &&& self.timer.0.spec_duration() == BLOOD_LIFETIME_MS
        &&& !self.timer.0.spec_finished()
        &&& self.timer.0.spec_elapsed() < BLOOD_LIFETIME_MS
    }

    /// Blood is taken away in the very step in which it has lain for its
    /// whole lifetime, and in no step before. Until then each step adds to
    /// the time it has lain. Nothing but the time that passes has a say.
    pub proof fn lemma_fades_on_time(self, dt_ms: u64)
        requires
            self.lasts(),
        ensures
            self.fades(dt_ms) <==> self.timer.0.spec_elapsed() + dt_ms >= BLOOD_LIFETIME_MS,
            !self.fades(dt_ms) ==> self.aged(dt_ms).lasts() && self.aged(
                dt_ms,
            ).timer.0.spec_elapsed() == self.timer.0.spec_elapsed() + dt_ms,
    {
        self.timer.0.lemma_made(dt_ms);
    }

    /// The blood `dt_ms` milliseconds later.
    pub open spec fn aged(self, dt_ms: u64) -> Decal {
        Decal { timer: BloodTimer(self.timer.0.after_tick(dt_ms)), ..self }
    }

    /// Whether the blood's time runs out within the next `dt_ms` milliseconds.
    pub open spec fn fades(self, dt_ms: u64) -> bool {
        self.timer.0.after_tick(dt_ms).spec_just_finished()
    }
}

/// The blood that a slain zombie turns into: it lies where the zombie stood
/// and has its whole time ahead.
pub open spec fn spec_blood_of(zombie: ZombieBundle) -> Decal {
    Decal { position: zombie.position, timer: BloodTimer(Timer::fresh(BLOOD_LIFETIME_MS)) }
}

/// The blood that a slain zombie turns into.
pub fn blood_of(zombie: &ZombieBundle) -> (decal: Decal)
    ensures
        decal == spec_blood_of(*zombie),
{
    Decal { position: zombie.position, timer: BloodTimer(Timer::from_millis(BLOOD_LIFETIME_MS)) }
}

/// Where a pickup that appears at `pos` comes to rest after sliding the way
/// the bullet flew.
pub open spec fn slid(pos: Vec2, heading: Heading) -> Vec2 {
    Vec2 {
        x: saturate(pos.x + PICKUP_SLIDE * heading.x) as i32,
        y: saturate(pos.y + PICKUP_SLIDE * heading.y) as i32,
    }
}

/// The health pickup left by a zombie that fell at `pos` to a bullet flying
/// along `heading`: it lies where the zombie stood and has its whole time ahead.
pub open spec fn health_pickup(pos: Vec2, heading: Heading) -> Pickup {
    Pickup {
        position: pos,
        rest: slid(pos, heading),
        powerup: PowerUp::Health,
        timer: PowerupTimer(Timer::fresh(POWERUP_LIFETIME_MS)),
        collision_size: CollisionSize(Vec2 { x: HEALTH_PICKUP_WIDTH, y: HEALTH_PICKUP_HEIGHT }),
    }
}

/// Decides, by the draw `roll` from 0 to 99, whether a slain zombie leaves a
/// health pickup, and makes it. A pickup is left when the draw lies below
/// the zombie's chance. It appears where the zombie stood.
pub fn health_pickup_spawn(
    power_spawn_chance: &PowerupSpawnChance,
    bullet_heading: &Heading,
    zombie_position: &Vec2,
    roll: u32,
) -> (pickup: Option<Pickup>)
    ensures
        pickup == if power_spawn_chance.spec_grants_health(roll) {
            Some(health_pickup(*zombie_position, *bullet_heading))
        } else {
            None
        },
{
    if power_spawn_chance.grants_health(roll) {
        let dx: i128 = 25 * (bullet_heading.x as i128);
        let dy: i128 = 25 * (bullet_heading.y as i128);
        Some(
            Pickup {
                position: *zombie_position,
                rest: Vec2 {
                    x: saturate_coord(zombie_position.x as i128 + dx),
                    y: saturate_coord(zombie_position.y as i128 + dy),
                },
                powerup: PowerUp::Health,
                timer: PowerupTimer(Timer::from_millis(POWERUP_LIFETIME_MS)),
                collision_size: CollisionSize(
                    Vec2 { x: HEALTH_PICKUP_WIDTH, y: HEALTH_PICKUP_HEIGHT },
                ),
            },
        )
    } else {
        None
    }
}

/// What the kill at place `k` may leave: nothing, or the health pickup of
/// the zombie slain there, and that only where its chance is more than none.
pub open spec fn may_drop(
    drop: Option<Pickup>,
    kill: Kill,
    zombies: Seq<ZombieBundle>,
    bullets: Seq<BulletBundle>,
) -> bool {
    let z = zombies[kill.zombie as int];
    &&& drop is Some ==> drop->0 == health_pickup(z.position, bullets[kill.bullet as int].heading)
    &&& z.powerup_spawn_chance.health == 0 ==> drop is None
    &&& z.powerup_spawn_chance.health >= 100 ==> drop is Some
}

/// Draws, for each kill, whether the slain zombie leaves a health pickup.
/// The result has one entry for each kill, in the same order.
pub fn drop_pickups(
    kills: &Vec<Kill>,
    zombies: &Vec<ZombieBundle>,
    bullets: &Vec<BulletBundle>,
) -> (drops: Vec<Option<Pickup>>)
    requires
        forall|k: int|
            0 <= k < kills@.len() ==> (#[trigger] kills@[k]).zombie < zombies@.len() && kills@[k].bullet
                < bullets@.len(),
    ensures
        drops@.len() == kills@.len(),
        forall|k: int|
            0 <= k < kills@.len() ==> may_drop(#[trigger] drops@[k], kills@[k], zombies@, bullets@),
{
    let mut drops: Vec<Option<Pickup>> = Vec::new();
    let n: usize = kills.len();
    let mut k: usize = 0;
    while k < n
        invariant
            0 <= k <= n,
            n == kills@.len(),
            drops@.len() == k,
            forall|q: int|
                0 <= q < kills@.len() ==> (#[trigger] kills@[q]).zombie < zombies@.len()
                    && kills@[q].bullet < bullets@.len(),
            forall|q: int|
                0 <= q < k ==> may_drop(#[trigger] drops@[q], kills@[q], zombies@, bullets@),
        decreases n - k,
    {
        let kill: Kill = kills[k];
        let z: ZombieBundle = zombies[kill.zombie];
        let b: BulletBundle = bullets[kill.bullet];
        let roll: i32 = draw_between(0, 99);
        let drop: Option<Pickup> = health_pickup_spawn(
            &z.powerup_spawn_chance,
            &b.heading,
            &z.position,
            roll as u32,
        );
        drops.push(drop);
        k = k + 1;
    }
    drops
}

/// How many of the first `n` flags are set.
pub open spec fn count_set(flags: Seq<bool>, n: int) -> int
    decreases n,
{
    if n <= 0 {
        0
    } else {
        count_set(flags, n - 1) + if flags[n - 1] {
            1int
        } else {
            0int
        }
    }
}

/// Health after `n` health pickups: one more for each, up to the
/// survivour's most; health already beyond that is left alone.
pub open spec fn healed_by(health: int, n: int) -> int {
    if health >= MAX_SURVIVOUR_HEALTH {
        health
    } else if health + n > MAX_SURVIVOUR_HEALTH {
        MAX_SURVIVOUR_HEALTH as int
    } else {
        health + n
    }
}

/// Lets the survivour gather every pickup that its box overlaps. Each
/// health pickup gathered gives one point of health back, up to the
/// survivour's most. The result tells for each pickup whether it was
/// gathered. Where the survivour is missing nothing is gathered.
pub fn survivour_health_pickup(
    survivour: Option<&mut Survivour>,
    pickups: &Vec<Pickup>,
) -> (gathered: Vec<bool>)
    ensures
        gathered@.len() == pickups@.len(),
        survivour is None ==> forall|j: int| 0 <= j < pickups@.len() ==> !#[trigger] gathered@[j],
        survivour is Some ==> {
            let before = *old(survivour->0);
            let after = *final(survivour->0);
            &&& forall|j: int|
                0 <= j < pickups@.len() ==> #[trigger] gathered@[j] == overlaps(
                    before.position,
                    before.collision_size.0,
                    pickups@[j].position,
                    pickups@[j].collision_size.0,
                )
            &&& after.combat_bundle.health.0 == healed_by(
                before.combat_bundle.health.0 as int,
                count_set(gathered@, pickups@.len() as int),
            )
            &&& before.combat_bundle.health.in_survivour_range()
                ==> after.combat_bundle.health.in_survivour_range()
            &&& after == Survivour {
                combat_bundle: crate::combat::CombatBundle {
                    health: after.combat_bundle.health,
                    ..before.combat_bundle
                },
                ..before
            }
        },
{
    let mut gathered: Vec<bool> = Vec::new();
    let n: usize = pickups.len();
    let mut j: usize = 0;
    match survivour {
        None => {
            while j < n
                invariant
                    0 <= j <= n,
                    gathered@.len() == j,
                    forall|k: int| 0 <= k < j ==> !#[trigger] gathered@[k],
                decreases n - j,
            {
                gathered.push(false);
                j = j + 1;
            }
        },
        Some(s) => {
            let ghost before = *s;
            while j < n
                invariant
                    0 <= j <= n,
                    n == pickups@.len(),
                    gathered@.len() == j,
                    forall|k: int|
                        0 <= k < j ==> #[trigger] gathered@[k] == overlaps(
                            before.position,
                            before.collision_size.0,
                            pickups@[k].position,
                            pickups@[k].collision_size.0,
                        ),
                    s.combat_bundle.health.0 == healed_by(
                        before.combat_bundle.health.0 as int,
                        count_set(gathered@, j as int),
                    ),
                    0 <= count_set(gathered@, j as int) <= j,
                    *s == (Survivour {
                        combat_bundle: crate::combat::CombatBundle {
                            health: s.combat_bundle.health,
                            ..before.combat_bundle
                        },
                        ..before
                    }),
                decreases n - j,
            {
                let p: Pickup = pickups[j];
                let ghost prior = gathered@;
                let met: bool = collide(
                    s.position,
                    s.collision_size.0,
                    p.position,
                    p.collision_size.0,
                );
                if met {
                    match p.powerup {
                        PowerUp::Health => {
                            s.combat_bundle.health.heal();
                        },
                    }
                }
                gathered.push(met);
                proof {
                    lemma_count_set_prefix(prior, gathered@, j as int);
                }
                j = j + 1;
            }
        },
    }
    gathered
}

/// Flags that agree on their first `n` places have the same number set there.
pub proof fn lemma_count_set_prefix(a: Seq<bool>, b: Seq<bool>, n: int)
    requires
        n <= a.len(),
        n <= b.len(),
        forall|k: int| 0 <= k < n ==> a[k] == b[k],
    ensures
        count_set(a, n) == count_set(b, n),
    decreases n,
{
    if n > 0 {
        lemma_count_set_prefix(a, b, n - 1);
    }
}

/// One step of every mark of blood: its time runs on by `dt_ms`
/// milliseconds. The result marks the blood whose time ran out during this
/// very step, which is the blood to take away.
pub fn despawn_blood(blood: &mut Vec<Decal>, dt_ms: u64) -> (gone: Vec<bool>)
    ensures
        final(blood)@.len() == old(blood)@.len(),
        gone@.len() == old(blood)@.len(),
        forall|i: int|
            0 <= i < old(blood)@.len() ==> #[trigger] final(blood)@[i] == old(blood)@[i].aged(dt_ms),
        forall|i: int|
            0 <= i < old(blood)@.len() ==> #[trigger] gone@[i] == old(blood)@[i].fades(dt_ms),
{
    let mut gone: Vec<bool> = Vec::new();
    let n: usize = blood.len();
    let mut i: usize = 0;
    while i < n
        invariant
            0 <= i <= n,
            n == blood@.len(),
            n == old(blood)@.len(),
            gone@.len() == i,
            forall|k: int| 0 <= k < i ==> #[trigger] blood@[k] == old(blood)@[k].aged(dt_ms),
            forall|k: int| 0 <= k < i ==> #[trigger] gone@[k] == old(blood)@[k].fades(dt_ms),
            forall|k: int| i <= k < n ==> blood@[k] == #[trigger] old(blood)@[k],
        decreases n - i,
    {
        let mut d: Decal = blood[i];
        d.timer.0.tick(dt_ms);
        gone.push(d.timer.0.just_finished());
        blood.set(i, d);
        i = i + 1;
    }
    gone
}

/// One step of every pickup on the ground: its time runs on by `dt_ms`
/// milliseconds. The result marks the pickups whose time ran out during
/// this very step, which are the pickups to take away.
pub fn despawn_powerup(pickups: &mut Vec<Pickup>, dt_ms: u64) -> (gone: Vec<bool>)
    ensures
        final(pickups)@.len() == old(pickups)@.len(),
        gone@.len() == old(pickups)@.len(),
        forall|i: int|
            0 <= i < old(pickups)@.len() ==> #[trigger] final(pickups)@[i] == old(
                pickups,
            )@[i].aged(dt_ms),
        forall|i: int|
            0 <= i < old(pickups)@.len() ==> #[trigger] gone@[i] == old(pickups)@[i].fades(dt_ms),
{
    let mut gone: Vec<bool> = Vec::new();
    let n: usize = pickups.len();
    let mut i: usize = 0;
    while i < n
        invariant
            0 <= i <= n,
            n == pickups@.len(),
            n == old(pickups)@.len(),
            gone@.len() == i,
            forall|k: int| 0 <= k < i ==> #[trigger] pickups@[k] == old(pickups)@[k].aged(dt_ms),
            forall|k: int| 0 <= k < i ==> #[trigger] gone@[k] == old(pickups)@[k].fades(dt_ms),
            forall|k: int| i <= k < n ==> pickups@[k] == #[trigger] old(pickups)@[k],
        decreases n - i,
    {
        let mut p: Pickup = pickups[i];
        p.timer.0.tick(dt_ms);
        gone.push(p.timer.0.just_finished());
        pickups.set(i, p);
        i = i + 1;
    }
    gone
}

} // verus!

//! The head counts and the zombies on the ground tell the same story.
//!
//! The director trusts its head counts: it sends the next wave when they
//! stand at nothing. Here it is shown that the counts never part from the
//! zombies that are in fact alive.

use vstd::prelude::*;
use crate::collision::{fallen, Tally};
use crate::sweep::{kept, marked};
use crate::map::MapBounds;
use crate::survivour::BulletBundle;
use crate::waves::{is_horde, ZombieCount};
use crate::zombies::{Zombie, ZombieBundle};

verus! {

/// Whether `z` is a living zombie of kind `kind`.
pub open spec fn counts_as(z: ZombieBundle, kind: Zombie) -> bool {
    z.zombie == kind && z.alive()
}

/// How many of the first `n` zombies are alive and of kind `kind`.
pub open spec fn alive_count(zombies: Seq<ZombieBundle>, kind: Zombie, n: int) -> int
    decreases n,
{
    if n <= 0 {
        0
    } else {
        alive_count(zombies, kind, n - 1) + if counts_as(zombies[n - 1], kind) {
            1int
        } else {
            0int
        }
    }
}

/// Whether the head counts are those of the living among `zombies`.
pub open spec fn counted(count: ZombieCount, zombies: Seq<ZombieBundle>) -> bool {
    &&& count.chaser == alive_count(zombies, Zombie::Chaser, zombies.len() as int)
    &&& count.crawler == alive_count(zombies, Zombie::Crawler, zombies.len() as int)
    &&& count.bloater == alive_count(zombies, Zombie::Bloater, zombies.len() as int)
}

/// No more zombies are counted than there are.
pub proof fn lemma_census_bounds(zombies: Seq<ZombieBundle>, kind: Zombie, n: int)
    requires
        0 <= n,
    ensures
        0 <= alive_count(zombies, kind, n) <= n,
    decreases n,
{
    if n > 0 {
        lemma_census_bounds(zombies, kind, n - 1);
    }
}

/// The count looks at nothing but the kind of each zombie and whether it
/// is alive.
pub proof fn lemma_census_agree(a: Seq<ZombieBundle>, b: Seq<ZombieBundle>, kind: Zombie, n: int)
    requires
        0 <= n <= a.len(),
        n <= b.len(),
        forall|i: int| #![trigger a[i]] 0 <= i < n ==> counts_as(a[i], kind) == counts_as(b[i], kind),
    ensures
        alive_count(a, kind, n) == alive_count(b, kind, n),
    decreases n,
{
    if n > 0 {
        lemma_census_agree(a, b, kind, n - 1);
    }
}

/// Changing one zombie changes the count by what that zombie counted for
/// before and counts for after.
pub proof fn lemma_census_update(
    zombies: Seq<ZombieBundle>,
    i: int,
    z: ZombieBundle,
    kind: Zombie,
    n: int,
)
    requires
        0 <= i < zombies.len(),
        0 <= n <= zombies.len(),
    ensures
        alive_count(zombies.update(i, z), kind, n) == alive_count(zombies, kind, n) + if i < n {
            (if counts_as(z, kind) {
                1int
            } else {
                0int
            }) - (if counts_as(zombies[i], kind) {
                1int
            } else {
                0int
            })
        } else {
            0int
        },
    decreases n,
{
    if n > 0 {
        lemma_census_update(zombies, i, z, kind, n - 1);
    }
}

/// Taking the fallen away leaves the count of the living as it was.
pub proof fn lemma_census_kept(zombies: Seq<ZombieBundle>, kind: Zombie, n: int)
    requires
        0 <= n <= zombies.len(),
    ensures
        ({
            let living = kept(zombies, fallen(zombies), n);
            alive_count(living, kind, living.len() as int) == alive_count(zombies, kind, n)
        }),
    decreases n,
{
    if n > 0 {
        lemma_census_kept(zombies, kind, n - 1);
        let before = kept(zombies, fallen(zombies), n - 1);
        let living = kept(zombies, fallen(zombies), n);
        assert(marked(fallen(zombies), n - 1) == !zombies[n - 1].alive());
        if zombies[n - 1].alive() {
            assert(living == before.push(zombies[n - 1]));
            lemma_census_agree(living, before, kind, before.len() as int);
        }
    }
}

/// The count of two rows of zombies, one behind the other, is the sum of
/// their counts.
pub proof fn lemma_census_concat(a: Seq<ZombieBundle>, b: Seq<ZombieBundle>, kind: Zombie, n: int)
    requires
        0 <= n <= b.len(),
    ensures
        alive_count(a + b, kind, a.len() + n) == alive_count(a, kind, a.len() as int) + alive_count(
            b,
            kind,
            n,
        ),
    decreases n,
{
    if n > 0 {
        lemma_census_concat(a, b, kind, n - 1);
        assert((a + b)[a.len() + n - 1] == b[n - 1]);
    } else {
        lemma_census_agree(a + b, a, kind, a.len() as int);
    }
}

/// How many of the first `n` places of a wave with the head counts `count`
/// belong to zombies of kind `kind`.
pub open spec fn places_of(count: ZombieCount, kind: Zombie, n: int) -> int {
    let (lo, hi) = match kind {
        Zombie::Chaser => (0int, count.chaser as int),
        Zombie::Crawler => (count.chaser as int, count.chaser + count.crawler),
        Zombie::Bloater => (count.chaser + count.crawler, count.chaser + count.crawler + count.bloater),
    };
    if n <= lo {
        0
    } else if n >= hi {
        hi - lo
    } else {
        n - lo
    }
}

/// Among the first `n` zombies of a wave as many are alive and of a kind
/// as places of the wave belong to that kind.
pub proof fn lemma_census_horde_prefix(
    horde: Seq<ZombieBundle>,
    count: ZombieCount,
    bounds: MapBounds,
    kind: Zombie,
    n: int,
)
    requires
        count.wf(),
        is_horde(horde, count, bounds),
        0 <= n <= horde.len(),
    ensures
        alive_count(horde, kind, n) == places_of(count, kind, n),
    decreases n,
{
    if n > 0 {
        lemma_census_horde_prefix(horde, count, bounds, kind, n - 1);
        let z = horde[n - 1];
        assert(crate::waves::spawned_within(z, count.kind_at(n - 1), bounds));
        assert(z.zombie == count.kind_at(n - 1));
        assert(z.alive());
    }
}

/// A wave holds as many living zombies of each kind as its head counts say.
pub proof fn lemma_census_horde(horde: Seq<ZombieBundle>, count: ZombieCount, bounds: MapBounds)
    requires
        count.wf(),
        is_horde(horde, count, bounds),
    ensures
        counted(count, horde),
{
    lemma_census_horde_prefix(horde, count, bounds, Zombie::Chaser, horde.len() as int);
    lemma_census_horde_prefix(horde, count, bounds, Zombie::Crawler, horde.len() as int);
    lemma_census_horde_prefix(horde, count, bounds, Zombie::Bloater, horde.len() as int);
}

impl Tally {
    /// Whether the head counts of the state are those of its living zombies.
    pub open spec fn is_counted(self) -> bool {
        counted(self.count, self.zombies)
    }

    /// A strike keeps the head counts true: a wound leaves the zombie among
    /// the living, and a kill takes it off the ground and off the counts
    /// at once.
    pub proof fn lemma_strike_counted(self, bullets: Seq<BulletBundle>, i: int, j: int)
        requires
            self.is_counted(),
            0 <= i < self.zombies.len(),
            0 <= j < self.spent.len(),
        ensures
            self.strike(bullets, i, j).is_counted(),
    {
        let after = self.strike(bullets, i, j);
        let n = self.zombies.len() as int;
        if self.strikes(bullets, i, j) {
            let z = after.zombies[i];
            lemma_census_update(self.zombies, i, z, Zombie::Chaser, n);
            lemma_census_update(self.zombies, i, z, Zombie::Crawler, n);
            lemma_census_update(self.zombies, i, z, Zombie::Bloater, n);
            lemma_census_bounds(self.zombies.update(i, z), Zombie::Chaser, n);
            lemma_census_bounds(self.zombies.update(i, z), Zombie::Crawler, n);
            lemma_census_bounds(self.zombies.update(i, z), Zombie::Bloater, n);
            assert(after.zombies == self.zombies.update(i, z));
        }
    }

    /// Holding a zombie against the bullets keeps the head counts true.
    pub proof fn lemma_after_bullets_counted(self, bullets: Seq<BulletBundle>, i: int, j: int)
        requires
            self.is_counted(),
            0 <= i < self.zombies.len(),
            0 <= j <= self.spent.len(),
        ensures
            self.after_bullets(bullets, i, j).is_counted(),
        decreases j,
    {
        if j > 0 {
            self.lemma_after_bullets_counted(bullets, i, j - 1);
            self.lemma_after_bullets_keeps_shape(bullets, i, j - 1);
            self.after_bullets(bullets, i, j - 1).lemma_strike_counted(bullets, i, j - 1);
        }
    }

    /// However the zombies and the bullets meet, the head counts stay
    /// those of the living.
    pub proof fn lemma_after_zombies_counted(self, bullets: Seq<BulletBundle>, i: int)
        requires
            self.is_counted(),
            0 <= i <= self.zombies.len(),
            bullets.len() == self.spent.len(),
        ensures
            self.after_zombies(bullets, i).is_counted(),
        decreases i,
    {
        if i > 0 {
            self.lemma_after_zombies_counted(bullets, i - 1);
            self.lemma_after_zombies_keeps_shape(bullets, i - 1);
            self.after_zombies(bullets, i - 1).lemma_after_bullets_counted(
                bullets,
                i - 1,
                bullets.len() as int,
            );
        }
    }
}

} // verus!

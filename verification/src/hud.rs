//! What the heads-up display shows, and whether it has to be drawn anew.

use vstd::prelude::*;
use crate::waves::WaveStats;

verus! {

/// The numbers on the display, as they were last shown.
#[derive(Clone, Copy, Debug, PartialEq, Eq, Structural)]
pub struct Hud {
    pub wave: i32,
    pub zombies_left: i32,
    pub score: i32,
}

/// Which of the numbers on the display differ from those last shown.
#[derive(Clone, Copy, Debug, PartialEq, Eq, Structural)]
pub struct HudChange {
    pub wave: bool,
    pub zombies_left: bool,
    pub score: bool,
}

impl Hud {
    /// The numbers to show for what the director keeps: the wave number,
    /// the zombies of all kinds that are left, and the score.
    pub open spec fn spec_of(stats: WaveStats) -> Hud {
        Hud {
            wave: stats.wave.count,
            zombies_left: stats.zombie_count.spec_total() as i32,
            score: stats.score.0,
        }
    }

    /// The numbers to show for what the director keeps.
    pub fn of(stats: &WaveStats) -> (hud: Hud)
        requires
            stats.zombie_count.wf(),
        ensures
            hud == Hud::spec_of(*stats),
    {
        Hud { wave: stats.wave.count, zombies_left: stats.zombie_count.total(), score: stats.score.0 }
    }

    /// Takes note of what the director keeps now and tells which numbers
    /// have changed since they were last noted, so that only those need to
    /// be drawn anew.
    pub fn observe(&mut self, stats: &WaveStats) -> (change: HudChange)
        requires
            stats.zombie_count.wf(),
        ensures
            *final(self) == Hud::spec_of(*stats),
            change == (HudChange {
                wave: old(self).wave != final(self).wave,
                zombies_left: old(self).zombies_left != final(self).zombies_left,
                score: old(self).score != final(self).score,
            }),
    {
        let now: Hud = Hud::of(stats);
        let change = HudChange {
            wave: self.wave != now.wave,
            zombies_left: self.zombies_left != now.zombies_left,
            score: self.score != now.score,
        };
        *self = now;
        change
    }
}

} // verus!

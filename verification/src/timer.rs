//! A countdown that runs once: it gathers elapsed time until its duration is
//! reached, then stays finished until it is reset.

use vstd::prelude::*;

verus! {

/// A run-once countdown over milliseconds.
#[derive(Clone, Copy, Debug, PartialEq, Eq, Structural)]
pub struct Timer {
    duration: u64,
    elapsed: u64,
    finished: bool,
    just_finished: bool,
}

impl Timer {
    /// What holds of every timer, whatever was done to it.
    #[verifier::type_invariant]
    pub closed spec fn inv(self) -> bool {
        &&& self.elapsed <= self.duration
        &&& self.finished ==> self.elapsed == self.duration
        &&& self.just_finished ==> self.finished
        &&& !self.finished && self.duration > 0 ==> self.elapsed < self.duration
        &&& !self.finished && self.duration == 0 ==> self.elapsed == 0
    }

    /// The time, in milliseconds, after which the timer finishes.
    pub closed spec fn spec_duration(self) -> nat {
        self.duration as nat
    }

    /// The time gathered so far, never more than the duration.
    pub closed spec fn spec_elapsed(self) -> nat {
        self.elapsed as nat
    }

    /// Whether a tick has carried the gathered time up to the duration.
    pub closed spec fn spec_finished(self) -> bool {
        self.finished
    }

    /// Whether the timer finished during the latest tick.
    pub closed spec fn spec_just_finished(self) -> bool {
        self.just_finished
    }

    /// A timer freshly made or reset: nothing gathered, not finished.
    pub open spec fn is_fresh(self, duration: nat) -> bool {
        &&& self.spec_duration() == duration
        &&& self.spec_elapsed() == 0
        &&& !self.spec_finished()
        &&& !self.spec_just_finished()
    }

    /// What `tick` makes of a timer: a finished timer only forgets that it
    /// just finished; a running one gathers `delta`, capped at its duration,
    /// and finishes when the cap is reached.
    pub open spec fn ticked(self, after: Timer, delta: nat) -> bool {
        &&& after.spec_duration() == self.spec_duration()
        &&& if self.spec_finished() {
            &&& after.spec_elapsed() == self.spec_elapsed()
            &&& after.spec_finished()
            &&& !after.spec_just_finished()
        } else {
            &&& after.spec_finished() == (self.spec_elapsed() + delta
                >= self.spec_duration())
            &&& after.spec_just_finished() == after.spec_finished()
            &&& after.spec_elapsed() == if after.spec_finished() {
                self.spec_duration()
            } else {
                self.spec_elapsed() + delta
            }
        }
    }

    /// The timer that `from_millis` makes.
    pub closed spec fn fresh(duration: u64) -> Timer {
        Timer { duration, elapsed: 0, finished: false, just_finished: false }
    }

    /// The timer that `tick` makes of `self`.
    pub closed spec fn after_tick(self, delta: u64) -> Timer {
        if self.finished {
            Timer { just_finished: false, ..self }
        } else if self.elapsed + delta >= self.duration {
            Timer { elapsed: self.duration, finished: true, just_finished: true, ..self }
        } else {
            Timer { elapsed: (self.elapsed + delta) as u64, just_finished: false, ..self }
        }
    }

    /// The timer that `reset` makes of `self`.
    pub closed spec fn after_reset(self) -> Timer {
        Timer::fresh(self.duration)
    }

    /// What can be asked of the timers that `from_millis`, `tick` and `reset` make.
    pub proof fn lemma_made(self, delta: u64)
        ensures
            Timer::fresh(delta).is_fresh(delta as nat),
            Timer::fresh(delta).inv(),
            self.ticked(self.after_tick(delta), delta as nat),
            self.after_reset().is_fresh(self.spec_duration()),
            self.after_reset() == Timer::fresh(self.spec_duration() as u64),
            self.inv() ==> self.after_tick(delta).inv() && self.after_reset().inv(),
    {
    }

    /// A fresh timer that finishes once `duration_ms` milliseconds are gathered.
    pub fn from_millis(duration_ms: u64) -> (t: Timer)
        ensures
            t == Timer::fresh(duration_ms),
            t.is_fresh(duration_ms as nat),
    {
        Timer { duration: duration_ms, elapsed: 0, finished: false, just_finished: false }
    }

    /// A fresh timer over whole seconds; the duration saturates at the largest
    /// number of milliseconds that can be held.
    pub fn from_seconds(seconds: u64) -> (t: Timer)
        ensures
            t.is_fresh(
                if seconds * 1000 <= u64::MAX {
                    (seconds * 1000) as nat
                } else {
                    u64::MAX as nat
                },
            ),
    {
        let ms: u64 = if seconds <= u64::MAX / 1000 {
            seconds * 1000
        } else {
            u64::MAX
        };
        Timer::from_millis(ms)
    }

    pub fn duration(&self) -> (d: u64)
        ensures
            d == self.spec_duration(),
    {
        self.duration
    }

    pub fn elapsed(&self) -> (e: u64)
        ensures
            e == self.spec_elapsed(),
            e <= self.spec_duration(),
    {
        proof {
            use_type_invariant(self);
        }
        self.elapsed
    }

    /// The time still to be gathered before the timer finishes.
    pub fn remaining(&self) -> (r: u64)
        ensures
            r == self.spec_duration() - self.spec_elapsed(),
    {
        proof {
            use_type_invariant(self);
        }
        self.duration - self.elapsed
    }

    pub fn finished(&self) -> (f: bool)
        ensures
            f == self.spec_finished(),
    {
        self.finished
    }

    pub fn just_finished(&self) -> (f: bool)
        ensures
            f == self.spec_just_finished(),
    {
        self.just_finished
    }

    /// Gathers `delta_ms` more milliseconds.
    pub fn tick(&mut self, delta_ms: u64)
        ensures
            *final(self) == old(self).after_tick(delta_ms),
            old(self).ticked(*final(self), delta_ms as nat),
    {
        proof {
            use_type_invariant(&*self);
        }
        let duration: u64 = self.duration;
        let elapsed: u64 = self.elapsed;
        if self.finished {
            *self = Timer { duration, elapsed, finished: true, just_finished: false };
        } else if delta_ms >= duration - elapsed {
            *self = Timer { duration, elapsed: duration, finished: true, just_finished: true };
        } else {
            *self = Timer {
                duration,
                elapsed: elapsed + delta_ms,
                finished: false,
                just_finished: false,
            };
        }
    }

    /// Starts the countdown again from nothing.
    pub fn reset(&mut self)
        ensures
            *final(self) == old(self).after_reset(),
            final(self).is_fresh(old(self).spec_duration()),
    {
        *self = Timer::from_millis(self.duration);
    }
}

} // verus!

use vstd::prelude::*;

verus! {

/// A one-shot countdown over nanoseconds: it runs from zero up to `duration`
/// and then stays finished.
#[derive(Clone, Copy, Debug, PartialEq, Eq, Structural)]
pub struct Timer {
    pub duration: u64,
    pub elapsed: u64,
}

/// The elapsed time after a tick of `delta`: it grows by `delta` and stops at
/// the duration.
pub open spec fn ticked_elapsed(t: Timer, delta: u64) -> u64 {
    if t.elapsed as int + delta as int >= t.duration as int {
        t.duration
    } else {
        (t.elapsed + delta) as u64
    }
}

impl Timer {
    /// A running timer never overshoots its positive duration.
    pub open spec fn wf(&self) -> bool {
        0 < self.duration && self.elapsed <= self.duration
    }

    pub open spec fn finished_spec(&self) -> bool {
        self.elapsed >= self.duration
    }

    pub open spec fn ticked(&self, delta: u64) -> Timer {
        Timer { duration: self.duration, elapsed: ticked_elapsed(*self, delta) }
    }

    /// A timer of `duration` nanoseconds that has not started to run.
    pub fn new(duration: u64) -> (r: Timer)
        requires
            duration > 0,
        ensures
            r.wf(),
            r.duration == duration,
            r.elapsed == 0,
    {
        Timer { duration, elapsed: 0 }
    }

    pub fn is_finished(&self) -> (r: bool)
        ensures
            r == self.finished_spec(),
    {
        self.elapsed >= self.duration
    }

    /// Advances the timer by `delta` nanoseconds, stopping at its duration.
    pub fn tick(&mut self, delta: u64)
        requires
            old(self).wf(),
        ensures
            *final(self) == old(self).ticked(delta),
            final(self).wf(),
    {
        if delta >= self.duration - self.elapsed {
            self.elapsed = self.duration;
        } else {
            self.elapsed = self.elapsed + delta;
        }
    }

    /// Starts the timer again from zero.
    pub fn reset(&mut self)
        ensures
            final(self).duration == old(self).duration,
            final(self).elapsed == 0,
    {
        self.elapsed = 0;
    }
}

} // verus!

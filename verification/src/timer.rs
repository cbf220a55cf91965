//! Countdown timers, advanced by the elapsed delta of each frame.

use vstd::prelude::*;

verus! {

/// A one-shot countdown. It accumulates elapsed time up to its duration
/// and reports the single frame on which it crosses the finish line.
#[derive(Clone, Copy, Debug, PartialEq, Eq, Structural)]
pub struct CountDownTimer {
    /// Time accumulated so far, in milliseconds; capped at `duration_ms`.
    pub elapsed_ms: u64,
    /// Total time the countdown runs for, in milliseconds.
    pub duration_ms: u64,
}

impl CountDownTimer {
    pub open spec fn wf(self) -> bool {
        0 < self.duration_ms <= 0x1000_0000 && self.elapsed_ms <= self.duration_ms
    }

    pub open spec fn spec_finished(self) -> bool {
        self.elapsed_ms == self.duration_ms
    }

    /// A fresh countdown of the given duration.
    pub fn new(duration_ms: u64) -> (t: CountDownTimer)
        requires
            0 < duration_ms <= 0x1000_0000,
        ensures
            t.wf(),
            t.duration_ms == duration_ms,
            t.elapsed_ms == 0,
    {
        CountDownTimer { elapsed_ms: 0, duration_ms }
    }

    /// Advances the countdown by a frame delta. Returns true exactly on
    /// the tick that reaches the duration.
    pub fn tick(&mut self, delta_ms: u64) -> (just_finished: bool)
        requires
            old(self).wf(),
            delta_ms <= 0x1000_0000,
        ensures
            final(self).wf(),
            final(self).duration_ms == old(self).duration_ms,
            final(self).elapsed_ms
                == if old(self).elapsed_ms + delta_ms <= old(self).duration_ms {
                    (old(self).elapsed_ms + delta_ms) as u64
                } else {
                    old(self).duration_ms
                },
            just_finished == (!old(self).spec_finished() && final(self).spec_finished()),
    {
        let was_finished = self.elapsed_ms == self.duration_ms;
        if delta_ms <= self.duration_ms - self.elapsed_ms {
            self.elapsed_ms = self.elapsed_ms + delta_ms;
        } else {
            self.elapsed_ms = self.duration_ms;
        }
        !was_finished && self.elapsed_ms == self.duration_ms
    }

    /// Has the countdown run its full duration?
    pub fn finished(&self) -> (r: bool)
        ensures
            r == self.spec_finished(),
    {
        self.elapsed_ms == self.duration_ms
    }
}

} // verus!

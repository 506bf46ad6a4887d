//! Current score and high score for a session.

use vstd::prelude::*;

verus! {

/// Current and high score of the running session.
///
/// The high score never decreases and is always at least the current
/// score: `register_point` raises it as soon as the current score would
/// pass it, and `reset_current` leaves it untouched.
pub struct ScoreState {
    pub current: u32,
    pub high: u32,
}

impl ScoreState {
    /// The score invariant: the high score is never behind the current one.
    pub open spec fn wf(self) -> bool {
        self.current <= self.high
    }

    /// A fresh session starts with both scores at zero.
    pub fn new() -> (s: ScoreState)
        ensures
            s.current == 0,
            s.high == 0,
            s.wf(),
    {
        ScoreState { current: 0, high: 0 }
    }

    /// Record one successful player-collectible collision.
    ///
    /// The current score rises by one (saturating at the machine limit),
    /// and the high score is raised to match whenever the current score
    /// would pass it, so the invariant holds again immediately.
    pub fn register_point(&mut self)
        requires
            old(self).wf(),
        ensures
            final(self).current == if old(self).current < u32::MAX {
                old(self).current + 1
            } else {
                old(self).current as int
            },
            final(self).high == if final(self).current > old(self).high {
                final(self).current
            } else {
                old(self).high
            },
            final(self).high >= old(self).high,
            final(self).wf(),
    {
        if self.current < u32::MAX {
            self.current = self.current + 1;
        }
        if self.current > self.high {
            self.high = self.current;
        }
    }

    /// Reset the current score to zero; the high score is untouched.
    pub fn reset_current(&mut self)
        requires
            old(self).wf(),
        ensures
            final(self).current == 0,
            final(self).high == old(self).high,
            final(self).wf(),
    {
        self.current = 0;
    }
}

} // verus!

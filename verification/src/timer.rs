//! Repeating countdown used to pace periodic spawning.
//!
//! Durations and frame deltas are whole microseconds. A repeating timer
//! rearms by subtracting the duration from the accumulated time instead of
//! resetting it to zero, so fractional overshoot carries into the next
//! cycle and no drift accumulates across frames.

use vstd::prelude::*;
use vstd::arithmetic::div_mod::lemma_fundamental_div_mod;
use vstd::arithmetic::div_mod::lemma_fundamental_div_mod_converse_div;
use vstd::arithmetic::div_mod::lemma_fundamental_div_mod_converse_mod;
use vstd::arithmetic::div_mod::lemma_mod_bound;

verus! {

/// A countdown over whole microseconds.
///
/// `tick` advances the accumulated time; the timer reports how often the
/// duration was crossed on that very call. A repeating timer rearms with
/// the overshoot kept; a non-repeating one finishes once and then stays
/// finished for good.
pub struct Timer {
    pub duration: u64,
    pub elapsed: u64,
    pub repeating: bool,
    pub fires_last_tick: u64,
}

/// Elapsed time of a repeating timer after one tick: the overshoot past
/// full cycles is kept, so nothing is lost to rounding.
pub open spec fn spec_tick_elapsed(duration: int, elapsed: int, delta: int) -> int {
    (elapsed + delta) % duration
}

/// How often one tick of a repeating timer crosses the duration.
pub open spec fn spec_tick_fires(duration: int, elapsed: int, delta: int) -> int {
    (elapsed + delta) / duration
}

/// Elapsed time of a repeating timer after a whole sequence of ticks.
pub open spec fn run_elapsed(duration: int, elapsed: int, deltas: Seq<int>) -> int
    decreases deltas.len(),
{
    if deltas.len() == 0 {
        elapsed
    } else {
        run_elapsed(
            duration,
            spec_tick_elapsed(duration, elapsed, deltas[0]),
            deltas.drop_first(),
        )
    }
}

/// Total number of firings of a repeating timer over a sequence of ticks.
pub open spec fn run_fires(duration: int, elapsed: int, deltas: Seq<int>) -> int
    decreases deltas.len(),
{
    if deltas.len() == 0 {
        0
    } else {
        spec_tick_fires(duration, elapsed, deltas[0]) + run_fires(
            duration,
            spec_tick_elapsed(duration, elapsed, deltas[0]),
            deltas.drop_first(),
        )
    }
}

/// Sum of a sequence of frame deltas.
pub open spec fn sum_of(deltas: Seq<int>) -> int
    decreases deltas.len(),
{
    if deltas.len() == 0 {
        0
    } else {
        deltas[0] + sum_of(deltas.drop_first())
    }
}

/// A sum of non-negative deltas is non-negative.
proof fn lemma_sum_nonneg(deltas: Seq<int>)
    requires
        forall|i: int| 0 <= i < deltas.len() ==> deltas[i] >= 0,
    ensures
        sum_of(deltas) >= 0,
    decreases deltas.len(),
{
    if deltas.len() > 0 {
        assert(forall|i: int|
            0 <= i < deltas.drop_first().len() ==> #[trigger] deltas.drop_first()[i] >= 0);
        lemma_sum_nonneg(deltas.drop_first());
    }
}

/// A repeating timer never drifts: over any sequence of non-negative
/// deltas it fires exactly as often as the summed time contains whole
/// durations, no matter how the sum is split into ticks — many small
/// ticks and one large tick of equal sum fire equally often.
pub proof fn lemma_repeating_timer_no_drift(duration: int, elapsed: int, deltas: Seq<int>)
    requires
        duration > 0,
        0 <= elapsed < duration,
        forall|i: int| 0 <= i < deltas.len() ==> deltas[i] >= 0,
    ensures
        run_fires(duration, elapsed, deltas) == (elapsed + sum_of(deltas)) / duration,
        run_elapsed(duration, elapsed, deltas) == (elapsed + sum_of(deltas)) % duration,
    decreases deltas.len(),
{
    if deltas.len() == 0 {
        lemma_fundamental_div_mod_converse_div(elapsed, duration, 0, elapsed);
        lemma_fundamental_div_mod_converse_mod(elapsed, duration, 0, elapsed);
    } else {
        let rest = deltas.drop_first();
        let a = elapsed + deltas[0];
        let f1 = a / duration;
        let e1 = a % duration;
        lemma_fundamental_div_mod(a, duration);
        lemma_mod_bound(a, duration);
        assert(forall|i: int| 0 <= i < rest.len() ==> #[trigger] rest[i] >= 0) by {
            assert(forall|i: int| 0 <= i < rest.len() ==> #[trigger] rest[i] == deltas[i + 1]);
        }
        lemma_repeating_timer_no_drift(duration, e1, rest);
        lemma_sum_nonneg(rest);
        let s = sum_of(rest);
        let q2 = (e1 + s) / duration;
        let r2 = (e1 + s) % duration;
        lemma_fundamental_div_mod(e1 + s, duration);
        lemma_mod_bound(e1 + s, duration);
        assert(elapsed + sum_of(deltas) == (f1 + q2) * duration + r2) by (nonlinear_arith)
            requires
                a == duration * f1 + e1,
                e1 + s == duration * q2 + r2,
                a == elapsed + deltas[0],
                sum_of(deltas) == deltas[0] + s,
        ;
        lemma_fundamental_div_mod_converse_div(elapsed + sum_of(deltas), duration, f1 + q2, r2);
        lemma_fundamental_div_mod_converse_mod(elapsed + sum_of(deltas), duration, f1 + q2, r2);
    }
}

impl Timer {
    /// Internal consistency: a positive duration, and the accumulated
    /// time rearmed below it while repeating, or clamped to it once a
    /// non-repeating timer has finished.
    pub open spec fn wf(self) -> bool {
        &&& self.duration > 0
        &&& self.repeating ==> self.elapsed < self.duration
        &&& !self.repeating ==> self.elapsed <= self.duration
    }

    /// A fresh timer that has seen no time yet.
    pub fn new(duration: u64, repeating: bool) -> (t: Timer)
        requires
            duration > 0,
        ensures
            t.duration == duration,
            t.elapsed == 0,
            t.repeating == repeating,
            t.fires_last_tick == 0,
            t.wf(),
    {
        Timer { duration, elapsed: 0, repeating, fires_last_tick: 0 }
    }

    /// Advance the timer by one frame's delta and report how often it
    /// fired on this very call.
    ///
    /// A repeating timer fires once per whole duration contained in the
    /// accumulated time and keeps the remainder. A non-repeating timer
    /// fires on the single call where the accumulated time first reaches
    /// the duration, and never again.
    pub fn tick(&mut self, delta: u64) -> (fires: u64)
        requires
            old(self).wf(),
            old(self).elapsed + delta <= u64::MAX,
        ensures
            final(self).wf(),
            final(self).duration == old(self).duration,
            final(self).repeating == old(self).repeating,
            final(self).fires_last_tick == fires,
            old(self).repeating ==> {
                &&& fires == spec_tick_fires(
                    old(self).duration as int,
                    old(self).elapsed as int,
                    delta as int,
                )
                &&& final(self).elapsed == spec_tick_elapsed(
                    old(self).duration as int,
                    old(self).elapsed as int,
                    delta as int,
                )
            },
            !old(self).repeating ==> {
                &&& final(self).elapsed == if old(self).elapsed + delta
                    <= old(self).duration {
                    old(self).elapsed + delta
                } else {
                    old(self).duration as int
                }
                &&& fires == (if old(self).elapsed < old(self).duration
                    && old(self).elapsed + delta >= old(self).duration {
                    1int
                } else {
                    0int
                })
            },
    {
        let total = self.elapsed + delta;
        if self.repeating {
            let fires = total / self.duration;
            self.elapsed = total % self.duration;
            self.fires_last_tick = fires;
            proof {
                lemma_mod_bound(total as int, self.duration as int);
            }
            fires
        } else {
            if total >= self.duration {
                let fires: u64 = if self.elapsed < self.duration {
                    1
                } else {
                    0
                };
                self.elapsed = self.duration;
                self.fires_last_tick = fires;
                fires
            } else {
                self.elapsed = total;
                self.fires_last_tick = 0;
                0
            }
        }
    }

    /// Whether the most recent `tick` crossed the duration at least once.
    pub fn just_finished(&self) -> (r: bool)
        ensures
            r == (self.fires_last_tick > 0),
    {
        self.fires_last_tick > 0
    }
}

} // verus!

//! A repeating interval timer: an explicit counter of accumulated time that
//! fires when it reaches its period and starts again from zero.

use vstd::prelude::*;

verus! {

/// Accumulated time and the period at which it fires. Both are in the
/// caller's time unit.
#[derive(Clone, Copy, Debug, PartialEq, Eq, Structural)]
pub struct IntervalTimer {
    pub elapsed: u32,
    pub period: u32,
}

/// The sum of a sequence of time steps.
pub open spec fn total(deltas: Seq<u32>) -> nat
    decreases deltas.len(),
{
    if deltas.len() == 0 {
        0
    } else {
        total(deltas.drop_last()) + deltas.last() as nat
    }
}

impl IntervalTimer {
    /// Whether a step of `dt` brings the accumulated time to the period.
    pub open spec fn fires(self, dt: u32) -> bool {
        self.elapsed + dt >= self.period
    }

    /// The timer after a step of `dt`: back at zero if it fires, `dt`
    /// further on if not.
    pub open spec fn ticked(self, dt: u32) -> IntervalTimer {
        IntervalTimer {
            elapsed: if self.fires(dt) {
                0
            } else {
                (self.elapsed + dt) as u32
            },
            period: self.period,
        }
    }

    /// The timer after the steps `deltas`, in order.
    pub open spec fn after(self, deltas: Seq<u32>) -> IntervalTimer
        decreases deltas.len(),
    {
        if deltas.len() == 0 {
            self
        } else {
            self.after(deltas.drop_last()).ticked(deltas.last())
        }
    }

    /// How many of the steps `deltas` fire.
    pub open spec fn fire_count(self, deltas: Seq<u32>) -> nat
        decreases deltas.len(),
    {
        if deltas.len() == 0 {
            0
        } else {
            self.fire_count(deltas.drop_last()) + if self.after(deltas.drop_last()).fires(
                deltas.last(),
            ) {
                1nat
            } else {
                0nat
            }
        }
    }

    /// A timer with nothing accumulated.
    pub fn new(period: u32) -> (timer: IntervalTimer)
        ensures
            timer == (IntervalTimer { elapsed: 0, period }),
    {
        IntervalTimer { elapsed: 0, period }
    }

    /// Accumulates `dt` and says whether the timer fires on this step. It
    /// fires at most once a step, however long the step.
    pub fn tick(&mut self, dt: u32) -> (fired: bool)
        ensures
            fired == old(self).fires(dt),
            *final(self) == old(self).ticked(dt),
    {
        let reached: u64 = self.elapsed as u64 + dt as u64;
        if reached >= self.period as u64 {
            self.elapsed = 0;
            true
        } else {
            self.elapsed = reached as u32;
            false
        }
    }

    /// The timer fires no faster than its period: every firing uses up a
    /// full period of the time that was accumulated or stepped through.
    pub proof fn lemma_fire_rate(self, deltas: Seq<u32>)
        ensures
            self.fire_count(deltas) * self.period + self.after(deltas).elapsed <= self.elapsed
                + total(deltas),
            self.after(deltas).period == self.period,
        decreases deltas.len(),
    {
        let p = self.period as int;
        if deltas.len() > 0 {
            let before = deltas.drop_last();
            let dt = deltas.last();
            self.lemma_fire_rate(before);
            let timer = self.after(before);
            let n = self.fire_count(before) as int;
            assert(n * p + timer.elapsed <= self.elapsed + total(before));
            assert(self.after(deltas) == timer.ticked(dt));
            assert(total(deltas) == total(before) + dt as nat);
            if timer.fires(dt) {
                assert(self.fire_count(deltas) as int == n + 1);
                assert((n + 1) * p == n * p + p) by (nonlinear_arith);
                assert(self.fire_count(deltas) as int * p == n * p + p);
            } else {
                assert(self.fire_count(deltas) as int == n);
            }
        } else {
            assert(self.fire_count(deltas) as int * p == 0) by (nonlinear_arith)
                requires
                    self.fire_count(deltas) == 0,
            ;
        }
    }
}

} // verus!

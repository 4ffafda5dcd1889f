//! The discrete schedule of a streaming directional-movement indicator:
//! which updates warm up, which accumulate raw movement, when the first
//! value is emitted, and when Wilder smoothing takes over. The float
//! arithmetic follows this schedule in the caller.

use vstd::prelude::*;

verus! {

/// What one update of the indicator does with the incoming movement.
#[derive(Clone, Copy, Debug, PartialEq, Eq, Structural)]
pub struct DmStep {
    /// Add the raw movement to the running sums.
    pub accumulate: bool,
    /// The running sums become the first emitted value.
    pub emit_initial: bool,
    /// Wilder-smooth the sums with the raw movement and emit.
    pub smooth: bool,
}

/// The tick counter of a directional-movement indicator with period
/// `period`: accumulation starts at the second update, the first value
/// appears at update `period`, smoothing from update `period + 1` on.
#[derive(Clone, Copy, Debug, PartialEq, Eq, Structural)]
pub struct DmSchedule {
    pub t: u32,
    pub t1: u32,
    pub t2: u32,
    pub t3: u32,
}

impl DmSchedule {
    pub fn new(period: u32) -> (r: Self)
        requires
            1 <= period < u32::MAX,
        ensures
            r.t == 0,
            r.t1 == 2,
            r.t2 == period,
            r.t3 == period + 1,
    {
        DmSchedule { t: 0, t1: 2, t2: period, t3: period + 1 }
    }

    /// Updates before the indicator's output is valid: the period.
    pub fn maturity(&self) -> (r: u32)
        ensures
            r == self.t2,
    {
        self.t2
    }

    pub fn mature(&self) -> (r: bool)
        ensures
            r == (self.t >= self.t2),
    {
        self.t >= self.t2
    }

    /// Advance the counter, capped one past the period, and say what this
    /// update does.
    pub fn update(&mut self) -> (r: DmStep)
        ensures
            final(self).t1 == old(self).t1,
            final(self).t2 == old(self).t2,
            final(self).t3 == old(self).t3,
            final(self).t == if old(self).t < old(self).t3 {
                old(self).t + 1
            } else {
                old(self).t3 as int
            },
            r.accumulate == (final(self).t1 <= final(self).t < final(self).t3),
            r.emit_initial == (final(self).t == final(self).t2),
            r.smooth == (final(self).t >= final(self).t3),
    {
        self.t = if self.t < self.t3 {
            self.t + 1
        } else {
            self.t3
        };
        DmStep {
            accumulate: self.t1 <= self.t && self.t < self.t3,
            emit_initial: self.t == self.t2,
            smooth: self.t >= self.t3,
        }
    }
}

} // verus!

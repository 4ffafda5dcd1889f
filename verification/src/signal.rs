//! Advice filters that sit between a strategy and the engine: transition
//! detection, mid-trend suppression, persistence, and combination.

use crate::types::Advice;
use vstd::prelude::*;

verus! {

/// What `Changed::update` forwards: the new advice on a transition, `Hold`
/// on a repeat (when enabled).
pub open spec fn spec_debounced(c: Changed, value: Advice) -> Advice {
    if !c.enabled {
        value
    } else if value != c.prev {
        value
    } else {
        Advice::Hold
    }
}

/// Collapses repeated advice into `Hold` so that only transitions pass
/// through.
#[derive(Clone, Copy, Debug)]
pub struct Changed {
    pub enabled: bool,
    pub prev: Advice,
}

impl Changed {
    pub fn new(enabled: bool) -> (r: Self)
        ensures
            r.enabled == enabled,
            r.prev == Advice::Hold,
    {
        Changed { enabled, prev: Advice::Hold }
    }

    pub fn update(&mut self, value: Advice) -> (r: Advice)
        ensures
            r == spec_debounced(*old(self), value),
            final(self).enabled == old(self).enabled,
            final(self).prev == value,
    {
        let result = if !self.enabled {
            value
        } else if value != self.prev {
            value
        } else {
            Advice::Hold
        };
        self.prev = value;
        result
    }
}

/// How advice already in force when observation starts is treated.
#[derive(Clone, Copy, Debug, PartialEq, Eq, Structural)]
pub enum MidTrendPolicy {
    /// Forward everything from the first update on.
    Current,
    /// Forward each update's advice one step late.
    Previous,
    /// Suppress advice until it first changes from the initially observed
    /// value.
    Ignore,
}

/// Filters out the trend that was already underway when observation began.
#[derive(Clone, Copy, Debug)]
pub struct MidTrend {
    pub policy: MidTrendPolicy,
    /// For `Ignore`: the first advice seen, once there is one.
    pub first: Option<Advice>,
    /// For `Ignore`: a change was seen; everything passes from now on.
    pub passed: bool,
    /// For `Previous`: the advice seen one update ago.
    pub prev: Advice,
}

impl MidTrend {
    pub fn new(policy: MidTrendPolicy) -> (r: Self)
        ensures
            r.policy == policy,
            r.first is None,
            !r.passed,
            r.prev == Advice::Hold,
    {
        MidTrend { policy, first: None, passed: false, prev: Advice::Hold }
    }

    /// Updates before the filter's output is valid.
    pub fn maturity(&self) -> (r: u32)
        ensures
            r == (if self.policy == MidTrendPolicy::Current {
                1u32
            } else {
                2u32
            }),
    {
        if self.policy == MidTrendPolicy::Current {
            1
        } else {
            2
        }
    }

    pub fn update(&mut self, value: Advice) -> (r: Advice)
        ensures
            final(self).policy == old(self).policy,
            old(self).policy == MidTrendPolicy::Current ==> r == value && *final(self) == *old(self),
            old(self).policy == MidTrendPolicy::Previous ==> r == old(self).prev && final(self).prev == value && final(self).first == old(self).first && final(self).passed == old(self).passed,
            old(self).policy == MidTrendPolicy::Ignore ==> {
                if old(self).passed {
                    r == value && *final(self) == *old(self)
                } else {
                    match old(self).first {
                        None => r == Advice::Hold && final(self).first == Some(value) && !final(self).passed && final(self).prev == old(self).prev,
                        Some(f) => if value != f {
                            r == value && final(self).passed && final(self).first == old(self).first && final(self).prev == old(self).prev
                        } else {
                            r == Advice::Hold && *final(self) == *old(self)
                        },
                    }
                }
            },
    {
        match self.policy {
            MidTrendPolicy::Current => value,
            MidTrendPolicy::Previous => {
                let result = self.prev;
                self.prev = value;
                result
            },
            MidTrendPolicy::Ignore => {
                if self.passed {
                    value
                } else {
                    match self.first {
                        None => {
                            self.first = Some(value);
                            Advice::Hold
                        },
                        Some(f) => {
                            if value != f {
                                self.passed = true;
                                value
                            } else {
                                Advice::Hold
                            }
                        },
                    }
                }
            },
        }
    }
}

/// Forwards advice only once it has stayed the same for `level` consecutive
/// updates beyond the first; below that it forwards `Hold`, or the last
/// forwarded advice when `return_previous` is set.
#[derive(Clone, Copy, Debug)]
pub struct Persistence {
    pub level: u32,
    pub return_previous: bool,
    /// How many consecutive updates the potential advice has persisted,
    /// capped at `level`.
    pub age: u32,
    /// The advice waiting to persist.
    pub potential: Advice,
    /// The advice last forwarded.
    pub previous: Advice,
}

impl Persistence {
    pub fn new(level: u32, return_previous: bool) -> (r: Self)
        ensures
            r.level == level,
            r.return_previous == return_previous,
            r.age == 0,
            r.potential == Advice::Hold,
            r.previous == Advice::Hold,
    {
        Persistence {
            level,
            return_previous,
            age: 0,
            potential: Advice::Hold,
            previous: Advice::Hold,
        }
    }

    /// Updates before the filter's output is valid.
    pub fn maturity(&self) -> (r: u32)
        requires
            self.level < u32::MAX,
        ensures
            r == self.level + 1,
    {
        self.level + 1
    }

    pub fn update(&mut self, value: Advice) -> (r: Advice)
        ensures
            final(self).level == old(self).level,
            final(self).return_previous == old(self).return_previous,
            old(self).level == 0 ==> r == value && final(self).age == old(self).age && final(self).potential == old(self).potential && final(self).previous == old(self).previous,
            old(self).level > 0 ==> {
                let age0 = if value != old(self).potential {
                    0int
                } else {
                    old(self).age as int
                };
                &&& final(self).potential == value
                &&& (age0 >= old(self).level ==> r == value && final(self).previous == value
                    && final(self).age == age0)
                &&& (age0 < old(self).level ==> final(self).age == age0 + 1 && final(self).previous == old(self).previous && r == (if old(self).return_previous {
                    old(self).previous
                } else {
                    Advice::Hold
                }))
            },
    {
        if self.level == 0 {
            return value;
        }
        if value != self.potential {
            self.age = 0;
            self.potential = value;
        }
        if self.age >= self.level {
            self.previous = value;
            value
        } else {
            self.age = self.age + 1;
            if self.return_previous {
                self.previous
            } else {
                Advice::Hold
            }
        }
    }
}

/// Combine two filtered advices: a lone `Hold` wins, agreement passes
/// through, and disagreement liquidates.
pub open spec fn spec_combine(a: Advice, b: Advice) -> Advice {
    if a == Advice::Hold || b == Advice::Hold {
        Advice::Hold
    } else if a == b {
        a
    } else {
        Advice::Liquidate
    }
}

pub fn combine(a: Advice, b: Advice) -> (r: Advice)
    ensures
        r == spec_combine(a, b),
{
    if a == Advice::Hold || b == Advice::Hold {
        Advice::Hold
    } else if a == b {
        a
    } else {
        Advice::Liquidate
    }
}

} // verus!

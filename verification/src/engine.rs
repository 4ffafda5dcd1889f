//! The backtest engine's position lifecycle: a deterministic state machine
//! over per-candle events. The engine owns the discrete decisions — when a
//! position opens, closes, and why — and the chronological position ledger.
//! The caller computes the monetary fills, which the decisions never depend
//! on except through one bit: whether an open attempt produced a non-zero
//! size (reported back through [`EngineState::confirm_open`]).

use crate::interval::Interval;
use crate::math::{ceil_multiple, spec_ceil_multiple};
use crate::signal::{spec_debounced, Changed};
use crate::timestamp::Timestamp;
use crate::types::{Advice, CloseReason, PositionType};
use vstd::prelude::*;

verus! {

/// One sealed position of the ledger: its times and close reason. The
/// monetary fills live with the caller.
#[derive(Clone, Copy, Debug, PartialEq, Eq, Structural)]
pub struct PositionRecord {
    pub kind: PositionType,
    pub open_time: Timestamp,
    pub close_time: Timestamp,
    pub close_reason: CloseReason,
}

/// The position currently held open.
#[derive(Clone, Copy, Debug, PartialEq, Eq, Structural)]
pub struct OpenPosition {
    pub kind: PositionType,
    pub time: Timestamp,
}

/// A candle tick reduced to what the decisions read: its time, the raw
/// strategy advice after the update, and the stop-loss / take-profit
/// triggers.
#[derive(Clone, Copy, Debug, PartialEq, Eq, Structural)]
pub struct TickEvent {
    pub time: Timestamp,
    pub advice: Advice,
    pub stop_loss_upside: bool,
    pub stop_loss_downside: bool,
    pub take_profit_upside: bool,
    pub take_profit_downside: bool,
}

/// What one tick decided: a close sealed into the ledger, a request to open
/// (the caller computes the fill and confirms), and whether the stop-loss
/// and take-profit reference should be reset to this candle.
#[derive(Clone, Copy, Debug)]
pub struct TickOutcome {
    pub closed: Option<(PositionType, CloseReason)>,
    pub open_request: Option<PositionType>,
    pub cleared: bool,
}

/// Why an open long position closes on this tick, if it does: an opposing
/// or liquidating advice first, then the stop loss, then the take profit.
pub open spec fn spec_close_long_reason(adv: Advice, ev: TickEvent) -> Option<CloseReason> {
    if adv == Advice::Short || adv == Advice::Liquidate {
        Some(CloseReason::Strategy)
    } else if ev.stop_loss_upside {
        Some(CloseReason::StopLoss)
    } else if ev.take_profit_upside {
        Some(CloseReason::TakeProfit)
    } else {
        None
    }
}

/// Why an open short position closes on this tick, if it does.
pub open spec fn spec_close_short_reason(adv: Advice, ev: TickEvent) -> Option<CloseReason> {
    if adv == Advice::Long || adv == Advice::Liquidate {
        Some(CloseReason::Strategy)
    } else if ev.stop_loss_downside {
        Some(CloseReason::StopLoss)
    } else if ev.take_profit_downside {
        Some(CloseReason::TakeProfit)
    } else {
        None
    }
}

/// Which position the engine asks to open when none is held: a long on Long
/// advice when longs are enabled, a short on Short advice when shorts are.
pub open spec fn spec_open_request(adv: Advice, long_enabled: bool, short_enabled: bool) -> Option<
    PositionType,
> {
    if long_enabled && adv == Advice::Long {
        Some(PositionType::Long)
    } else if short_enabled && adv == Advice::Short {
        Some(PositionType::Short)
    } else {
        None
    }
}

/// The record a close seals: open at the position's time, close one interval
/// past the closing candle.
pub open spec fn spec_closed_record(
    p: OpenPosition,
    ev_time: Timestamp,
    interval: Interval,
    reason: CloseReason,
) -> PositionRecord {
    PositionRecord {
        kind: p.kind,
        open_time: p.time,
        close_time: Timestamp((ev_time.0 + interval.0) as u64),
        close_reason: reason,
    }
}

pub fn close_long_reason(adv: Advice, ev: &TickEvent) -> (r: Option<CloseReason>)
    ensures
        r == spec_close_long_reason(adv, *ev),
{
    if adv == Advice::Short || adv == Advice::Liquidate {
        Some(CloseReason::Strategy)
    } else if ev.stop_loss_upside {
        Some(CloseReason::StopLoss)
    } else if ev.take_profit_upside {
        Some(CloseReason::TakeProfit)
    } else {
        None
    }
}

pub fn close_short_reason(adv: Advice, ev: &TickEvent) -> (r: Option<CloseReason>)
    ensures
        r == spec_close_short_reason(adv, *ev),
{
    if adv == Advice::Long || adv == Advice::Liquidate {
        Some(CloseReason::Strategy)
    } else if ev.stop_loss_downside {
        Some(CloseReason::StopLoss)
    } else if ev.take_profit_downside {
        Some(CloseReason::TakeProfit)
    } else {
        None
    }
}

/// The engine's discrete state across a run.
pub struct EngineState {
    pub long_enabled: bool,
    pub short_enabled: bool,
    pub interval: Interval,
    pub changed: Changed,
    pub open_position: Option<OpenPosition>,
    pub last_time: Option<Timestamp>,
    pub positions: Vec<PositionRecord>,
}

impl EngineState {
    /// The ledger is chronologically ordered — every position closes no
    /// later than the next one opens — and the open position, if any,
    /// follows the whole ledger. At most one position is ever open.
    pub open spec fn wf(&self) -> bool {
        &&& self.interval.0 > 0
        &&& forall|i: int|
            0 <= i < self.positions@.len() ==> (#[trigger] self.positions@[i]).open_time.0
                <= self.positions@[i].close_time.0
        &&& forall|i: int, j: int|
            0 <= i && i + 1 == j && j < self.positions@.len() ==> (
            #[trigger] self.positions@[i]).close_time.0 <= (
            #[trigger] self.positions@[j]).open_time.0
        &&& match self.open_position {
            Some(p) => match self.last_time {
                Some(lt) => p.time.0 <= lt.0 + self.interval.0 && (self.positions@.len() > 0
                    ==> self.positions@.last().close_time.0 <= p.time.0),
                None => false,
            },
            None => true,
        }
        &&& match self.last_time {
            Some(lt) => self.positions@.len() > 0 ==> self.positions@.last().close_time.0 <= lt.0
                + self.interval.0,
            None => self.positions@.len() == 0 && self.open_position is None,
        }
    }

    /// A fresh engine: nothing open, nothing sealed, the advice debouncer
    /// armed.
    pub fn new(long_enabled: bool, short_enabled: bool, interval: Interval) -> (r: Self)
        requires
            interval.0 > 0,
        ensures
            r.wf(),
            r.long_enabled == long_enabled,
            r.short_enabled == short_enabled,
            r.interval == interval,
            r.changed.enabled,
            r.changed.prev == Advice::Hold,
            r.open_position is None,
            r.last_time is None,
            r.positions@.len() == 0,
    {
        EngineState {
            long_enabled,
            short_enabled,
            interval,
            changed: Changed::new(true),
            open_position: None,
            last_time: None,
            positions: Vec::new(),
        }
    }

    /// One candle tick. Debounces the advice, closes the open position when
    /// the advice, stop loss, or take profit says so (sealing it into the
    /// ledger at this candle's time plus one interval), and — when no
    /// position is left open — asks the caller to open one if the advice
    /// and configuration call for it.
    pub fn tick(&mut self, ev: &TickEvent) -> (out: TickOutcome)
        requires
            old(self).wf(),
            match old(self).last_time {
                Some(lt) => ev.time.0 > lt.0,
                None => true,
            },
            ev.time.0 + old(self).interval.0 <= u64::MAX,
        ensures
            final(self).wf(),
            final(self).long_enabled == old(self).long_enabled,
            final(self).short_enabled == old(self).short_enabled,
            final(self).interval == old(self).interval,
            final(self).last_time == Some(ev.time),
            final(self).changed.enabled == old(self).changed.enabled,
            final(self).changed.prev == ev.advice,
            ({
                let adv = spec_debounced(old(self).changed, ev.advice);
                match old(self).open_position {
                    Some(p) => {
                        let reason_opt = if p.kind == PositionType::Long {
                            spec_close_long_reason(adv, *ev)
                        } else {
                            spec_close_short_reason(adv, *ev)
                        };
                        match reason_opt {
                            Some(reason) => {
                                &&& out.closed == Some((p.kind, reason))
                                &&& final(self).positions@ == old(self).positions@.push(
                                    spec_closed_record(p, ev.time, old(self).interval, reason),
                                )
                                &&& final(self).open_position is None
                                &&& out.open_request == spec_open_request(
                                    adv,
                                    old(self).long_enabled,
                                    old(self).short_enabled,
                                )
                            },
                            None => {
                                &&& out.closed is None
                                &&& final(self).positions@ == old(self).positions@
                                &&& final(self).open_position == Some(p)
                                &&& out.open_request is None
                            },
                        }
                    },
                    None => {
                        &&& out.closed is None
                        &&& final(self).positions@ == old(self).positions@
                        &&& final(self).open_position is None
                        &&& out.open_request == spec_open_request(
                            adv,
                            old(self).long_enabled,
                            old(self).short_enabled,
                        )
                    },
                }
            }),
            out.cleared == (out.closed is Some || old(self).open_position is None),
    {
        let adv = self.changed.update(ev.advice);
        let mut closed: Option<(PositionType, CloseReason)> = None;
        let was_open = self.open_position.is_some();
        match self.open_position {
            Some(p) => {
                let reason_opt = if p.kind == PositionType::Long {
                    close_long_reason(adv, ev)
                } else {
                    close_short_reason(adv, ev)
                };
                if let Some(reason) = reason_opt {
                    let rec = PositionRecord {
                        kind: p.kind,
                        open_time: p.time,
                        close_time: Timestamp(ev.time.0 + self.interval.0),
                        close_reason: reason,
                    };
                    self.positions.push(rec);
                    self.open_position = None;
                    closed = Some((p.kind, reason));
                }
            },
            None => {},
        }
        let mut open_request: Option<PositionType> = None;
        if self.open_position.is_none() {
            if self.long_enabled && adv == Advice::Long {
                open_request = Some(PositionType::Long);
            } else if self.short_enabled && adv == Advice::Short {
                open_request = Some(PositionType::Short);
            }
        }
        self.last_time = Some(ev.time);
        TickOutcome { closed, open_request, cleared: closed.is_some() || !was_open }
    }

    /// Whether a position opened at `time` would follow the ledger.
    pub open spec fn can_open_at(&self, time: Timestamp) -> bool {
        &&& self.open_position is None
        &&& match self.last_time {
            Some(lt) => time.0 == lt.0 + self.interval.0,
            None => false,
        }
    }

    /// The caller's open attempt produced a fill: record the position as
    /// open. `time` must be the current candle's time plus one interval, as
    /// handed out by the tick that requested the open.
    pub fn confirm_open(&mut self, kind: PositionType, time: Timestamp)
        requires
            old(self).wf(),
            old(self).can_open_at(time),
        ensures
            final(self).wf(),
            final(self).open_position == Some(OpenPosition { kind, time }),
            final(self).long_enabled == old(self).long_enabled,
            final(self).short_enabled == old(self).short_enabled,
            final(self).interval == old(self).interval,
            final(self).changed == old(self).changed,
            final(self).last_time == old(self).last_time,
            final(self).positions@ == old(self).positions@,
    {
        self.open_position = Some(OpenPosition { kind, time });
    }

    /// End-of-series cancellation: a position still open after the last
    /// candle closes at the last candle's time plus one interval with reason
    /// `Cancelled`, adding exactly one record; otherwise nothing changes.
    pub fn finish(&mut self) -> (r: Option<PositionType>)
        requires
            old(self).wf(),
            match old(self).last_time {
                Some(lt) => lt.0 + old(self).interval.0 <= u64::MAX,
                None => true,
            },
        ensures
            final(self).wf(),
            final(self).long_enabled == old(self).long_enabled,
            final(self).short_enabled == old(self).short_enabled,
            final(self).interval == old(self).interval,
            final(self).last_time == old(self).last_time,
            final(self).open_position is None,
            match (old(self).open_position, old(self).last_time) {
                (Some(p), Some(lt)) => r == Some(p.kind) && final(self).positions@ == old(
                    self,
                ).positions@.push(
                    spec_closed_record(p, lt, old(self).interval, CloseReason::Cancelled),
                ),
                (None, _) => r is None && final(self).positions@ == old(self).positions@,
                (Some(_), None) => false,
            },
    {
        match (self.open_position, self.last_time) {
            (Some(p), Some(lt)) => {
                let rec = PositionRecord {
                    kind: p.kind,
                    open_time: p.time,
                    close_time: Timestamp(lt.0 + self.interval.0),
                    close_reason: CloseReason::Cancelled,
                };
                self.positions.push(rec);
                self.open_position = None;
                Some(p.kind)
            },
            _ => None,
        }
    }
}

/// Ledger ordering: in a well-formed engine state, every position closes no
/// later than any later position opens — so no two positions of the ledger
/// overlap, and at most one position is open at any simulated time.
pub proof fn lemma_ledger_ordered(s: &EngineState, i: int, j: int)
    requires
        s.wf(),
        0 <= i < j < s.positions@.len(),
    ensures
        s.positions@[i].close_time.0 <= s.positions@[j].open_time.0,
    decreases j - i,
{
    if i + 1 < j {
        lemma_ledger_ordered(s, i + 1, j);
    }
}

/// The open position, if any, begins no earlier than the last sealed close:
/// together with ledger ordering, no two positions ever overlap.
pub proof fn lemma_open_follows_ledger(s: &EngineState)
    requires
        s.wf(),
        s.open_position is Some,
        s.positions@.len() > 0,
    ensures
        s.positions@.last().close_time.0 <= s.open_position.unwrap().time.0,
{
}

/// The summary bounds of a run over candles at `times`: an empty series
/// spans zero to one interval; otherwise from the first candle's time to one
/// interval past the last one's.
pub fn summary_bounds(times: &Vec<Timestamp>, interval: Interval) -> (r: (Timestamp, Timestamp))
    requires
        times@.len() > 0 ==> times@.last().0 + interval.0 <= u64::MAX,
    ensures
        times@.len() == 0 ==> r.0.0 == 0 && r.1.0 == interval.0,
        times@.len() > 0 ==> r.0 == times@[0] && r.1.0 == times@.last().0 + interval.0,
{
    if times.len() == 0 {
        (Timestamp(0), Timestamp(interval.0))
    } else {
        (times[0], Timestamp(times[times.len() - 1].0 + interval.0))
    }
}

/// Number of interest periods a short position pays for: elapsed time
/// divided by the interest interval, rounded up — interest accrues for
/// every started period.
pub fn interest_periods(elapsed: u64, interest_interval: u64) -> (r: u64)
    requires
        interest_interval > 0,
        elapsed + interest_interval - 1 <= u64::MAX,
    ensures
        r == spec_ceil_multiple(elapsed as int, interest_interval as int) / (
        interest_interval as int),
        r == (elapsed + interest_interval - 1) as int / (interest_interval as int),
{
    let m = ceil_multiple(elapsed, interest_interval);
    proof {
        vstd::arithmetic::div_mod::lemma_div_multiples_vanish(
            (elapsed + interest_interval - 1) as int / (interest_interval as int),
            interest_interval as int,
        );
        vstd::arithmetic::mul::lemma_mul_is_commutative(
            (elapsed + interest_interval - 1) as int / (interest_interval as int),
            interest_interval as int,
        );
    }
    m / interest_interval
}

} // verus!

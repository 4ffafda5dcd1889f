//! Aggregating fine-grained candles into coarser buckets: the time logic.
//! The buffer decides, per input candle time, whether the candle starts a
//! bucket, merges into it, or completes one; the caller keeps the price and
//! volume aggregates and acts on the returned action.

use crate::interval::Interval;
use crate::math::{floor_multiple, spec_floor_multiple};
use crate::timestamp::Timestamp;
use vstd::prelude::*;

verus! {

/// What the buffer asks of the caller for one input candle.
#[derive(Clone, Copy, Debug, PartialEq, Eq, Structural)]
pub enum BufferAction {
    /// Buffering is disabled: use the candle as it is.
    Forward,
    /// Begin a bucket at `bucket_time` holding this candle; emit nothing.
    Start { bucket_time: Timestamp },
    /// This candle both begins and completes a bucket at `bucket_time`:
    /// emit it alone, with that time.
    StartEmit { bucket_time: Timestamp },
    /// Merge the candle into the current bucket; emit nothing.
    Merge,
    /// Merge the candle into the current bucket and emit the result; the
    /// bucket is done.
    MergeEmit,
    /// The candle lies past the current bucket: emit the stale bucket as it
    /// stands, then begin a fresh bucket at the candle's own time.
    EmitStaleThenStart,
    /// The candle lies past the current bucket yet also completes its own:
    /// the series has too many missing candles to repair.
    TooManyMissing,
}

/// Buckets candle times of width `interval` into buckets of width
/// `buffer_interval`.
pub struct CandleBuffer {
    pub interval: Interval,
    pub buffer_interval: Interval,
    pub enabled: bool,
    /// The time of the bucket being filled, if one is.
    pub buffer_time: Option<Timestamp>,
}

impl CandleBuffer {
    /// Intervals are sane and a bucket, when present, leaves room for the
    /// arithmetic on its end.
    pub open spec fn wf(&self) -> bool {
        &&& self.interval.0 > 0
        &&& self.enabled ==> self.buffer_interval.0 > self.interval.0
        &&& !self.enabled ==> self.buffer_time is None
        &&& match self.buffer_time {
            Some(bt) => bt.0 + self.buffer_interval.0 <= u64::MAX,
            None => true,
        }
    }

    /// A buffer for candles of width `interval`, aggregated to
    /// `buffer_interval` when one is given and wider; the zero and the
    /// narrower-than-candle cases are rejected rather than accepted.
    pub fn new(interval: Interval, buffer_interval: Option<Interval>) -> (r: Self)
        requires
            interval.0 > 0,
            match buffer_interval {
                Some(b) => interval.0 <= b.0,
                None => true,
            },
        ensures
            r.wf(),
            r.interval == interval,
            r.buffer_time is None,
            match buffer_interval {
                Some(b) => r.enabled == (b.0 > interval.0) && r.buffer_interval == b,
                None => !r.enabled && r.buffer_interval.0 == 0,
            },
    {
        match buffer_interval {
            Some(b) => CandleBuffer {
                interval,
                buffer_interval: b,
                enabled: b.0 > interval.0,
                buffer_time: None,
            },
            None => CandleBuffer {
                interval,
                buffer_interval: Interval(0),
                enabled: false,
                buffer_time: None,
            },
        }
    }

    /// Decide what to do with a candle at `time`. A candle is the last of
    /// its bucket when one candle width past it lies on a bucket boundary.
    pub fn buffer_action(&mut self, time: Timestamp) -> (r: BufferAction)
        requires
            old(self).wf(),
            time.0 + old(self).interval.0 <= u64::MAX,
            old(self).enabled ==> time.0 + old(self).buffer_interval.0 <= u64::MAX,
        ensures
            final(self).wf(),
            final(self).interval == old(self).interval,
            final(self).buffer_interval == old(self).buffer_interval,
            final(self).enabled == old(self).enabled,
            !old(self).enabled ==> r == BufferAction::Forward && final(self).buffer_time == old(self).buffer_time,
            old(self).enabled ==> ({
                let is_last = (time.0 + old(self).interval.0) % (old(self).buffer_interval.0
                    as int) == 0;
                match old(self).buffer_time {
                    None => {
                        let bt = Timestamp(
                            spec_floor_multiple(
                                time.0 as int,
                                old(self).buffer_interval.0 as int,
                            ) as u64,
                        );
                        if is_last {
                            r == BufferAction::StartEmit { bucket_time: bt } && final(self).buffer_time is None
                        } else {
                            r == BufferAction::Start { bucket_time: bt } && final(self).buffer_time == Some(bt)
                        }
                    },
                    Some(bt) => if time.0 >= bt.0 + old(self).buffer_interval.0 {
                        if is_last {
                            r == BufferAction::TooManyMissing && final(self).buffer_time == Some(
                                bt,
                            )
                        } else {
                            r == BufferAction::EmitStaleThenStart && final(self).buffer_time
                                == Some(time)
                        }
                    } else {
                        if is_last {
                            r == BufferAction::MergeEmit && final(self).buffer_time is None
                        } else {
                            r == BufferAction::Merge && final(self).buffer_time == Some(bt)
                        }
                    },
                }
            }),
    {
        if !self.enabled {
            return BufferAction::Forward;
        }
        let is_last = (time.0 + self.interval.0) % self.buffer_interval.0 == 0;
        match self.buffer_time {
            None => {
                let bt = Timestamp(floor_multiple(time.0, self.buffer_interval.0));
                if is_last {
                    BufferAction::StartEmit { bucket_time: bt }
                } else {
                    self.buffer_time = Some(bt);
                    BufferAction::Start { bucket_time: bt }
                }
            },
            Some(bt) => {
                if time.0 >= bt.0 + self.buffer_interval.0 {
                    if is_last {
                        BufferAction::TooManyMissing
                    } else {
                        self.buffer_time = Some(time);
                        BufferAction::EmitStaleThenStart
                    }
                } else {
                    if is_last {
                        self.buffer_time = None;
                        BufferAction::MergeEmit
                    } else {
                        BufferAction::Merge
                    }
                }
            },
        }
    }
}

} // verus!

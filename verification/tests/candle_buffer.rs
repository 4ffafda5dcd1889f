use juno::candle_buffer::{BufferAction, CandleBuffer};
use juno::interval::Interval;
use juno::timestamp::Timestamp;

#[test]
fn test_buffer_disabled_without_buffer_interval() {
    let mut target = CandleBuffer::new(Interval(2), None);
    assert_eq!(target.buffer_action(Timestamp(0)), BufferAction::Forward);
}

#[test]
fn test_buffer_disabled_with_same_interval_and_buffer_interval() {
    let mut target = CandleBuffer::new(Interval(2), Some(Interval(2)));
    assert_eq!(target.buffer_action(Timestamp(0)), BufferAction::Forward);
}

#[test]
fn test_buffer_simple() {
    let mut target = CandleBuffer::new(Interval(1), Some(Interval(2)));
    assert_eq!(
        target.buffer_action(Timestamp(0)),
        BufferAction::Start { bucket_time: Timestamp(0) }
    );
    assert_eq!(target.buffer_action(Timestamp(1)), BufferAction::MergeEmit);
}

#[test]
fn test_buffer_missing_beginning() {
    let mut target = CandleBuffer::new(Interval(1), Some(Interval(2)));
    assert_eq!(
        target.buffer_action(Timestamp(1)),
        BufferAction::StartEmit { bucket_time: Timestamp(0) }
    );
}

#[test]
fn test_buffer_missing_end() {
    let mut target = CandleBuffer::new(Interval(1), Some(Interval(2)));
    assert_eq!(
        target.buffer_action(Timestamp(0)),
        BufferAction::Start { bucket_time: Timestamp(0) }
    );
    assert_eq!(target.buffer_action(Timestamp(2)), BufferAction::EmitStaleThenStart);
    assert_eq!(target.buffer_time, Some(Timestamp(2)));
    assert_eq!(target.buffer_action(Timestamp(3)), BufferAction::MergeEmit);
}

#[test]
fn test_buffer_missing_end_and_beginning() {
    let mut target = CandleBuffer::new(Interval(1), Some(Interval(3)));
    assert_eq!(
        target.buffer_action(Timestamp(0)),
        BufferAction::Start { bucket_time: Timestamp(0) }
    );
    assert_eq!(target.buffer_action(Timestamp(4)), BufferAction::EmitStaleThenStart);
}

#[test]
fn test_buffer_missing_end_and_beginning_unsolvable() {
    let mut target = CandleBuffer::new(Interval(1), Some(Interval(2)));
    assert_eq!(
        target.buffer_action(Timestamp(0)),
        BufferAction::Start { bucket_time: Timestamp(0) }
    );
    assert_eq!(target.buffer_action(Timestamp(3)), BufferAction::TooManyMissing);
}

use juno::engine::{interest_periods, summary_bounds, EngineState, TickEvent};
use juno::interval::Interval;
use juno::timestamp::Timestamp;
use juno::types::{Advice, CloseReason, PositionType};

fn ev(time: u64, advice: Advice) -> TickEvent {
    TickEvent {
        time: Timestamp(time),
        advice,
        stop_loss_upside: false,
        stop_loss_downside: false,
        take_profit_upside: false,
        take_profit_downside: false,
    }
}

#[test]
fn test_empty_run() {
    let mut state = EngineState::new(true, true, Interval(5));
    assert_eq!(state.finish(), None);
    assert!(state.positions.is_empty());
    let (start, end) = summary_bounds(&vec![], Interval(5));
    assert_eq!(start, Timestamp(0));
    assert_eq!(end, Timestamp(5));
}

#[test]
fn test_summary_bounds_nonempty() {
    let times = vec![Timestamp(5), Timestamp(7)];
    let (start, end) = summary_bounds(&times, Interval(2));
    assert_eq!(start, Timestamp(5));
    assert_eq!(end, Timestamp(9));
}

#[test]
fn test_long_flip_to_short_and_cancel() {
    let mut state = EngineState::new(true, true, Interval(1));

    let out = state.tick(&ev(0, Advice::Long));
    assert_eq!(out.closed, None);
    assert_eq!(out.open_request, Some(PositionType::Long));
    assert!(out.cleared);
    state.confirm_open(PositionType::Long, Timestamp(1));

    // Repeated advice is debounced: nothing happens.
    let out = state.tick(&ev(1, Advice::Long));
    assert_eq!(out.closed, None);
    assert_eq!(out.open_request, None);
    assert!(!out.cleared);

    // A transition to Short closes the long and opens a short in one tick.
    let out = state.tick(&ev(2, Advice::Short));
    assert_eq!(out.closed, Some((PositionType::Long, CloseReason::Strategy)));
    assert_eq!(out.open_request, Some(PositionType::Short));
    assert!(out.cleared);
    state.confirm_open(PositionType::Short, Timestamp(3));

    // End of series: the open short is cancelled at last time + interval.
    assert_eq!(state.finish(), Some(PositionType::Short));

    assert_eq!(state.positions.len(), 2);
    let first = &state.positions[0];
    assert_eq!(first.kind, PositionType::Long);
    assert_eq!(first.open_time, Timestamp(1));
    assert_eq!(first.close_time, Timestamp(3));
    assert_eq!(first.close_reason, CloseReason::Strategy);
    let second = &state.positions[1];
    assert_eq!(second.kind, PositionType::Short);
    assert_eq!(second.open_time, Timestamp(3));
    assert_eq!(second.close_time, Timestamp(3));
    assert_eq!(second.close_reason, CloseReason::Cancelled);

    // Ledger ordering: each position closes no later than the next opens.
    for pair in state.positions.windows(2) {
        assert!(pair[0].close_time.0 <= pair[1].open_time.0);
        assert!(pair[0].open_time.0 <= pair[0].close_time.0);
    }
}

#[test]
fn test_stop_loss_closes_long() {
    let mut state = EngineState::new(true, false, Interval(1));
    let out = state.tick(&ev(0, Advice::Long));
    assert_eq!(out.open_request, Some(PositionType::Long));
    state.confirm_open(PositionType::Long, Timestamp(1));

    let mut hit = ev(1, Advice::Long);
    hit.stop_loss_upside = true;
    let out = state.tick(&hit);
    assert_eq!(out.closed, Some((PositionType::Long, CloseReason::StopLoss)));
    assert_eq!(out.open_request, None);
    assert_eq!(state.positions[0].close_reason, CloseReason::StopLoss);
    assert_eq!(state.finish(), None);
    assert_eq!(state.positions.len(), 1);
}

#[test]
fn test_take_profit_closes_short() {
    let mut state = EngineState::new(false, true, Interval(1));
    let out = state.tick(&ev(0, Advice::Short));
    assert_eq!(out.open_request, Some(PositionType::Short));
    state.confirm_open(PositionType::Short, Timestamp(1));

    let mut hit = ev(1, Advice::Short);
    hit.take_profit_downside = true;
    let out = state.tick(&hit);
    assert_eq!(out.closed, Some((PositionType::Short, CloseReason::TakeProfit)));
    assert_eq!(state.positions[0].close_reason, CloseReason::TakeProfit);
}

#[test]
fn test_liquidate_closes_without_reopening() {
    let mut state = EngineState::new(true, true, Interval(1));
    state.tick(&ev(0, Advice::Long));
    state.confirm_open(PositionType::Long, Timestamp(1));
    let out = state.tick(&ev(1, Advice::Liquidate));
    assert_eq!(out.closed, Some((PositionType::Long, CloseReason::Strategy)));
    assert_eq!(out.open_request, None);
    assert_eq!(state.finish(), None);
}

#[test]
fn test_disabled_sides_do_not_open() {
    let mut state = EngineState::new(false, false, Interval(1));
    let out = state.tick(&ev(0, Advice::Long));
    assert_eq!(out.open_request, None);
    let out = state.tick(&ev(1, Advice::Short));
    assert_eq!(out.open_request, None);
    assert_eq!(state.finish(), None);
    assert!(state.positions.is_empty());
}

#[test]
fn test_unconfirmed_open_leaves_no_position() {
    // An open attempt whose size rounds to zero is a silent no-op: the
    // caller simply never confirms it.
    let mut state = EngineState::new(true, true, Interval(1));
    let out = state.tick(&ev(0, Advice::Long));
    assert_eq!(out.open_request, Some(PositionType::Long));
    let out = state.tick(&ev(1, Advice::Short));
    assert_eq!(out.closed, None);
    assert_eq!(out.open_request, Some(PositionType::Short));
    assert_eq!(state.finish(), None);
    assert!(state.positions.is_empty());
}

#[test]
fn test_interest_periods() {
    assert_eq!(interest_periods(0, 10), 0);
    assert_eq!(interest_periods(1, 10), 1);
    assert_eq!(interest_periods(10, 10), 1);
    assert_eq!(interest_periods(11, 10), 2);
    assert_eq!(interest_periods(3_600_000, 3_600_000), 1);
}

use std::str::FromStr;

use juno::interval::{Interval, DAY_MS, MONTH_MS, SEC_MS, WEEK_MS};
use juno::timestamp::{str_to_timestamp, timestamp_repr, Timestamp};
use juno::types::ParseError;

#[test]
fn timestamp_test_timestamp_to_repr() {
    assert_eq!(Timestamp(1546300800000).repr(), "2019-01-01T00:00:00Z");
}

#[test]
fn timestamp_test_timestamp_from_repr() {
    assert_eq!(Timestamp::from_str("2019-01-01"), Ok(Timestamp(1546300800000)));
}

#[test]
fn timestamp_test_ceil_timestamp() {
    assert_eq!(Timestamp(1).ceil(Interval(SEC_MS)), Timestamp(SEC_MS));
    assert_eq!(Timestamp(1001).ceil(Interval(DAY_MS)), Timestamp(DAY_MS));
    // 2020-01-01T00:00:00Z -> 2020-01-06T00:00:00Z
    assert_eq!(Timestamp(1577836800000).ceil(Interval(WEEK_MS)), Timestamp(1578268800000));
    // 2020-01-02T00:00:00Z -> 2020-02-01T00:00:00Z
    assert_eq!(Timestamp(1577923200000).ceil(Interval(MONTH_MS)), Timestamp(1580515200000));
}

#[test]
fn timestamp_test_floor_timestamp() {
    assert_eq!(Timestamp(1).floor(Interval(SEC_MS)), Timestamp(0));
    assert_eq!(Timestamp(1001).floor(Interval(DAY_MS)), Timestamp(0));
    // 2020-01-01T00:00:00Z -> 2019-12-30T00:00:00Z
    assert_eq!(Timestamp(1577836800000).floor(Interval(WEEK_MS)), Timestamp(1577664000000));
    // 2020-01-02T00:00:00Z -> 2020-01-01T00:00:00Z
    assert_eq!(Timestamp(1577923200000).floor(Interval(MONTH_MS)), Timestamp(1577836800000));
}

#[test]
fn time_test_timestamp_to_repr() {
    assert_eq!(timestamp_repr(1546300800000), "2019-01-01T00:00:00Z");
}

#[test]
fn time_test_timestamp_from_repr() {
    assert_eq!(str_to_timestamp("2019-01-01"), Ok(1546300800000));
}

#[test]
fn time_test_ceil_timestamp() {
    assert_eq!(Timestamp(1).ceil(Interval(SEC_MS)).0, SEC_MS);
    assert_eq!(Timestamp(1001).ceil(Interval(DAY_MS)).0, DAY_MS);
    assert_eq!(Timestamp(1577836800000).ceil(Interval(WEEK_MS)).0, 1578268800000);
    assert_eq!(Timestamp(1577923200000).ceil(Interval(MONTH_MS)).0, 1580515200000);
}

#[test]
fn time_test_floor_timestamp() {
    assert_eq!(Timestamp(1).floor(Interval(SEC_MS)).0, 0);
    assert_eq!(Timestamp(1001).floor(Interval(DAY_MS)).0, 0);
    assert_eq!(Timestamp(1577836800000).floor(Interval(WEEK_MS)).0, 1577664000000);
    assert_eq!(Timestamp(1577923200000).floor(Interval(MONTH_MS)).0, 1577836800000);
}

#[test]
fn test_timestamp_parse_datetime_forms() {
    assert_eq!(str_to_timestamp("2019-01-01T00:00:00Z"), Ok(1546300800000));
    assert_eq!(str_to_timestamp("2019-01-01T00:00:00.123Z"), Ok(1546300800123));
    assert_eq!(str_to_timestamp("2019-01-01T01:02:03"), Ok(1546304523000));
    assert_eq!(str_to_timestamp("2019-01-02"), Ok(1546300800000 + DAY_MS));
}

#[test]
fn test_timestamp_parse_rejects() {
    assert_eq!(str_to_timestamp("garbage"), Err(ParseError));
    assert_eq!(str_to_timestamp(""), Err(ParseError));
    // Before the epoch: representable by the calendar but not by the type.
    assert_eq!(str_to_timestamp("1960-01-01"), Err(ParseError));
}

#[test]
fn test_timestamp_repr_pads() {
    // 2020-02-03T04:05:06Z
    assert_eq!(str_to_timestamp("2020-02-03T04:05:06Z"), Ok(1580702706000));
    assert_eq!(timestamp_repr(1580702706000), "2020-02-03T04:05:06Z");
}

#[test]
fn test_timestamp_repr_parse_round_trip() {
    for ms in [0u64, 1546300800000, 1580702706000, 4102444799000] {
        let shown = timestamp_repr(ms);
        let sec_floor = ms / 1000 * 1000;
        assert_eq!(str_to_timestamp(&shown), Ok(sec_floor));
    }
}

#[test]
fn test_month_floor_is_fixed_point() {
    let floored = Timestamp(1577923200000).floor(Interval(MONTH_MS));
    assert_eq!(floored.floor(Interval(MONTH_MS)), floored);
}

#[test]
fn test_week_alignment_brackets_input() {
    let t = Timestamp(1577836800000);
    assert!(t.floor(Interval(WEEK_MS)).0 <= t.0);
    assert!(t.ceil(Interval(WEEK_MS)).0 >= t.0);
}

#[test]
fn test_timestamp_parse_leap_second() {
    // chrono represents second 60 as an overflow of second 59 (subsecond
    // milliseconds reach 1000 there), so a leap second lands exactly on the
    // following midnight.
    assert_eq!(str_to_timestamp("2016-12-31T23:59:60Z"), Ok(1483228800000));
    assert_eq!(str_to_timestamp("2016-12-31T23:59:60"), Ok(1483228800000));
}

#[test]
fn test_month_ceil_is_idempotent() {
    // 2020-01-01T00:00:00Z is a month start: it is its own month ceiling.
    let aligned = Timestamp(1577836800000);
    assert_eq!(aligned.ceil(Interval(MONTH_MS)), aligned);
    // An unaligned input ceils to the next month start, a fixed point.
    let ceiled = Timestamp(1577923200000).ceil(Interval(MONTH_MS));
    assert_eq!(ceiled, Timestamp(1580515200000));
    assert_eq!(ceiled.ceil(Interval(MONTH_MS)), ceiled);
}

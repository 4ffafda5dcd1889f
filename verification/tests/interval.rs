use std::str::FromStr;

use juno::interval::{
    calc_interval_group, str_to_interval, Interval, DAY_MS, MIN_MS, MONTH_MS, SEC_MS, WEEK_MS,
    YEAR_MS,
};
use juno::types::ParseError;

#[test]
fn interval_test_interval_to_repr() {
    assert_eq!(Interval(2 * DAY_MS).repr(), "2d");
    assert_eq!(Interval(123).repr(), "123ms");
    assert_eq!(Interval(1234).repr(), "1s234ms");
    assert_eq!(Interval(0).repr(), "0ms");
}

#[test]
fn interval_test_interval_from_repr() {
    assert_eq!(Interval::from_str("1d"), Ok(Interval(DAY_MS)));
    assert_eq!(Interval::from_str("2d"), Ok(Interval(DAY_MS * 2)));
    assert_eq!(Interval::from_str("1s1ms"), Ok(Interval(SEC_MS + 1)));
    assert_eq!(Interval::from_str("1m1s"), Ok(Interval(MIN_MS + SEC_MS)));
}

#[test]
fn time_test_interval_to_repr() {
    assert_eq!(juno::interval::interval_repr(DAY_MS * 2), "2d");
    assert_eq!(juno::interval::interval_repr(123), "123ms");
    assert_eq!(juno::interval::interval_repr(1234), "1s234ms");
    assert_eq!(juno::interval::interval_repr(0), "0ms");
}

#[test]
fn time_test_interval_from_repr() {
    assert_eq!(str_to_interval("1d"), Ok(DAY_MS));
    assert_eq!(str_to_interval("2d"), Ok(DAY_MS * 2));
    assert_eq!(str_to_interval("1s1ms"), Ok(SEC_MS + 1));
    assert_eq!(str_to_interval("1m1s"), Ok(MIN_MS + SEC_MS));
}

#[test]
fn test_interval_repr_parse_round_trip() {
    for ms in [1, SEC_MS + 234, MIN_MS + SEC_MS, 2 * DAY_MS, YEAR_MS + MONTH_MS] {
        let shown = Interval(ms).repr();
        assert_eq!(Interval::from_str(&shown), Ok(Interval(ms)), "{shown}");
    }
}

#[test]
fn test_interval_repr_all_units() {
    assert_eq!(Interval(YEAR_MS).repr(), "1y");
    assert_eq!(Interval(MONTH_MS).repr(), "1M");
    assert_eq!(Interval(WEEK_MS).repr(), "1w");
    assert_eq!(Interval(YEAR_MS + MONTH_MS).repr(), "1y1M");
}

#[test]
fn test_interval_parse_skips_strays() {
    // Digits not followed by letters, and stray characters, are skipped.
    assert_eq!(str_to_interval("1.5d"), Ok(5 * DAY_MS));
    assert_eq!(str_to_interval("foo2h"), Ok(2 * 3_600_000));
    assert_eq!(str_to_interval(""), Ok(0));
    assert_eq!(str_to_interval("xyz"), Ok(0));
}

#[test]
fn test_interval_parse_unknown_unit() {
    assert_eq!(str_to_interval("5q"), Err(ParseError));
    assert_eq!(Interval::from_str("1d2q"), Err(ParseError));
}

#[test]
fn test_calc_interval_group() {
    assert_eq!(calc_interval_group("12d"), Ok(12 * DAY_MS));
    assert_eq!(calc_interval_group("3ms"), Ok(3));
    assert_eq!(calc_interval_group("1y"), Ok(YEAR_MS));
    assert_eq!(calc_interval_group("d"), Err(ParseError));
    assert_eq!(calc_interval_group("12"), Err(ParseError));
    assert_eq!(calc_interval_group("5q"), Err(ParseError));
    assert_eq!(calc_interval_group("1x2d"), Err(ParseError));
}

#[test]
fn test_interval_ceil() {
    assert_eq!(Interval(1).ceil(Interval(SEC_MS)), Interval(SEC_MS));
    assert_eq!(Interval(SEC_MS).ceil(Interval(SEC_MS)), Interval(SEC_MS));
    assert_eq!(Interval(0).ceil(Interval(SEC_MS)), Interval(0));
}

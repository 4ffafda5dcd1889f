use juno::signal::{combine, Changed, MidTrend, MidTrendPolicy, Persistence};
use juno::types::Advice;

#[test]
fn test_changed_collapses_repeats() {
    let mut changed = Changed::new(true);
    assert_eq!(changed.update(Advice::Long), Advice::Long);
    assert_eq!(changed.update(Advice::Long), Advice::Hold);
    assert_eq!(changed.update(Advice::Short), Advice::Short);
    assert_eq!(changed.update(Advice::Hold), Advice::Hold);
    assert_eq!(changed.update(Advice::Hold), Advice::Hold);
    assert_eq!(changed.update(Advice::Long), Advice::Long);
}

#[test]
fn test_changed_disabled_passes_through() {
    let mut changed = Changed::new(false);
    assert_eq!(changed.update(Advice::Long), Advice::Long);
    assert_eq!(changed.update(Advice::Long), Advice::Long);
}

#[test]
fn test_mid_trend_current() {
    let mut mt = MidTrend::new(MidTrendPolicy::Current);
    assert_eq!(mt.maturity(), 1);
    assert_eq!(mt.update(Advice::Long), Advice::Long);
    assert_eq!(mt.update(Advice::Short), Advice::Short);
}

#[test]
fn test_mid_trend_previous_lags() {
    let mut mt = MidTrend::new(MidTrendPolicy::Previous);
    assert_eq!(mt.maturity(), 2);
    assert_eq!(mt.update(Advice::Long), Advice::Hold);
    assert_eq!(mt.update(Advice::Short), Advice::Long);
    assert_eq!(mt.update(Advice::Short), Advice::Short);
}

#[test]
fn test_mid_trend_ignore_suppresses_first() {
    let mut mt = MidTrend::new(MidTrendPolicy::Ignore);
    assert_eq!(mt.maturity(), 2);
    assert_eq!(mt.update(Advice::Long), Advice::Hold);
    assert_eq!(mt.update(Advice::Long), Advice::Hold);
    assert_eq!(mt.update(Advice::Short), Advice::Short);
    // Once a change was seen, everything passes.
    assert_eq!(mt.update(Advice::Short), Advice::Short);
    assert_eq!(mt.update(Advice::Long), Advice::Long);
}

#[test]
fn test_persistence_level_zero_passes_through() {
    let mut p = Persistence::new(0, false);
    assert_eq!(p.update(Advice::Long), Advice::Long);
    assert_eq!(p.update(Advice::Short), Advice::Short);
}

#[test]
fn test_persistence_waits_for_level() {
    let mut p = Persistence::new(2, false);
    assert_eq!(p.maturity(), 3);
    assert_eq!(p.update(Advice::Long), Advice::Hold);
    assert_eq!(p.update(Advice::Long), Advice::Hold);
    assert_eq!(p.update(Advice::Long), Advice::Long);
    // A change resets the count.
    assert_eq!(p.update(Advice::Short), Advice::Hold);
    assert_eq!(p.update(Advice::Short), Advice::Hold);
    assert_eq!(p.update(Advice::Short), Advice::Short);
}

#[test]
fn test_persistence_return_previous() {
    let mut p = Persistence::new(1, true);
    assert_eq!(p.update(Advice::Long), Advice::Hold);
    assert_eq!(p.update(Advice::Long), Advice::Long);
    // While a new advice persists, the old one keeps being returned.
    assert_eq!(p.update(Advice::Short), Advice::Long);
    assert_eq!(p.update(Advice::Short), Advice::Short);
}

#[test]
fn test_combine() {
    assert_eq!(combine(Advice::Long, Advice::Long), Advice::Long);
    assert_eq!(combine(Advice::Long, Advice::Hold), Advice::Hold);
    assert_eq!(combine(Advice::Hold, Advice::Short), Advice::Hold);
    assert_eq!(combine(Advice::Long, Advice::Short), Advice::Liquidate);
    assert_eq!(combine(Advice::Short, Advice::Liquidate), Advice::Liquidate);
}

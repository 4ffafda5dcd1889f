use juno::evaluation::{EvaluationAggregation, EvaluationStatistic};
use juno::interval::{Interval, DAY_MS, HOUR_MS};
use juno::trading::{TraderParams, TraderParamsContext};
use juno::types::{AssetInfo, CandleType};
use rand::SeedableRng;

#[test]
fn test_trader_params_generate_single_choice() {
    let mut rng = rand::rngs::StdRng::seed_from_u64(7);
    let ctx = TraderParamsContext { intervals: vec![Interval(DAY_MS)] };
    let params = TraderParams::generate(&mut rng, &ctx);
    assert_eq!(params.interval, Interval(DAY_MS));
}

#[test]
fn test_trader_params_generate_from_choices() {
    let mut rng = rand::rngs::StdRng::seed_from_u64(7);
    let ctx = TraderParamsContext { intervals: vec![Interval(DAY_MS), Interval(HOUR_MS)] };
    for _ in 0..16 {
        let params = TraderParams::generate(&mut rng, &ctx);
        assert!(ctx.intervals.contains(&params.interval));
    }
}

#[test]
fn test_trader_params_cross_swaps() {
    let mut a = TraderParams { interval: Interval(DAY_MS) };
    let mut b = TraderParams { interval: Interval(HOUR_MS) };
    a.cross(&mut b, 0);
    assert_eq!(a.interval, Interval(HOUR_MS));
    assert_eq!(b.interval, Interval(DAY_MS));
}

#[test]
fn test_trader_params_mutate_single_choice() {
    let mut rng = rand::rngs::StdRng::seed_from_u64(7);
    let ctx = TraderParamsContext { intervals: vec![Interval(HOUR_MS)] };
    let mut params = TraderParams { interval: Interval(DAY_MS) };
    params.mutate(&mut rng, 0, &ctx);
    assert_eq!(params.interval, Interval(HOUR_MS));
}

#[test]
fn test_trader_params_len() {
    assert_eq!(TraderParams::len(), 1);
}

#[test]
fn test_evaluation_values() {
    let stats = EvaluationStatistic::values();
    assert_eq!(stats.len(), 4);
    assert_eq!(stats[0], EvaluationStatistic::Profit);
    assert_eq!(stats[3], EvaluationStatistic::SortinoRatio);
    let aggs = EvaluationAggregation::values();
    assert_eq!(aggs.len(), 3);
    assert_eq!(aggs[0], EvaluationAggregation::Linear);
    assert_eq!(aggs[2], EvaluationAggregation::Log10Factored);
}

#[test]
fn test_candle_type_label() {
    assert_eq!(CandleType::Regular.label(), "regular");
    assert_eq!(CandleType::HeikinAshi.label(), "heikin-ashi");
}

#[test]
fn test_asset_info() {
    let info = AssetInfo { precision: 8 };
    assert_eq!(info.precision, 8);
}

#[test]
fn test_dm_schedule() {
    let mut schedule = juno::indicator::DmSchedule::new(3);
    assert_eq!(schedule.maturity(), 3);
    assert!(!schedule.mature());
    let s1 = schedule.update();
    assert!(!s1.accumulate && !s1.emit_initial && !s1.smooth);
    let s2 = schedule.update();
    assert!(s2.accumulate && !s2.emit_initial && !s2.smooth);
    let s3 = schedule.update();
    assert!(s3.accumulate && s3.emit_initial && !s3.smooth);
    assert!(schedule.mature());
    let s4 = schedule.update();
    assert!(!s4.accumulate && !s4.emit_initial && s4.smooth);
    // The counter is capped: smoothing continues.
    let s5 = schedule.update();
    assert!(s5.smooth);
}

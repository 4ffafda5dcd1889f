//! How a backtest summary is reduced to a fitness scalar and how per-symbol
//! scalars are aggregated: the closed sets of choices.

use vstd::prelude::*;

verus! {

/// The summary statistic used as the objective.
#[derive(Clone, Copy, Debug, PartialEq, Eq, Structural)]
pub enum EvaluationStatistic {
    Profit,
    ReturnOverMaxDrawdown,
    SharpeRatio,
    SortinoRatio,
}

impl EvaluationStatistic {
    /// Every statistic, in canonical order.
    pub fn values() -> (r: Vec<EvaluationStatistic>)
        ensures
            r@ == seq![
                EvaluationStatistic::Profit,
                EvaluationStatistic::ReturnOverMaxDrawdown,
                EvaluationStatistic::SharpeRatio,
                EvaluationStatistic::SortinoRatio,
            ],
    {
        let mut v: Vec<EvaluationStatistic> = Vec::new();
        v.push(EvaluationStatistic::Profit);
        v.push(EvaluationStatistic::ReturnOverMaxDrawdown);
        v.push(EvaluationStatistic::SharpeRatio);
        v.push(EvaluationStatistic::SortinoRatio);
        proof {
            assert(v@ =~= seq![
                EvaluationStatistic::Profit,
                EvaluationStatistic::ReturnOverMaxDrawdown,
                EvaluationStatistic::SharpeRatio,
                EvaluationStatistic::SortinoRatio,
            ]);
        }
        v
    }
}

/// How per-symbol fitness values fold into one.
#[derive(Clone, Copy, Debug, PartialEq, Eq, Structural)]
pub enum EvaluationAggregation {
    Linear,
    Log10,
    Log10Factored,
}

impl EvaluationAggregation {
    /// Every aggregation, in canonical order.
    pub fn values() -> (r: Vec<EvaluationAggregation>)
        ensures
            r@ == seq![
                EvaluationAggregation::Linear,
                EvaluationAggregation::Log10,
                EvaluationAggregation::Log10Factored,
            ],
    {
        let mut v: Vec<EvaluationAggregation> = Vec::new();
        v.push(EvaluationAggregation::Linear);
        v.push(EvaluationAggregation::Log10);
        v.push(EvaluationAggregation::Log10Factored);
        proof {
            assert(v@ =~= seq![
                EvaluationAggregation::Linear,
                EvaluationAggregation::Log10,
                EvaluationAggregation::Log10Factored,
            ]);
        }
        v
    }
}

} // verus!

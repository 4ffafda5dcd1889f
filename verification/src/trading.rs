//! The trader's own gene of the optimizer's chromosome: the candle interval,
//! with generation, crossover, and mutation over a context of allowed
//! intervals.

use crate::interval::Interval;
use vstd::prelude::*;

verus! {

#[verifier::external_type_specification]
#[verifier::external_body]
pub struct ExStdRng(rand::rngs::StdRng);

/// Relies on rand's `Rng::gen_range` over `0..n`: an index below `n`, drawn
/// from the given seeded generator.
#[verifier::external_body]
fn rand_index(rng: &mut rand::rngs::StdRng, n: u64) -> (r: u64)
    requires
        n > 0,
    ensures
        r < n,
{
    rand::Rng::gen_range(rng, 0..n)
}

/// The trader's parameters.
#[derive(Clone, Copy, Debug, PartialEq, Eq, Structural)]
pub struct TraderParams {
    pub interval: Interval,
}

/// The allowed choices for each trader parameter.
#[derive(Debug)]
pub struct TraderParamsContext {
    pub intervals: Vec<Interval>,
}

impl TraderParams {
    /// Number of genes.
    pub fn len() -> (r: usize)
        ensures
            r == 1,
    {
        1
    }

    /// Draw parameters from the context: the single allowed interval when
    /// there is only one, otherwise a uniformly drawn one. An empty context
    /// is an invalid configuration and is rejected up front.
    pub fn generate(rng: &mut rand::rngs::StdRng, ctx: &TraderParamsContext) -> (r: Self)
        requires
            ctx.intervals@.len() > 0,
        ensures
            exists|k: int| 0 <= k < ctx.intervals@.len() && r.interval == ctx.intervals@[k],
            ctx.intervals@.len() == 1 ==> r.interval == ctx.intervals@[0],
    {
        if ctx.intervals.len() == 1 {
            TraderParams { interval: ctx.intervals[0] }
        } else {
            let i = rand_index(rng, ctx.intervals.len() as u64);
            TraderParams { interval: ctx.intervals[i as usize] }
        }
    }

    /// Swap gene `i` with the partner. The only gene is the interval.
    pub fn cross(&mut self, other: &mut Self, i: usize)
        requires
            i == 0,
        ensures
            final(self).interval == old(other).interval,
            final(other).interval == old(self).interval,
    {
        let tmp = self.interval;
        self.interval = other.interval;
        other.interval = tmp;
    }

    /// Redraw gene `i` from the context. The only gene is the interval.
    pub fn mutate(&mut self, rng: &mut rand::rngs::StdRng, i: usize, ctx: &TraderParamsContext)
        requires
            i == 0,
            ctx.intervals@.len() > 0,
        ensures
            exists|k: int|
                0 <= k < ctx.intervals@.len() && final(self).interval == ctx.intervals@[k],
            ctx.intervals@.len() == 1 ==> final(self).interval == ctx.intervals@[0],
    {
        let fresh = TraderParams::generate(rng, ctx);
        self.interval = fresh.interval;
    }
}

} // verus!

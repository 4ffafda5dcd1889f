//! Small shared domain types: advice signals, close reasons, position kinds,
//! asset metadata, candle flavors, and the parse error.

use vstd::prelude::*;

verus! {

/// Discrete signal output of a strategy. `Hold` is the absence of advice.
#[derive(Clone, Copy, Debug, PartialEq, Eq, Structural)]
pub enum Advice {
    Hold,
    Long,
    Short,
    Liquidate,
}

/// Why a position was closed.
#[derive(Clone, Copy, Debug, PartialEq, Eq, Structural)]
pub enum CloseReason {
    Strategy,
    StopLoss,
    TakeProfit,
    Cancelled,
}

/// Direction of a position.
#[derive(Clone, Copy, Debug, PartialEq, Eq, Structural)]
pub enum PositionType {
    Long,
    Short,
}

/// Decimal precision of an asset.
#[derive(Clone, Copy, Debug, PartialEq, Eq, Structural)]
pub struct AssetInfo {
    pub precision: u32,
}

/// Flavor of a candle series.
#[derive(Clone, Copy, Debug, PartialEq, Eq, Structural)]
pub enum CandleType {
    Regular,
    HeikinAshi,
}

impl CandleType {
    /// The wire name of the candle type.
    pub fn label(&self) -> (r: &'static str)
        ensures
            *self == CandleType::Regular ==> r@ == "regular"@,
            *self == CandleType::HeikinAshi ==> r@ == "heikin-ashi"@,
    {
        match self {
            CandleType::Regular => "regular",
            CandleType::HeikinAshi => "heikin-ashi",
        }
    }
}

/// Failure to parse an interval or timestamp representation.
#[derive(Clone, Copy, Debug, PartialEq, Eq, Structural)]
pub struct ParseError;

} // verus!

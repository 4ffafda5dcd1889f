//! Core of a deterministic trading backtester: time primitives with
//! calendar-aware alignment, symbol handling, advice filters, the engine's
//! position-ledger state machine, candle buffering, and evaluation plumbing.

pub mod candle_buffer;
pub mod collect;
pub mod engine;
pub mod evaluation;
pub mod indicator;
pub mod interval;
pub mod math;
pub mod signal;
pub mod symbol;
pub mod timestamp;
pub mod trading;
pub mod types;

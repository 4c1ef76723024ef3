//! Decision logic of a set of backtesting trading agents: news fade and
//! news hybrid arbitration, a US-open overnight reversal, a VWAP/OBV-RSI
//! scalper and a fair-value-gap strategy, plus grid-search enumeration.
pub mod time;
pub mod grid;
pub mod trade;
pub mod overnight;
pub mod news;
pub mod scalping;
pub mod smc;

//! Agents that trade around high-impact economic news releases.
pub mod fade;
pub mod hybrid;

use vstd::prelude::*;

verus! {

/// The direction of a candle's body.
#[derive(Debug, Clone, Copy, PartialEq, Eq, Structural)]
pub enum CandleDirection {
    /// Close above open.
    Bullish,
    /// Close below open.
    Bearish,
    /// Close equal to open.
    Doji,
}

/// The candle that opened at a news release, with what the decisions read
/// of it (its open time and body direction) and the candle itself, which
/// the caller prices from.
#[derive(Debug, Clone, Copy, PartialEq, Eq)]
pub struct NewsCandle<C> {
    pub open_time: i64,
    pub direction: CandleDirection,
    pub candle: C,
}

/// Where a news agent stands with respect to the last release.
#[derive(Debug, Clone, Copy, PartialEq, Eq)]
pub enum NewsPhase<C> {
    /// Waiting for a news event to occur.
    AwaitingNews,
    /// A news event was seen at `news_time`; waiting for the moment to enter.
    /// `news_candle` is the candle that opened at the release, once found.
    PostNews { news_time: i64, news_candle: Option<NewsCandle<C>> },
}

} // verus!

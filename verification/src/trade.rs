//! Vocabulary shared by the agents.
use vstd::prelude::*;

verus! {

/// The side of a trade.
#[derive(Debug, Clone, Copy, PartialEq, Eq, Structural)]
pub enum TradeKind {
    Long,
    Short,
}

} // verus!

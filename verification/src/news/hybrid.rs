//! News hybrid: arbitration between the news breakout and the news fade.
//!
//! Both sub-agents are asked for their actions every step; a breakout
//! signal is taken as the stronger one. It is executed whenever it appears,
//! and if the fade agent holds a trade at that moment, that trade is closed
//! at market in the same step ("pivot"). A fade signal is executed only when
//! the breakout does not signal and holds no trade.
use vstd::prelude::*;

verus! {

/// What the two sub-agents proposed this step and what they hold.
/// `T` stands for the fade agent's open trade (whatever closing it needs).
#[derive(Debug, Clone, Copy, PartialEq, Eq)]
pub struct HybridSignals<T> {
    /// The breakout agent proposes to open a trade on its market.
    pub breakout_opens: bool,
    /// The fade agent proposes to open a trade on its market.
    pub fade_opens: bool,
    /// The fade agent's open trade, if it has one.
    pub fade_trade: Option<T>,
    /// The breakout agent has an open trade.
    pub breakout_in_trade: bool,
}

/// Which of the proposals go out.
#[derive(Debug, Clone, Copy, PartialEq, Eq)]
pub enum HybridDecision<T> {
    NoOp,
    /// The breakout agent's actions.
    Breakout,
    /// The breakout agent's actions, plus a market close of this fade trade.
    BreakoutClosingFade(T),
    /// The fade agent's actions.
    Fade,
}

/// The priority policy, stated as a function of the signals.
pub open spec fn hybrid_policy<T>(s: HybridSignals<T>) -> HybridDecision<T> {
    if s.breakout_opens {
        match s.fade_trade {
            Some(t) => HybridDecision::BreakoutClosingFade(t),
            None => HybridDecision::Breakout,
        }
    } else if s.fade_opens {
        if s.breakout_in_trade {
            HybridDecision::NoOp
        } else {
            HybridDecision::Fade
        }
    } else {
        HybridDecision::NoOp
    }
}

/// Decides which proposals of this step go out.
pub fn arbitrate<T: Copy>(s: &HybridSignals<T>) -> (d: HybridDecision<T>)
    ensures
        d == hybrid_policy(*s),
{
    if s.breakout_opens {
        match s.fade_trade {
            Some(t) => HybridDecision::BreakoutClosingFade(t),
            None => HybridDecision::Breakout,
        }
    } else if s.fade_opens {
        if s.breakout_in_trade {
            HybridDecision::NoOp
        } else {
            HybridDecision::Fade
        }
    } else {
        HybridDecision::NoOp
    }
}

/// Law: a breakout signal always goes out, whatever the fade proposes.
pub proof fn lemma_breakout_dominates<T>(s: HybridSignals<T>)
    requires
        s.breakout_opens,
    ensures
        hybrid_policy(s) is Breakout || hybrid_policy(s) is BreakoutClosingFade,
{
}

/// Law: the pivot closes exactly the fade agent's open trade, and only when
/// the breakout signals.
pub proof fn lemma_pivot_closes_fade_trade<T>(s: HybridSignals<T>)
    ensures
        (hybrid_policy(s) is BreakoutClosingFade) <==> (s.breakout_opens && s.fade_trade is Some),
        hybrid_policy(s) is BreakoutClosingFade ==> hybrid_policy(s)->BreakoutClosingFade_0
            == s.fade_trade->0,
{
}

/// Law: fade actions go out only when the fade signals, the breakout does
/// not, and the breakout holds no trade.
pub proof fn lemma_fade_only_unopposed<T>(s: HybridSignals<T>)
    ensures
        (hybrid_policy(s) is Fade) <==> (s.fade_opens && !s.breakout_opens && !s.breakout_in_trade),
{
}

} // verus!

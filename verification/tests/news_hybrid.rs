use chapaty_garden::news::hybrid::{arbitrate, HybridDecision, HybridSignals};

fn sig(breakout_opens: bool, fade_opens: bool, fade_trade: Option<i64>, breakout_in_trade: bool) -> HybridSignals<i64> {
    HybridSignals { breakout_opens, fade_opens, fade_trade, breakout_in_trade }
}

#[test]
fn breakout_alone_goes_out() {
    assert_eq!(arbitrate(&sig(true, false, None, false)), HybridDecision::Breakout);
}

#[test]
fn simultaneous_signals_favor_breakout() {
    assert_eq!(arbitrate(&sig(true, true, None, false)), HybridDecision::Breakout);
}

#[test]
fn breakout_pivots_out_of_open_fade_trade() {
    assert_eq!(arbitrate(&sig(true, false, Some(4), false)), HybridDecision::BreakoutClosingFade(4));
    assert_eq!(arbitrate(&sig(true, true, Some(4), true)), HybridDecision::BreakoutClosingFade(4));
}

#[test]
fn fade_alone_goes_out() {
    assert_eq!(arbitrate(&sig(false, true, None, false)), HybridDecision::Fade);
}

#[test]
fn fade_ignored_while_breakout_trades() {
    assert_eq!(arbitrate(&sig(false, true, None, true)), HybridDecision::NoOp);
}

#[test]
fn nothing_proposed_nothing_done() {
    assert_eq!(arbitrate(&sig(false, false, Some(3), true)), HybridDecision::NoOp);
}

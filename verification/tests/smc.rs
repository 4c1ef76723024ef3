use chapaty_garden::time::{MAX_INSTANT_MS, MIN_INSTANT_MS};
use chapaty_garden::smc::{
    CandleStart, ExitOrder, FlorianFvgAgent, FvgOrder, SetupPhase, StructureActions, StructureEvent,
};

type Agent = FlorianFvgAgent<u32>;

const WINTER_2145_UTC: i64 = 1_705_355_100_000; // 2024-01-15 21:45 UTC = 22:45 CET
const WINTER_2100_UTC: i64 = 1_705_352_400_000; // 22:00 CET
const WINTER_2045_UTC: i64 = 1_705_351_500_000; // 21:45 CET
const SUMMER_2000_UTC: i64 = 1_721_073_600_000; // 2024-07-15 22:00 CEST
const SUMMER_1945_UTC: i64 = 1_721_072_700_000; // 21:45 CEST
const WINTER_2315_UTC: i64 = 1_705_360_500_000; // 2024-01-16 00:15 CET
const NEXT_DAY_0800_UTC: i64 = 1_705_392_000_000; // 2024-01-16 09:00 CET

fn bullish(pivot_price: u32) -> Option<StructureEvent<u32>> {
    Some(StructureEvent { bos_or_choch: true, pivot_high: true, pivot_price, extremum_covers_pivot: false })
}

fn bearish() -> Option<StructureEvent<u32>> {
    Some(StructureEvent { bos_or_choch: true, pivot_high: false, pivot_price: 0, extremum_covers_pivot: false })
}

#[test]
fn evaluate_then_place_order_on_bullish_structure() {
    let mut agent: Agent = FlorianFvgAgent::new();
    assert_eq!(agent.begin_candle(WINTER_2045_UTC - 3_600_000, None), CandleStart::Evaluate);
    assert!(agent.can_place(&bullish(120), 5, &Some(77u8)));
    let a = agent.on_structure(bullish(120), 5, Some(77u8));
    assert_eq!(a, StructureActions { cancel: None, open: Some(FvgOrder { trade_id: 1, order: 77u8, take_profit: 120 }) });
    assert_eq!(agent.setup_phase, SetupPhase::OrderPending { trade_id: 1 });
    assert_eq!(agent.tp_extremum, Some(120));
    assert_eq!(agent.movement_start_index, 5);
}

#[test]
fn any_structure_break_cancels_pending_order() {
    let mut agent: Agent = FlorianFvgAgent::new();
    agent.begin_candle(WINTER_2045_UTC - 3_600_000, None);
    agent.on_structure(bullish(120), 5, Some(1u8));
    agent.begin_candle(WINTER_2045_UTC - 2_700_000, None);
    let a = agent.on_structure::<u8>(bearish(), 9, None);
    assert_eq!(a, StructureActions { cancel: Some(1), open: None });
    assert_eq!(agent.setup_phase, SetupPhase::Scanning);
    assert_eq!(agent.tp_extremum, Some(120));
    assert_eq!(agent.movement_start_index, 9);
    // a bullish break both cancels and replaces
    agent.on_structure(bullish(130), 10, Some(2u8));
    let a = agent.on_structure(bullish(140), 12, Some(3u8));
    assert_eq!(a, StructureActions { cancel: Some(2), open: Some(FvgOrder { trade_id: 3, order: 3u8, take_profit: 140 }) });
}

#[test]
fn bullish_structure_without_gap_places_nothing() {
    let mut agent: Agent = FlorianFvgAgent::new();
    let a = agent.on_structure::<u8>(bullish(120), 4, None);
    assert_eq!(a, StructureActions { cancel: None, open: None });
    assert_eq!(agent.tp_extremum, Some(120));
    assert_eq!(agent.movement_start_index, 4);
    // not a break of structure: nothing moves
    let a = agent.on_structure(Some(StructureEvent { bos_or_choch: false, pivot_high: true, pivot_price: 999, extremum_covers_pivot: false }), 8, Some(1u8));
    assert_eq!(a.open, None);
    assert_eq!(agent.tp_extremum, Some(120));
    assert_eq!(agent.movement_start_index, 4);
}

#[test]
fn fill_is_noticed_and_trade_held() {
    let mut agent: Agent = FlorianFvgAgent::new();
    agent.begin_candle(WINTER_2045_UTC - 3_600_000, None);
    agent.on_structure(bullish(120), 5, Some(1u8));
    assert_eq!(agent.begin_candle(WINTER_2045_UTC - 2_700_000, Some(1)), CandleStart::HoldTrade);
    assert_eq!(agent.setup_phase, SetupPhase::InTrade { trade_id: 1 });
    // trade gone (TP/SL): back to scanning on the same candle
    assert_eq!(agent.begin_candle(WINTER_2045_UTC - 1_800_000, None), CandleStart::Evaluate);
    assert_eq!(agent.setup_phase, SetupPhase::Scanning);
}

#[test]
fn duplicate_candle_is_skipped() {
    let mut agent: Agent = FlorianFvgAgent::new();
    agent.begin_candle(WINTER_2045_UTC, None);
    let before = agent;
    assert_eq!(agent.begin_candle(WINTER_2045_UTC, Some(3)), CandleStart::Duplicate);
    assert_eq!(agent, before);
}

#[test]
fn timeout_at_22_berlin_in_winter_cancels_pending_order() {
    let mut agent: Agent = FlorianFvgAgent::new();
    agent.begin_candle(WINTER_2045_UTC, None);
    agent.on_structure(bullish(120), 5, Some(1u8));
    let start = agent.begin_candle(WINTER_2100_UTC, None);
    assert_eq!(start, CandleStart::TimedOut(Some(ExitOrder::Cancel { trade_id: 1 })));
    assert_eq!(agent.setup_phase, SetupPhase::DoneForDay);
    // rest of the Berlin day: idle
    assert_eq!(agent.begin_candle(WINTER_2145_UTC, None), CandleStart::Idle);
    // next Berlin date (00:15 CET): scanning again
    assert_eq!(agent.begin_candle(WINTER_2315_UTC, None), CandleStart::Evaluate);
    assert_eq!(agent.setup_phase, SetupPhase::Scanning);
}

#[test]
fn timeout_at_22_berlin_in_summer_closes_open_trade() {
    let mut agent: Agent = FlorianFvgAgent::new();
    agent.begin_candle(SUMMER_1945_UTC - 900_000, None);
    agent.on_structure(bullish(120), 5, Some(1u8));
    assert_eq!(agent.begin_candle(SUMMER_1945_UTC, Some(1)), CandleStart::HoldTrade);
    let start = agent.begin_candle(SUMMER_2000_UTC, Some(1));
    assert_eq!(start, CandleStart::TimedOut(Some(ExitOrder::MarketClose { trade_id: 1 })));
    assert_eq!(agent.setup_phase, SetupPhase::DoneForDay);
}

#[test]
fn scanning_at_timeout_just_ends_the_day() {
    let mut agent: Agent = FlorianFvgAgent::new();
    assert_eq!(agent.begin_candle(WINTER_2145_UTC, None), CandleStart::TimedOut(None));
    assert!(agent.setup_phase.is_done_for_day());
    assert_eq!(agent.begin_candle(NEXT_DAY_0800_UTC, None), CandleStart::Evaluate);
}

#[test]
fn reset_starts_over() {
    let mut agent: Agent = FlorianFvgAgent::new();
    agent.begin_candle(WINTER_2045_UTC, None);
    agent.on_structure(bullish(120), 5, Some(1u8));
    agent.reset();
    assert_eq!(agent, FlorianFvgAgent::new());
}

#[test]
fn handle_timeout_without_live_trade_only_ends_day() {
    let mut agent: Agent = FlorianFvgAgent::new();
    agent.setup_phase = SetupPhase::InTrade { trade_id: 4 };
    assert_eq!(agent.handle_timeout(None), None);
    assert_eq!(agent.setup_phase, SetupPhase::DoneForDay);
}

#[test]
fn representable_extremes_are_accepted() {
    assert!(Agent::can_begin(MIN_INSTANT_MS));
    let mut agent: Agent = FlorianFvgAgent::new();
    assert_eq!(agent.begin_candle(MIN_INSTANT_MS, None), CandleStart::Evaluate);
    let last = MAX_INSTANT_MS - 86_400_000; // Dec 30, 23:59:59.999 UTC: 00:59 in Berlin
    assert!(Agent::can_begin(last));
    assert!(!Agent::can_begin(last + 1));
    let mut agent: Agent = FlorianFvgAgent::new();
    assert_eq!(agent.begin_candle(last, None), CandleStart::Evaluate);
    let mut agent: Agent = FlorianFvgAgent::new();
    assert_eq!(agent.begin_candle(last - 3_600_000, None), CandleStart::TimedOut(None));
}

#[test]
fn take_profit_extremum_is_the_running_maximum() {
    let mut agent: Agent = FlorianFvgAgent::new();
    agent.on_structure::<u8>(bullish(140), 3, None);
    assert_eq!(agent.tp_extremum, Some(140));
    // a lower pivot: the current extremum covers it and stays
    let lower = Some(StructureEvent { bos_or_choch: true, pivot_high: true, pivot_price: 130, extremum_covers_pivot: true });
    let a = agent.on_structure(lower, 6, Some(9u8));
    assert_eq!(a.open, Some(FvgOrder { trade_id: 1, order: 9u8, take_profit: 140 }));
    assert_eq!(agent.tp_extremum, Some(140));
    // a higher pivot: the extremum moves up to it
    let a = agent.on_structure(bullish(150), 8, Some(10u8));
    assert_eq!(a.cancel, Some(1));
    assert_eq!(a.open, Some(FvgOrder { trade_id: 2, order: 10u8, take_profit: 150 }));
    assert_eq!(agent.tp_extremum, Some(150));
}

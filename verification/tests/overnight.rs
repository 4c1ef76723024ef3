use chapaty_garden::overnight::{
    DailyPhase, LimitOrder, OvernightSession, ReversalAction, ReversalObservation,
    UsOpenReversalAgent, UsOpenReversalAgentGrid,
};
use chapaty_garden::trade::TradeKind;

const OPEN_0930_NY: i64 = 1_705_329_000_000; // 2024-01-15 14:30 UTC = 09:30 EST
const PREV_DAY_OPEN: i64 = OPEN_0930_NY - 86_400_000; // 2024-01-14 09:30 EST
const CLOSE_1600_NY: i64 = 1_705_352_400_000; // 2024-01-15 21:00 UTC = 16:00 EST
const SUMMER_OPEN_0930_NY: i64 = 1_721_050_200_000; // 2024-07-15 13:30 UTC = 09:30 EDT
const SUMMER_CLOSE_1600_NY: i64 = 1_721_073_600_000; // 2024-07-15 20:00 UTC = 16:00 EDT
const NEXT_NY_DAY_0100: i64 = 1_705_384_800_000; // 2024-01-16 06:00 UTC = 01:00 EST
const MIN: i64 = 60_000;

fn session(close_time: i64) -> Option<OvernightSession> {
    Some(OvernightSession { close_time, low_ticks: 1000, high_ticks: 1100 })
}

fn obs(now: i64, session: Option<OvernightSession>, live_trade: Option<i64>) -> ReversalObservation {
    ReversalObservation { now, session, live_trade }
}

#[test]
fn default_parameters_give_two_to_one_reward() {
    let agent = UsOpenReversalAgent::new();
    assert_eq!(agent.sl_ticks, 10);
    assert_eq!(agent.tp_ticks, 20);
    assert_eq!(agent.max_hold_mins, 30);
    assert_eq!(agent.tp_ticks, 2 * agent.sl_ticks);
    assert_eq!(agent.daily_phase, DailyPhase::AwaitingSession);
    assert_eq!(DailyPhase::default(), DailyPhase::AwaitingSession);
}

#[test]
fn builders_set_parameters() {
    let agent = UsOpenReversalAgent::new().with_sl_ticks(7).with_tp_ticks(21).with_max_hold_mins(45);
    assert_eq!((agent.sl_ticks, agent.tp_ticks, agent.max_hold_mins), (7, 21, 45));
}

#[test]
fn session_close_places_both_legs() {
    let mut agent = UsOpenReversalAgent::new();
    let o = obs(OPEN_0930_NY, session(OPEN_0930_NY), None);
    assert!(agent.can_act(&o));
    let action = agent.act(&o);
    assert_eq!(
        action,
        ReversalAction::PlaceOrders {
            long: LimitOrder {
                trade_id: 1,
                trade_kind: TradeKind::Long,
                entry_ticks: 1000,
                stop_loss_ticks: 990,
                take_profit_ticks: 1020,
            },
            short: LimitOrder {
                trade_id: 2,
                trade_kind: TradeKind::Short,
                entry_ticks: 1100,
                stop_loss_ticks: 1110,
                take_profit_ticks: 1080,
            },
        }
    );
    assert_eq!(agent.daily_phase, DailyPhase::OrdersPlaced { long_trade_id: 1, short_trade_id: 2, placed_at: OPEN_0930_NY });
    assert_eq!(agent.trade_counter, 2);
}

#[test]
fn stale_session_is_ignored() {
    let mut agent = UsOpenReversalAgent::new();
    let action = agent.act(&obs(OPEN_0930_NY, session(PREV_DAY_OPEN), None));
    assert_eq!(action, ReversalAction::NoOp);
    assert_eq!(agent, UsOpenReversalAgent::new());
}

#[test]
fn no_session_waits() {
    let mut agent = UsOpenReversalAgent::new();
    assert_eq!(agent.act(&obs(OPEN_0930_NY, None, None)), ReversalAction::NoOp);
    assert_eq!(agent.daily_phase, DailyPhase::AwaitingSession);
}

#[test]
fn long_fill_cancels_short_leg() {
    let mut agent = UsOpenReversalAgent::new();
    agent.act(&obs(OPEN_0930_NY, session(OPEN_0930_NY), None));
    assert_eq!(agent.act(&obs(OPEN_0930_NY + MIN, None, None)), ReversalAction::NoOp);
    let action = agent.act(&obs(OPEN_0930_NY + 2 * MIN, None, Some(1)));
    assert_eq!(action, ReversalAction::Cancel { trade_id: 2 });
    assert_eq!(agent.daily_phase, DailyPhase::InTrade { entry_time: OPEN_0930_NY + 2 * MIN });
}

#[test]
fn short_fill_cancels_long_leg() {
    let mut agent = UsOpenReversalAgent::new();
    agent.act(&obs(OPEN_0930_NY, session(OPEN_0930_NY), None));
    let action = agent.act(&obs(OPEN_0930_NY + MIN, None, Some(2)));
    assert_eq!(action, ReversalAction::Cancel { trade_id: 1 });
}

#[test]
fn hard_time_exit_after_max_hold() {
    let mut agent = UsOpenReversalAgent::new();
    agent.act(&obs(OPEN_0930_NY, session(OPEN_0930_NY), None));
    agent.act(&obs(OPEN_0930_NY, None, Some(1)));
    // 29 minutes 59.999 seconds: not yet
    assert_eq!(agent.act(&obs(OPEN_0930_NY + 30 * MIN - 1, None, Some(1))), ReversalAction::NoOp);
    let action = agent.act(&obs(OPEN_0930_NY + 30 * MIN, None, Some(1)));
    assert_eq!(action, ReversalAction::MarketClose { trade_id: 1 });
    assert_eq!(agent.daily_phase, DailyPhase::Done);
    // done for the day: even a fresh session does nothing
    assert_eq!(agent.act(&obs(OPEN_0930_NY + 40 * MIN, session(OPEN_0930_NY), None)), ReversalAction::NoOp);
    assert_eq!(agent.daily_phase, DailyPhase::Done);
}

#[test]
fn trade_closed_by_bracket_ends_day() {
    let mut agent = UsOpenReversalAgent::new();
    agent.act(&obs(OPEN_0930_NY, session(OPEN_0930_NY), None));
    agent.act(&obs(OPEN_0930_NY, None, Some(1)));
    assert_eq!(agent.act(&obs(OPEN_0930_NY + 5 * MIN, None, None)), ReversalAction::NoOp);
    assert_eq!(agent.daily_phase, DailyPhase::Done);
}

#[test]
fn reset_restarts_ids_and_phase() {
    let mut agent = UsOpenReversalAgent::new().with_sl_ticks(12);
    agent.act(&obs(OPEN_0930_NY, session(OPEN_0930_NY), None));
    agent.reset();
    assert_eq!(agent, UsOpenReversalAgent::new().with_sl_ticks(12));
}

#[test]
fn tick_overflow_is_refused() {
    let agent = UsOpenReversalAgent::new();
    let o = obs(
        OPEN_0930_NY,
        Some(OvernightSession { close_time: OPEN_0930_NY, low_ticks: i64::MIN + 5, high_ticks: 0 }),
        None,
    );
    assert!(!agent.can_act(&o));
    let stale = obs(
        OPEN_0930_NY,
        Some(OvernightSession { close_time: PREV_DAY_OPEN, low_ticks: i64::MIN + 5, high_ticks: 0 }),
        None,
    );
    assert!(agent.can_act(&stale));
}

#[test]
fn baseline_grid_axes() {
    let grid = UsOpenReversalAgentGrid::baseline();
    assert_eq!(grid.sl_ticks, vec![10, 15, 20, 25, 30, 35, 40, 45, 50]);
    assert_eq!(grid.tp_ticks.len(), 17);
    assert_eq!(grid.tp_ticks[0], 20);
    assert_eq!(grid.tp_ticks[16], 100);
    assert_eq!(grid.max_hold_mins, vec![30, 40, 50, 60, 70, 80, 90]);
}

#[test]
fn grid_keeps_reward_at_least_twice_risk_with_enumeration_uids() {
    let grid = UsOpenReversalAgentGrid::baseline();
    let (sl, tp, hold) = (grid.sl_ticks.clone(), grid.tp_ticks.clone(), grid.max_hold_mins.clone());
    let agents = grid.build();
    let mut expected = Vec::new();
    let mut uid = 0usize;
    for s in &sl {
        for t in &tp {
            for h in &hold {
                if 2 * s <= *t {
                    expected.push((uid, *s, *t, *h as i64));
                }
                uid += 1;
            }
        }
    }
    let got: Vec<(usize, u16, u16, i64)> =
        agents.iter().map(|(u, a)| (*u, a.sl_ticks, a.tp_ticks, a.max_hold_mins)).collect();
    assert_eq!(got, expected);
    assert_eq!(got[0], (0, 10, 20, 30));
    // sl = 15 needs tp >= 30: the first sl=15 agent is (15, 30, 30) at position 1*17*7 + 2*7
    assert!(got.contains(&(133, 15, 30, 30)));
    assert!(!got.iter().any(|g| g.1 == 15 && g.2 == 25));
}

#[test]
fn session_end_cancels_both_resting_orders() {
    let mut agent = UsOpenReversalAgent::new();
    agent.act(&obs(OPEN_0930_NY, session(OPEN_0930_NY), None));
    assert_eq!(agent.act(&obs(CLOSE_1600_NY - 1, None, None)), ReversalAction::NoOp);
    let o = obs(CLOSE_1600_NY, None, None);
    assert!(agent.can_act(&o));
    assert_eq!(
        agent.act(&o),
        ReversalAction::CancelOrders { long_trade_id: 1, short_trade_id: 2 }
    );
    assert_eq!(agent.daily_phase, DailyPhase::Done);
    assert_eq!(agent.act(&obs(CLOSE_1600_NY + MIN, session(OPEN_0930_NY), None)), ReversalAction::NoOp);
}

#[test]
fn session_end_in_summer_time() {
    let mut agent = UsOpenReversalAgent::new();
    agent.act(&obs(SUMMER_OPEN_0930_NY, session(SUMMER_OPEN_0930_NY), None));
    // 15:00 EDT (19:00 UTC): still resting
    assert_eq!(agent.act(&obs(SUMMER_CLOSE_1600_NY - 3_600_000, None, None)), ReversalAction::NoOp);
    assert_eq!(
        agent.act(&obs(SUMMER_CLOSE_1600_NY, None, None)),
        ReversalAction::CancelOrders { long_trade_id: 1, short_trade_id: 2 }
    );
}

#[test]
fn orders_left_into_the_next_new_york_day_are_cancelled() {
    let mut agent = UsOpenReversalAgent::new();
    agent.act(&obs(OPEN_0930_NY, session(OPEN_0930_NY), None));
    assert_eq!(
        agent.act(&obs(NEXT_NY_DAY_0100, None, None)),
        ReversalAction::CancelOrders { long_trade_id: 1, short_trade_id: 2 }
    );
}

#[test]
fn a_fill_after_the_session_end_still_cancels_the_other_leg() {
    let mut agent = UsOpenReversalAgent::new();
    agent.act(&obs(OPEN_0930_NY, session(OPEN_0930_NY), None));
    assert_eq!(agent.act(&obs(CLOSE_1600_NY, None, Some(2))), ReversalAction::Cancel { trade_id: 1 });
}

#[test]
fn baseline_grid_keeps_567_agents() {
    assert_eq!(UsOpenReversalAgentGrid::baseline().build().len(), 567);
}

#[test]
fn representable_new_york_extremes_are_accepted() {
    let first = chapaty_garden::time::MIN_INSTANT_MS + 86_400_000;
    let mut agent = UsOpenReversalAgent::new();
    agent.daily_phase = DailyPhase::OrdersPlaced { long_trade_id: 1, short_trade_id: 2, placed_at: first };
    assert!(!agent.can_act(&obs(first - 1, None, None)));
    let o = obs(first, None, None);
    assert!(agent.can_act(&o));
    agent.act(&o);
    let last = chapaty_garden::time::MAX_INSTANT_MS;
    let mut late = UsOpenReversalAgent::new();
    late.daily_phase = DailyPhase::OrdersPlaced { long_trade_id: 1, short_trade_id: 2, placed_at: last };
    assert!(late.can_act(&obs(last, None, None)));
    late.act(&obs(last, None, None));
}

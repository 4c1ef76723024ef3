use chapaty_garden::scalping::{
    check_exits, CandleSignals, ExitFlags, OpenOrder, Position, RollingWindow, ScalpingAgent,
    ScalpingInput,
};
use chapaty_garden::trade::TradeKind;

type Levels = (i32, i32, i32); // entry, stop, target (opaque to the library)
type Agent = ScalpingAgent<Levels, i32>;

const NONE: ExitFlags = ExitFlags { stop_hit: false, midline_hit: false, midline_is_loss: false, take_profit_hit: false };

fn pos(id: i64) -> Position<Levels> {
    Position { trade_id: id, levels: (100, 99, 101) }
}

fn signals(long: bool, short: bool) -> Option<CandleSignals<Levels, i32>> {
    Some(CandleSignals { long_signal: long, short_signal: short, basis: 50, long_levels: (10, 9, 11), short_levels: (20, 21, 19) })
}

fn input(agent: &Agent, t: i64, sig: Option<CandleSignals<Levels, i32>>) -> ScalpingInput<Levels, i32> {
    ScalpingInput {
        close_time: t,
        long_exits: vec![NONE; agent.long_positions.len()],
        short_exits: vec![NONE; agent.short_positions.len()],
        signals: sig,
    }
}

#[test]
fn exits_fire_in_order_stop_midline_target() {
    let positions = vec![pos(1), pos(2), pos(3), pos(4), pos(5)];
    let flags = vec![
        ExitFlags { stop_hit: true, midline_hit: true, midline_is_loss: false, take_profit_hit: true },
        ExitFlags { stop_hit: false, midline_hit: true, midline_is_loss: false, take_profit_hit: false },
        NONE,
        ExitFlags { stop_hit: false, midline_hit: false, midline_is_loss: true, take_profit_hit: true },
        NONE,
    ];
    let out = check_exits(&positions, &flags);
    assert_eq!(out.closed, vec![1, 2, 4]);
    assert_eq!(out.positions, vec![pos(3), pos(5)]);
    // stop loss counts as a loss
    assert!(out.cooldown_hit);
}

#[test]
fn midline_exit_is_a_loss_only_on_the_wrong_side() {
    let positions = vec![pos(1)];
    let win = check_exits(&positions, &vec![ExitFlags { midline_hit: true, ..NONE }]);
    assert!(!win.cooldown_hit);
    assert_eq!(win.closed, vec![1]);
    let loss = check_exits(&positions, &vec![ExitFlags { midline_hit: true, midline_is_loss: true, ..NONE }]);
    assert!(loss.cooldown_hit);
    // the loss flag alone, without the midline being reached, closes nothing
    let none = check_exits(&positions, &vec![ExitFlags { midline_is_loss: true, ..NONE }]);
    assert!(none.closed.is_empty() && !none.cooldown_hit);
    // take profit never arms the cooldown
    let tp = check_exits(&positions, &vec![ExitFlags { take_profit_hit: true, ..NONE }]);
    assert!(!tp.cooldown_hit);
}

#[test]
fn new_long_signal_opens_and_repeated_signal_does_not() {
    let mut agent: Agent = ScalpingAgent::new();
    assert_eq!((agent.max_pyramid, agent.cooldown_bars), (3, 10));
    let i = input(&agent, 1, signals(true, false));
    assert!(agent.can_act(&i));
    let a = agent.act(i);
    assert_eq!(a.open, Some(OpenOrder { trade_id: 1, trade_kind: TradeKind::Long }));
    assert_eq!(agent.long_positions, vec![Position { trade_id: 1, levels: (10, 9, 11) }]);
    assert_eq!(agent.prev_basis, Some(50));
    // the signal is still there: not new
    let a = agent.act(input(&agent, 2, signals(true, false)));
    assert_eq!(a.open, None);
    // signal breaks, then comes back: new again
    agent.act(input(&agent, 3, signals(false, false)));
    let a = agent.act(input(&agent, 4, signals(true, false)));
    assert_eq!(a.open, Some(OpenOrder { trade_id: 2, trade_kind: TradeKind::Long }));
    assert_eq!(agent.long_positions.len(), 2);
}

#[test]
fn same_candle_twice_is_ignored() {
    let mut agent: Agent = ScalpingAgent::new();
    agent.act(input(&agent, 1, signals(true, false)));
    assert!(!agent.is_new_candle(1));
    let before_positions = agent.long_positions.clone();
    let mut i = input(&agent, 1, signals(false, true));
    i.long_exits = vec![ExitFlags { stop_hit: true, ..NONE }];
    let a = agent.act(i);
    assert!(a.closes.is_empty() && a.open.is_none());
    assert_eq!(agent.long_positions, before_positions);
}

#[test]
fn pyramid_limit_and_one_side_only() {
    let mut agent: Agent = ScalpingAgent::new().with_max_pyramid(2);
    let mut t = 0;
    for _ in 0..3 {
        t += 1;
        agent.act(input(&agent, t, signals(true, false)));
        t += 1;
        agent.act(input(&agent, t, signals(false, false)));
    }
    assert_eq!(agent.long_positions.len(), 2);
    // a short signal while longs are open opens nothing
    t += 1;
    let a = agent.act(input(&agent, t, signals(false, true)));
    assert_eq!(a.open, None);
    assert!(agent.short_positions.is_empty());
}

#[test]
fn losing_exit_blocks_the_next_cooldown_bars_candles() {
    let mut agent: Agent = ScalpingAgent::new().with_cooldown_bars(3);
    agent.act(input(&agent, 1, signals(true, false)));
    // stop loss on candle 2, with a fresh short signal on the same candle
    let mut i = input(&agent, 2, signals(false, true));
    i.long_exits = vec![ExitFlags { stop_hit: true, ..NONE }];
    let a = agent.act(i);
    assert_eq!(a.closes, vec![1]);
    assert_eq!(a.open, None);
    assert_eq!(agent.cooldown_remaining, 3);
    // candles 3, 4, 5 stay blocked, each with a fresh signal
    let a = agent.act(input(&agent, 3, signals(true, false)));
    assert_eq!(a.open, None);
    let a = agent.act(input(&agent, 4, signals(false, true)));
    assert_eq!(a.open, None);
    let a = agent.act(input(&agent, 5, signals(true, false)));
    assert_eq!(a.open, None);
    assert_eq!(agent.cooldown_remaining, 0);
    // candle 6: free again
    let a = agent.act(input(&agent, 6, signals(false, true)));
    assert_eq!(a.open, Some(OpenOrder { trade_id: 2, trade_kind: TradeKind::Short }));
}

#[test]
fn closes_list_short_side_first() {
    let mut agent: Agent = ScalpingAgent::new();
    agent.long_positions = vec![pos(1)];
    agent.short_positions = vec![pos(2)];
    let mut i = input(&agent, 7, None);
    i.long_exits = vec![ExitFlags { take_profit_hit: true, ..NONE }];
    i.short_exits = vec![ExitFlags { take_profit_hit: true, ..NONE }];
    let a = agent.act(i);
    assert_eq!(a.closes, vec![2, 1]);
}

#[test]
fn warming_up_forgets_previous_signals() {
    let mut agent: Agent = ScalpingAgent::new();
    agent.act(input(&agent, 1, signals(true, false)));
    assert!(agent.prev_long_signal);
    agent.act(input(&agent, 2, None));
    assert!(!agent.prev_long_signal);
    assert_eq!(agent.prev_basis, Some(50));
}

#[test]
fn reset_clears_the_book() {
    let mut agent: Agent = ScalpingAgent::new().with_cooldown_bars(15);
    agent.act(input(&agent, 1, signals(true, false)));
    agent.reset();
    assert!(agent.long_positions.is_empty());
    assert_eq!(agent.trade_counter, 0);
    assert_eq!(agent.last_processed_ts, None);
    assert_eq!(agent.cooldown_bars, 15);
}

#[test]
fn input_not_matching_the_book_is_refused() {
    let mut agent: Agent = ScalpingAgent::new();
    agent.act(input(&agent, 1, signals(true, false)));
    let i = ScalpingInput { close_time: 2, long_exits: vec![], short_exits: vec![], signals: None };
    assert!(!agent.can_act(&i));
}

#[test]
fn rolling_window_keeps_latest_values() {
    let mut w: RollingWindow<u32> = RollingWindow::new(3);
    assert!(!w.push(1));
    assert!(!w.push(2));
    assert!(w.push(3));
    assert!(w.push(4));
    assert_eq!(w.history.iter().copied().collect::<Vec<_>>(), vec![2, 3, 4]);
    w.reset();
    assert!(w.history.is_empty());
    assert_eq!(w.window, 3);
    let mut z: RollingWindow<u32> = RollingWindow::new(0);
    assert!(z.push(9));
    assert!(z.history.is_empty());
}

#[test]
fn midline_closes_the_whole_side() {
    let positions = vec![pos(1), pos(2), pos(3)];
    let m = ExitFlags { midline_hit: true, ..NONE };
    let out = check_exits(&positions, &vec![m, ExitFlags { stop_hit: true, ..m }, m]);
    assert!(out.positions.is_empty());
    assert_eq!(out.closed, vec![1, 2, 3]);
}

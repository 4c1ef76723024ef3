//! US open reversal: fade the overnight range at the 09:30 New York open.
//!
//! When the overnight session (16:00 NY of the previous day to 09:30 NY)
//! closes, two limit orders go out together, one-cancels-other: a buy at
//! the overnight low and a sell at the overnight high, each with a fixed
//! stop loss and take profit in ticks. The first fill cancels the other
//! order; an open trade is closed at market once it has been held for
//! `max_hold_mins`. Orders still resting when the session ends at 16:00
//! New York time are cancelled. One such cycle per trading day.
//!
//! Prices are handled here in ticks; turning ticks into prices and the
//! limit prices themselves (the overnight low and high) are the caller's.
use crate::grid::{grid_point, grid_points, grid_size, lemma_grid_point_in_grid};
use crate::time::{
    minutes_between, new_york_date_of, new_york_day, new_york_hour, new_york_hour_of,
    new_york_representable, same_utc_date, utc_day, valid_instant, whole_minutes, MAX_INSTANT_MS,
    MIN_INSTANT_MS, MS_PER_DAY,
};
use crate::trade::TradeKind;
use vstd::prelude::*;

verus! {

/// The phase the strategy is in during the current trading day.
#[derive(Debug, Clone, Copy, PartialEq, Eq, Structural)]
pub enum DailyPhase {
    /// Waiting for the overnight session to close and report its high and low.
    AwaitingSession,
    /// The two limit orders are out since `placed_at`; waiting for one of
    /// them to fill, or for the session to end.
    OrdersPlaced { long_trade_id: i64, short_trade_id: i64, placed_at: i64 },
    /// A trade is open since `entry_time`; waiting for SL/TP or the time exit.
    InTrade { entry_time: i64 },
    /// The trade of the day is over; waiting for the next day.
    Done,
}

impl Default for DailyPhase {
    fn default() -> (phase: Self)
        ensures
            phase == DailyPhase::AwaitingSession,
    {
        DailyPhase::AwaitingSession
    }
}

/// The overnight session as last reported: when it closed and its low and
/// high, in ticks.
#[derive(Debug, Clone, Copy, PartialEq, Eq)]
pub struct OvernightSession {
    pub close_time: i64,
    pub low_ticks: i64,
    pub high_ticks: i64,
}

/// What the agent sees at one step.
#[derive(Debug, Clone, Copy, PartialEq, Eq)]
pub struct ReversalObservation {
    /// The current time (ms since the epoch).
    pub now: i64,
    /// The last overnight session reported, if any.
    pub session: Option<OvernightSession>,
    /// The id of this agent's live trade, if it has one.
    pub live_trade: Option<i64>,
}

/// One leg of the one-cancels-other pair: a limit order at the overnight
/// low (long) or high (short), with its stop loss and take profit in ticks.
#[derive(Debug, Clone, Copy, PartialEq, Eq, Structural)]
pub struct LimitOrder {
    pub trade_id: i64,
    pub trade_kind: TradeKind,
    pub entry_ticks: i64,
    pub stop_loss_ticks: i64,
    pub take_profit_ticks: i64,
}

/// What the agent asks the engine to do at one step.
#[derive(Debug, Clone, Copy, PartialEq, Eq, Structural)]
pub enum ReversalAction {
    NoOp,
    /// Place both limit orders (long first, then short).
    PlaceOrders { long: LimitOrder, short: LimitOrder },
    /// Cancel the order with this id.
    Cancel { trade_id: i64 },
    /// Close the trade with this id at market, in full.
    MarketClose { trade_id: i64 },
    /// The session ended with both orders still resting: cancel both.
    CancelOrders { long_trade_id: i64, short_trade_id: i64 },
}

/// Whether the session of the orders placed at `placed_at` is over at
/// `now`: it is 16:00 New York time or later, or another New York date.
pub open spec fn session_over(placed_at: i64, now: i64) -> bool {
    new_york_day(now) != new_york_day(placed_at) || new_york_hour(now) >= 16
}

/// The decision state and parameters of the US open reversal agent.
#[derive(Debug, Clone, Copy, PartialEq, Eq)]
pub struct UsOpenReversalAgent {
    /// Stop loss distance from the entry, in ticks.
    pub sl_ticks: u16,
    /// Take profit distance from the entry, in ticks.
    pub tp_ticks: u16,
    /// Longest a trade may stay open, in minutes.
    pub max_hold_mins: i64,
    pub daily_phase: DailyPhase,
    pub trade_counter: i64,
}

/// The long leg: buy at the low, stop below it, target above it.
pub open spec fn long_leg(trade_id: int, low: int, sl: int, tp: int) -> LimitOrder {
    LimitOrder {
        trade_id: trade_id as i64,
        trade_kind: TradeKind::Long,
        entry_ticks: low as i64,
        stop_loss_ticks: (low - sl) as i64,
        take_profit_ticks: (low + tp) as i64,
    }
}

/// The short leg: sell at the high, stop above it, target below it.
pub open spec fn short_leg(trade_id: int, high: int, sl: int, tp: int) -> LimitOrder {
    LimitOrder {
        trade_id: trade_id as i64,
        trade_kind: TradeKind::Short,
        entry_ticks: high as i64,
        stop_loss_ticks: (high + sl) as i64,
        take_profit_ticks: (high - tp) as i64,
    }
}

impl UsOpenReversalAgent {
    /// Every timestamp the state holds is one a `DateTime<Utc>` can hold.
    pub open spec fn wf(self) -> bool {
        &&& self.daily_phase matches DailyPhase::InTrade { entry_time } ==> valid_instant(
            entry_time as int,
        )
        &&& self.daily_phase matches DailyPhase::OrdersPlaced { placed_at, .. }
            ==> new_york_representable(placed_at as int)
    }

    /// The observation's timestamps are representable (in New York local
    /// time too, where the session end is looked at), and, on the step that
    /// places the orders, the trade ids and tick levels fit in `i64`.
    pub open spec fn act_in_range(self, obs: ReversalObservation) -> bool {
        &&& valid_instant(obs.now as int)
        &&& (self.daily_phase is OrdersPlaced && obs.live_trade is None) ==> new_york_representable(
            obs.now as int,
        )
        &&& obs.session matches Some(s) ==> valid_instant(s.close_time as int)
        &&& match obs.session {
            Some(s) => (self.daily_phase == DailyPhase::AwaitingSession && utc_day(
                s.close_time as int,
            ) == utc_day(obs.now as int)) ==> {
                &&& new_york_representable(obs.now as int)
                &&& self.trade_counter + 2 <= i64::MAX
                &&& s.low_ticks - self.sl_ticks >= i64::MIN
                &&& s.low_ticks + self.tp_ticks <= i64::MAX
                &&& s.high_ticks + self.sl_ticks <= i64::MAX
                &&& s.high_ticks - self.tp_ticks >= i64::MIN
            },
            None => true,
        }
    }

    /// One step of the strategy: the next state and the action it takes.
    pub open spec fn next(self, obs: ReversalObservation) -> (UsOpenReversalAgent, ReversalAction) {
        match self.daily_phase {
            DailyPhase::AwaitingSession => match obs.session {
                None => (self, ReversalAction::NoOp),
                Some(s) => if utc_day(s.close_time as int) != utc_day(obs.now as int) {
                    // a session of an earlier trading day
                    (self, ReversalAction::NoOp)
                } else {
                    let long_id = self.trade_counter + 1;
                    let short_id = self.trade_counter + 2;
                    (
                        UsOpenReversalAgent {
                            daily_phase: DailyPhase::OrdersPlaced {
                                long_trade_id: long_id as i64,
                                short_trade_id: short_id as i64,
                                placed_at: obs.now,
                            },
                            trade_counter: short_id as i64,
                            ..self
                        },
                        ReversalAction::PlaceOrders {
                            long: long_leg(long_id, s.low_ticks as int, self.sl_ticks as int, self.tp_ticks as int),
                            short: short_leg(short_id, s.high_ticks as int, self.sl_ticks as int, self.tp_ticks as int),
                        },
                    )
                },
            },
            DailyPhase::OrdersPlaced { long_trade_id, short_trade_id, placed_at } => match obs.live_trade {
                Some(id) => (
                    UsOpenReversalAgent {
                        daily_phase: DailyPhase::InTrade { entry_time: obs.now },
                        ..self
                    },
                    ReversalAction::Cancel {
                        trade_id: if id == long_trade_id {
                            short_trade_id
                        } else {
                            long_trade_id
                        },
                    },
                ),
                None => if session_over(placed_at, obs.now) {
                    (
                        UsOpenReversalAgent { daily_phase: DailyPhase::Done, ..self },
                        ReversalAction::CancelOrders { long_trade_id, short_trade_id },
                    )
                } else {
                    (self, ReversalAction::NoOp)
                },
            },
            DailyPhase::InTrade { entry_time } => match obs.live_trade {
                Some(id) => if whole_minutes(obs.now - entry_time) >= self.max_hold_mins {
                    (
                        UsOpenReversalAgent { daily_phase: DailyPhase::Done, ..self },
                        ReversalAction::MarketClose { trade_id: id },
                    )
                } else {
                    (self, ReversalAction::NoOp)
                },
                None => (
                    UsOpenReversalAgent { daily_phase: DailyPhase::Done, ..self },
                    ReversalAction::NoOp,
                ),
            },
            DailyPhase::Done => (self, ReversalAction::NoOp),
        }
    }

    /// The agent with its default parameters: 10 ticks stop loss, 20 ticks
    /// take profit, 30 minutes maximum hold.
    pub fn new() -> (agent: Self)
        ensures
            agent.sl_ticks == 10,
            agent.tp_ticks == 20,
            agent.max_hold_mins == 30,
            agent.daily_phase == DailyPhase::AwaitingSession,
            agent.trade_counter == 0,
            agent.wf(),
    {
        UsOpenReversalAgent {
            sl_ticks: 10,
            tp_ticks: 20,
            max_hold_mins: 30,
            daily_phase: DailyPhase::AwaitingSession,
            trade_counter: 0,
        }
    }

    pub fn with_sl_ticks(self, ticks: u16) -> (agent: Self)
        ensures
            agent == (UsOpenReversalAgent { sl_ticks: ticks, ..self }),
            self.wf() ==> agent.wf(),
    {
        UsOpenReversalAgent { sl_ticks: ticks, ..self }
    }

    pub fn with_tp_ticks(self, ticks: u16) -> (agent: Self)
        ensures
            agent == (UsOpenReversalAgent { tp_ticks: ticks, ..self }),
            self.wf() ==> agent.wf(),
    {
        UsOpenReversalAgent { tp_ticks: ticks, ..self }
    }

    pub fn with_max_hold_mins(self, mins: i64) -> (agent: Self)
        ensures
            agent == (UsOpenReversalAgent { max_hold_mins: mins, ..self }),
            self.wf() ==> agent.wf(),
    {
        UsOpenReversalAgent { max_hold_mins: mins, ..self }
    }

    /// Starts a new episode: back to awaiting the session, ids from 1 again.
    pub fn reset(&mut self)
        ensures
            *final(self) == (UsOpenReversalAgent {
                daily_phase: DailyPhase::AwaitingSession,
                trade_counter: 0,
                ..*old(self)
            }),
            final(self).wf(),
    {
        self.daily_phase = DailyPhase::AwaitingSession;
        self.trade_counter = 0;
    }

    /// Whether `act` may be called with this observation (see `act_in_range`).
    pub fn can_act(&self, obs: &ReversalObservation) -> (ok: bool)
        ensures
            ok == self.act_in_range(*obs),
    {
        if !(MIN_INSTANT_MS <= obs.now && obs.now <= MAX_INSTANT_MS) {
            return false;
        }
        let ny_ok = obs.now >= MIN_INSTANT_MS + MS_PER_DAY;
        if let DailyPhase::OrdersPlaced { .. } = self.daily_phase {
            if obs.live_trade.is_none() && !ny_ok {
                return false;
            }
        }
        match obs.session {
            None => true,
            Some(s) => {
                if !(MIN_INSTANT_MS <= s.close_time && s.close_time
                    <= MAX_INSTANT_MS) {
                    return false;
                }
                match self.daily_phase {
                    DailyPhase::AwaitingSession => {
                        if same_utc_date(s.close_time, obs.now) {
                            let sl = self.sl_ticks as i64;
                            let tp = self.tp_ticks as i64;
                            ny_ok && self.trade_counter <= i64::MAX - 2 && s.low_ticks >= i64::MIN + sl
                                && s.low_ticks <= i64::MAX - tp && s.high_ticks <= i64::MAX - sl
                                && s.high_ticks >= i64::MIN + tp
                        } else {
                            true
                        }
                    },
                    _ => true,
                }
            },
        }
    }

    /// One step: decides from the current phase and what is observed.
    pub fn act(&mut self, obs: &ReversalObservation) -> (action: ReversalAction)
        requires
            old(self).wf(),
            old(self).act_in_range(*obs),
        ensures
            (*final(self), action) == old(self).next(*obs),
            final(self).wf(),
    {
        match self.daily_phase {
            DailyPhase::AwaitingSession => {
                let s = match obs.session {
                    None => {
                        return ReversalAction::NoOp;
                    },
                    Some(s) => s,
                };
                if !same_utc_date(s.close_time, obs.now) {
                    return ReversalAction::NoOp;
                }
                self.trade_counter = self.trade_counter + 1;
                let long_trade_id = self.trade_counter;
                self.trade_counter = self.trade_counter + 1;
                let short_trade_id = self.trade_counter;
                self.daily_phase = DailyPhase::OrdersPlaced {
                    long_trade_id,
                    short_trade_id,
                    placed_at: obs.now,
                };
                let sl = self.sl_ticks as i64;
                let tp = self.tp_ticks as i64;
                ReversalAction::PlaceOrders {
                    long: LimitOrder {
                        trade_id: long_trade_id,
                        trade_kind: TradeKind::Long,
                        entry_ticks: s.low_ticks,
                        stop_loss_ticks: s.low_ticks - sl,
                        take_profit_ticks: s.low_ticks + tp,
                    },
                    short: LimitOrder {
                        trade_id: short_trade_id,
                        trade_kind: TradeKind::Short,
                        entry_ticks: s.high_ticks,
                        stop_loss_ticks: s.high_ticks + sl,
                        take_profit_ticks: s.high_ticks - tp,
                    },
                }
            },
            DailyPhase::OrdersPlaced { long_trade_id, short_trade_id, placed_at } => match obs.live_trade {
                Some(id) => {
                    let cancel_id = if id == long_trade_id {
                        short_trade_id
                    } else {
                        long_trade_id
                    };
                    self.daily_phase = DailyPhase::InTrade { entry_time: obs.now };
                    ReversalAction::Cancel { trade_id: cancel_id }
                },
                None => {
                    let over = new_york_date_of(obs.now) != new_york_date_of(placed_at)
                        || new_york_hour_of(obs.now) >= 16;
                    if over {
                        self.daily_phase = DailyPhase::Done;
                        ReversalAction::CancelOrders { long_trade_id, short_trade_id }
                    } else {
                        ReversalAction::NoOp
                    }
                },
            },
            DailyPhase::InTrade { entry_time } => match obs.live_trade {
                Some(id) => {
                    if minutes_between(entry_time, obs.now) >= self.max_hold_mins {
                        self.daily_phase = DailyPhase::Done;
                        ReversalAction::MarketClose { trade_id: id }
                    } else {
                        ReversalAction::NoOp
                    }
                },
                None => {
                    self.daily_phase = DailyPhase::Done;
                    ReversalAction::NoOp
                },
            },
            DailyPhase::Done => ReversalAction::NoOp,
        }
    }
}

// ------------------------------------------------------------------------------------------------
// Laws
// ------------------------------------------------------------------------------------------------

/// Law (OCO): the two orders placed together carry two fresh, distinct ids
/// (the next two of the counter), and the counter moves past both.
pub proof fn lemma_placed_orders_fresh_and_distinct(agent: UsOpenReversalAgent, obs: ReversalObservation)
    requires
        agent.act_in_range(obs),
        agent.next(obs).1 is PlaceOrders,
    ensures
        ({
            let (after, action) = agent.next(obs);
            let long = action->long;
            let short = action->short;
            &&& long.trade_id == agent.trade_counter + 1
            &&& short.trade_id == agent.trade_counter + 2
            &&& long.trade_id != short.trade_id
            &&& after.trade_counter == short.trade_id
            &&& after.daily_phase == (DailyPhase::OrdersPlaced {
                long_trade_id: long.trade_id,
                short_trade_id: short.trade_id,
                placed_at: obs.now,
            })
        }),
{
}

/// Law (brackets): the long leg buys the overnight low with its stop
/// `sl_ticks` below and its target `tp_ticks` above; the short leg sells the
/// overnight high with its stop `sl_ticks` above and target `tp_ticks` below.
pub proof fn lemma_bracket_distances(agent: UsOpenReversalAgent, obs: ReversalObservation)
    requires
        agent.act_in_range(obs),
        agent.next(obs).1 is PlaceOrders,
    ensures
        ({
            let action = agent.next(obs).1;
            let s = obs.session->0;
            &&& action->long.trade_kind == TradeKind::Long
            &&& action->long.entry_ticks == s.low_ticks
            &&& action->long.entry_ticks - action->long.stop_loss_ticks == agent.sl_ticks
            &&& action->long.take_profit_ticks - action->long.entry_ticks == agent.tp_ticks
            &&& action->short.trade_kind == TradeKind::Short
            &&& action->short.entry_ticks == s.high_ticks
            &&& action->short.stop_loss_ticks - action->short.entry_ticks == agent.sl_ticks
            &&& action->short.entry_ticks - action->short.take_profit_ticks == agent.tp_ticks
        }),
{
}

/// Law (OCO): once a leg fills, the order cancelled is the other leg.
pub proof fn lemma_fill_cancels_other_leg(agent: UsOpenReversalAgent, obs: ReversalObservation)
    requires
        agent.daily_phase matches DailyPhase::OrdersPlaced { long_trade_id, short_trade_id, .. }
            && long_trade_id != short_trade_id,
        obs.live_trade matches Some(id) && (id == agent.daily_phase->long_trade_id || id
            == agent.daily_phase->short_trade_id),
    ensures
        ({
            let (after, action) = agent.next(obs);
            let filled = obs.live_trade->0;
            &&& action is Cancel
            &&& action->Cancel_trade_id != filled
            &&& (action->Cancel_trade_id == agent.daily_phase->long_trade_id
                || action->Cancel_trade_id == agent.daily_phase->short_trade_id)
            &&& after.daily_phase == (DailyPhase::InTrade { entry_time: obs.now })
        }),
{
}

/// Law (session end): orders still resting, with no trade open, at 16:00
/// New York time or later on their trading day (or on a later date) are
/// both cancelled, with nothing placed in their stead, and the day is over.
pub proof fn lemma_session_end_cancels_both(agent: UsOpenReversalAgent, obs: ReversalObservation)
    requires
        agent.daily_phase matches DailyPhase::OrdersPlaced { placed_at, .. } && (new_york_day(
            obs.now,
        ) != new_york_day(placed_at) || new_york_hour(obs.now) >= 16),
        obs.live_trade is None,
    ensures
        agent.next(obs) == (
            UsOpenReversalAgent { daily_phase: DailyPhase::Done, ..agent },
            ReversalAction::CancelOrders {
                long_trade_id: agent.daily_phase->long_trade_id,
                short_trade_id: agent.daily_phase->short_trade_id,
            },
        ),
{
}

/// Law: before the session ends, resting orders with no fill are left alone.
pub proof fn lemma_orders_rest_during_session(agent: UsOpenReversalAgent, obs: ReversalObservation)
    requires
        agent.daily_phase matches DailyPhase::OrdersPlaced { placed_at, .. } && new_york_day(
            obs.now,
        ) == new_york_day(placed_at) && new_york_hour(obs.now) < 16,
        obs.live_trade is None,
    ensures
        agent.next(obs) == (agent, ReversalAction::NoOp),
{
}

/// Law (one cycle per day): once done, the agent does nothing more until reset.
pub proof fn lemma_done_until_reset(agent: UsOpenReversalAgent, obs: ReversalObservation)
    requires
        agent.daily_phase == DailyPhase::Done,
    ensures
        agent.next(obs) == (agent, ReversalAction::NoOp),
{
}

/// Law (hard time exit): a live trade held for at least `max_hold_mins`
/// whole minutes is closed at market, and the day is over.
pub proof fn lemma_time_exit(agent: UsOpenReversalAgent, obs: ReversalObservation)
    requires
        agent.daily_phase matches DailyPhase::InTrade { entry_time } && whole_minutes(
            obs.now - entry_time,
        ) >= agent.max_hold_mins,
        obs.live_trade is Some,
    ensures
        agent.next(obs) == (
            UsOpenReversalAgent { daily_phase: DailyPhase::Done, ..agent },
            ReversalAction::MarketClose { trade_id: obs.live_trade->0 },
        ),
{
}

/// Law: a session reported on another UTC date than the current step (one
/// left over from an earlier day) never places orders.
pub proof fn lemma_stale_session_ignored(agent: UsOpenReversalAgent, obs: ReversalObservation)
    requires
        agent.daily_phase == DailyPhase::AwaitingSession,
        obs.session is Some,
        utc_day(obs.session->0.close_time as int) != utc_day(obs.now as int),
    ensures
        agent.next(obs) == (agent, ReversalAction::NoOp),
{
}

/// Law (one cycle per day starts at the open): a session reported on the
/// same UTC date as the current step places both limit orders at once: a
/// buy at the overnight low and a sell at the overnight high, with the next
/// two trade ids, the stop loss `sl_ticks` and the take profit `tp_ticks`
/// away on each side; the agent then waits on those orders from `now`.
pub proof fn lemma_same_day_session_places_orders(agent: UsOpenReversalAgent, obs: ReversalObservation)
    requires
        agent.act_in_range(obs),
        agent.daily_phase == DailyPhase::AwaitingSession,
        obs.session is Some,
        utc_day(obs.session->0.close_time as int) == utc_day(obs.now as int),
    ensures
        ({
            let s = obs.session->0;
            let (after, action) = agent.next(obs);
            &&& action matches ReversalAction::PlaceOrders { long, short } && {
                &&& long.trade_id == agent.trade_counter + 1
                &&& long.trade_kind == TradeKind::Long
                &&& long.entry_ticks == s.low_ticks
                &&& long.stop_loss_ticks == s.low_ticks - agent.sl_ticks
                &&& long.take_profit_ticks == s.low_ticks + agent.tp_ticks
                &&& short.trade_id == agent.trade_counter + 2
                &&& short.trade_kind == TradeKind::Short
                &&& short.entry_ticks == s.high_ticks
                &&& short.stop_loss_ticks == s.high_ticks + agent.sl_ticks
                &&& short.take_profit_ticks == s.high_ticks - agent.tp_ticks
            }
            &&& after.daily_phase == (DailyPhase::OrdersPlaced {
                long_trade_id: (agent.trade_counter + 1) as i64,
                short_trade_id: (agent.trade_counter + 2) as i64,
                placed_at: obs.now,
            })
            &&& after.trade_counter == agent.trade_counter + 2
        }),
{
}

/// Law (no early exit): a live trade held for fewer than `max_hold_mins`
/// whole minutes stays open: the step does nothing and changes nothing.
pub proof fn lemma_trade_held_before_time_exit(agent: UsOpenReversalAgent, obs: ReversalObservation)
    requires
        agent.daily_phase matches DailyPhase::InTrade { entry_time } && whole_minutes(
            obs.now - entry_time,
        ) < agent.max_hold_mins,
        obs.live_trade is Some,
    ensures
        agent.next(obs) == (agent, ReversalAction::NoOp),
{
}

/// Law: once the trade is gone (its stop loss or take profit filled), the
/// day is over, with nothing more to do.
pub proof fn lemma_closed_trade_ends_day(agent: UsOpenReversalAgent, obs: ReversalObservation)
    requires
        agent.daily_phase is InTrade,
        obs.live_trade is None,
    ensures
        agent.next(obs) == (
            UsOpenReversalAgent { daily_phase: DailyPhase::Done, ..agent },
            ReversalAction::NoOp,
        ),
{
}

/// Law: trade ids only grow, so no id is issued twice within an episode.
pub proof fn lemma_counter_monotone(agent: UsOpenReversalAgent, obs: ReversalObservation)
    requires
        agent.act_in_range(obs),
    ensures
        agent.next(obs).0.trade_counter >= agent.trade_counter,
        agent.next(obs).0.sl_ticks == agent.sl_ticks,
        agent.next(obs).0.tp_ticks == agent.tp_ticks,
        agent.next(obs).0.max_hold_mins == agent.max_hold_mins,
{
}

/// How far into its daily cycle a phase is.
pub open spec fn phase_rank(phase: DailyPhase) -> int {
    match phase {
        DailyPhase::AwaitingSession => 0,
        DailyPhase::OrdersPlaced { .. } => 1,
        DailyPhase::InTrade { .. } => 2,
        DailyPhase::Done => 3,
    }
}

/// A sequence of steps (what consecutive calls of `act` compute): the
/// final state and the actions, in order.
pub open spec fn run(agent: UsOpenReversalAgent, obs: Seq<ReversalObservation>) -> (
    UsOpenReversalAgent,
    Seq<ReversalAction>,
)
    decreases obs.len(),
{
    if obs.len() == 0 {
        (agent, Seq::empty())
    } else {
        let (before, actions) = run(agent, obs.drop_last());
        let (after, action) = before.next(obs.last());
        (after, actions.push(action))
    }
}

/// How many of the actions place the order pair.
pub open spec fn placements(actions: Seq<ReversalAction>) -> nat
    decreases actions.len(),
{
    if actions.len() == 0 {
        0
    } else {
        placements(actions.drop_last()) + if actions.last() is PlaceOrders {
            1nat
        } else {
            0
        }
    }
}

/// Law (one step): the phase never moves back, and the order pair is only
/// placed from `AwaitingSession`, moving on to `OrdersPlaced`.
pub proof fn lemma_step_moves_forward(agent: UsOpenReversalAgent, obs: ReversalObservation)
    ensures
        phase_rank(agent.next(obs).0.daily_phase) >= phase_rank(agent.daily_phase),
        agent.next(obs).1 is PlaceOrders ==> agent.daily_phase == DailyPhase::AwaitingSession
            && phase_rank(agent.next(obs).0.daily_phase) == 1,
{
}

/// Law (any sequence of steps without reset): the phase only moves forward
/// along awaiting session, orders placed, in trade, done; the order pair
/// goes out at most once, and only when the sequence starts awaiting the
/// session.
pub proof fn lemma_run_moves_forward(agent: UsOpenReversalAgent, obs: Seq<ReversalObservation>)
    ensures
        phase_rank(run(agent, obs).0.daily_phase) >= phase_rank(agent.daily_phase),
        run(agent, obs).1.len() == obs.len(),
        placements(run(agent, obs).1) <= 1,
        placements(run(agent, obs).1) > 0 ==> agent.daily_phase == DailyPhase::AwaitingSession
            && phase_rank(run(agent, obs).0.daily_phase) >= 1,
    decreases obs.len(),
{
    if obs.len() > 0 {
        lemma_run_moves_forward(agent, obs.drop_last());
        let (before, actions) = run(agent, obs.drop_last());
        lemma_step_moves_forward(before, obs.last());
        let all = run(agent, obs).1;
        assert(all.drop_last() =~= actions);
    }
}

/// Law: from `Done`, any sequence of steps leaves the agent as it is and
/// does nothing.
pub proof fn lemma_run_done_is_absorbing(agent: UsOpenReversalAgent, obs: Seq<ReversalObservation>)
    requires
        agent.daily_phase == DailyPhase::Done,
    ensures
        run(agent, obs).0 == agent,
        run(agent, obs).1 =~= Seq::new(obs.len(), |i: int| ReversalAction::NoOp),
    decreases obs.len(),
{
    if obs.len() > 0 {
        lemma_run_done_is_absorbing(agent, obs.drop_last());
    }
}

// ------------------------------------------------------------------------------------------------
// Grid search
// ------------------------------------------------------------------------------------------------

/// The values each parameter takes in a grid search.
#[derive(Debug)]
pub struct UsOpenReversalAgentGrid {
    pub sl_ticks: Vec<u16>,
    pub tp_ticks: Vec<u16>,
    pub max_hold_mins: Vec<u16>,
}

/// `start, start + step, ...` up to and including `end`.
pub open spec fn stepped(start: int, end: int, step: int) -> Seq<u16> {
    Seq::new((((end - start) / step) + 1) as nat, |i: int| (start + i * step) as u16)
}

fn stepped_range(start: u16, end: u16, step: u16) -> (v: Vec<u16>)
    requires
        start <= end,
        step > 0,
    ensures
        v@ == stepped(start as int, end as int, step as int),
{
    let count: u32 = ((end - start) / step) as u32 + 1;
    let mut v: Vec<u16> = Vec::new();
    let mut i: u32 = 0;
    while i < count
        invariant
            start <= end,
            step > 0,
            count as int == (end - start) / (step as int) + 1,
            i <= count,
            v.len() == i,
            forall|m: int| 0 <= m < i ==> v@[m] == (start + m * step) as u16,
        decreases count - i,
    {
        assert(i * step <= end - start) by (nonlinear_arith)
            requires
                i < count,
                count == (end - start) / (step as int) + 1,
                step > 0,
                start <= end,
        ;
        let x: u32 = start as u32 + i * step as u32;
        v.push(x as u16);
        i = i + 1;
    }
    assert(v@ =~= stepped(start as int, end as int, step as int));
    v
}

impl UsOpenReversalAgentGrid {
    /// Axis sizes of the grid: stop loss, take profit, maximum hold.
    pub open spec fn dims(self) -> Seq<usize> {
        seq![self.sl_ticks.len(), self.tp_ticks.len(), self.max_hold_mins.len()]
    }

    /// The agent of the `k`-th combination (stop loss slowest, hold fastest).
    pub open spec fn agent_at(self, k: nat) -> UsOpenReversalAgent {
        let p = grid_point(self.dims(), k);
        UsOpenReversalAgent {
            sl_ticks: self.sl_ticks@[p[0] as int],
            tp_ticks: self.tp_ticks@[p[1] as int],
            max_hold_mins: self.max_hold_mins@[p[2] as int] as i64,
            daily_phase: DailyPhase::AwaitingSession,
            trade_counter: 0,
        }
    }

    /// Every combination, numbered in enumeration order.
    pub open spec fn candidates(self) -> Seq<(usize, UsOpenReversalAgent)> {
        Seq::new(grid_size(self.dims()), |k: int| (k as usize, self.agent_at(k as nat)))
    }

    /// The search space of the baseline run: stop loss 10..=50 ticks and
    /// take profit 20..=100 ticks in steps of 5, hold 30..=90 minutes in
    /// steps of 10.
    pub fn baseline() -> (grid: Self)
        ensures
            grid.sl_ticks@ == stepped(10, 50, 5),
            grid.tp_ticks@ == stepped(20, 100, 5),
            grid.max_hold_mins@ == stepped(30, 90, 10),
    {
        UsOpenReversalAgentGrid {
            sl_ticks: stepped_range(10, 50, 5),
            tp_ticks: stepped_range(20, 100, 5),
            max_hold_mins: stepped_range(30, 90, 10),
        }
    }

    /// One agent per combination whose take profit is at least twice its
    /// stop loss, each tagged with its position among all combinations.
    pub fn build(self) -> (agents: Vec<(usize, UsOpenReversalAgent)>)
        requires
            grid_size(self.dims()) <= usize::MAX,
        ensures
            agents@ == self.candidates().filter(
                |c: (usize, UsOpenReversalAgent)| 2 * c.1.sl_ticks <= c.1.tp_ticks,
            ),
    {
        let dims: Vec<usize> = vec![self.sl_ticks.len(), self.tp_ticks.len(), self.max_hold_mins.len()];
        assert(dims@ =~= self.dims());
        let pts = grid_points(&dims);
        let ghost pred = |c: (usize, UsOpenReversalAgent)| 2 * c.1.sl_ticks <= c.1.tp_ticks;
        let ghost cands = self.candidates();
        let mut agents: Vec<(usize, UsOpenReversalAgent)> = Vec::new();
        let mut k: usize = 0;
        while k < pts.len()
            invariant
                dims@ == self.dims(),
                pts.len() == grid_size(self.dims()),
                forall|m: int| 0 <= m < pts.len() ==> (#[trigger] pts@[m])@ == grid_point(dims@, m as nat),
                cands == self.candidates(),
                pred == (|c: (usize, UsOpenReversalAgent)| 2 * c.1.sl_ticks <= c.1.tp_ticks),
                k <= pts.len(),
                agents@ == cands.take(k as int).filter(pred),
            decreases pts.len() - k,
        {
            proof {
                lemma_grid_point_in_grid(self.dims(), k as nat);
            }
            let p = &pts[k];
            assert(p@ == grid_point(self.dims(), k as nat));
            assert(p@[0] < self.dims()[0] && p@[1] < self.dims()[1] && p@[2] < self.dims()[2]);
            let sl = self.sl_ticks[p[0]];
            let tp = self.tp_ticks[p[1]];
            let hold = self.max_hold_mins[p[2]];
            let agent = UsOpenReversalAgent::new().with_sl_ticks(sl).with_tp_ticks(tp).with_max_hold_mins(
                hold as i64,
            );
            assert(agent == self.agent_at(k as nat));
            proof {
                reveal(Seq::filter);
                assert(cands.take(k + 1).drop_last() =~= cands.take(k as int));
                assert(cands.take(k + 1).last() == cands[k as int]);
            }
            if 2 * (sl as u32) <= tp as u32 {
                agents.push((k, agent));
            }
            k = k + 1;
        }
        assert(cands.take(pts.len() as int) =~= cands);
        agents
    }
}

} // verus!

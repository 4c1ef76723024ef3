//! Fair-value-gap (Smart Money Concepts) strategy, long only, M15.
//!
//! A bullish break of structure (BOS) or change of character (CHoCH) on the
//! HHLL indicator updates the take-profit extremum and, if a bullish
//! fair value gap formed during the movement that just ended, places a buy
//! limit order at the gap's midpoint with stop loss and take profit
//! attached. Any BOS/CHoCH cancels a still pending order and starts a new
//! movement. At most one order or trade is live at a time. At 22:00 Berlin
//! time a pending order is cancelled and an open trade closed at market, and
//! no new order is placed until the next Berlin calendar date.
//!
//! The indicators, the gap selection and the order prices are the caller's:
//! a planned order reaches this module as an opaque `O`, a price (the
//! take-profit extremum) as an opaque `T`. The candle step is split in two
//! around the indicator update: `begin_candle` before it, `on_structure`
//! after it.
use crate::time::{berlin_date_of, berlin_day, berlin_hour, berlin_hour_of, berlin_representable, MAX_INSTANT_MS, MIN_INSTANT_MS, MS_PER_DAY};
use vstd::prelude::*;

verus! {

/// Lifecycle phase of the strategy.
#[derive(Debug, Clone, Copy, PartialEq, Eq, Structural)]
pub enum SetupPhase {
    /// Watching for the next bullish BOS/CHoCH with a gap in the movement.
    Scanning,
    /// A limit order is out; waiting for a fill, an invalidation or the timeout.
    OrderPending { trade_id: i64 },
    /// The limit order filled; waiting for TP/SL or the timeout.
    InTrade { trade_id: i64 },
    /// The timeout fired today; no new orders until the next trading day.
    DoneForDay,
}

impl SetupPhase {
    pub fn is_done_for_day(&self) -> (done: bool)
        ensures
            done == (*self == SetupPhase::DoneForDay),
    {
        match self {
            SetupPhase::DoneForDay => true,
            _ => false,
        }
    }
}

/// An order to take down at the timeout.
#[derive(Debug, Clone, Copy, PartialEq, Eq, Structural)]
pub enum ExitOrder {
    Cancel { trade_id: i64 },
    MarketClose { trade_id: i64 },
}

/// How the candle step goes on after its first part.
#[derive(Debug, Clone, Copy, PartialEq, Eq, Structural)]
pub enum CandleStart {
    /// This candle was processed already: nothing to do.
    Duplicate,
    /// The daily timeout fired: take down this order, if any, and stop.
    TimedOut(Option<ExitOrder>),
    /// Done for the day: nothing to do.
    Idle,
    /// A trade is open: update the indicators, then nothing more.
    HoldTrade,
    /// Update the indicators, then call `on_structure`.
    Evaluate,
}

/// What the structure indicator reported on this candle.
#[derive(Debug, Clone, Copy, PartialEq, Eq)]
pub struct StructureEvent<T> {
    /// A break of structure or a market structure shift (CHoCH).
    pub bos_or_choch: bool,
    /// The confirming pivot is a high (a bullish event).
    pub pivot_high: bool,
    /// The confirming pivot's price.
    pub pivot_price: T,
    /// The caller's comparison of the agent's current take-profit extremum
    /// with the pivot's price: the extremum is at least the pivot's price.
    pub extremum_covers_pivot: bool,
}

/// A buy limit order to place: its id, the caller's order plan (entry and
/// stop loss) and the take profit.
#[derive(Debug, Clone, Copy, PartialEq, Eq)]
pub struct FvgOrder<O, T> {
    pub trade_id: i64,
    pub order: O,
    pub take_profit: T,
}

/// The orders of the structure step: a cancel, then an open, each optional.
#[derive(Debug, Clone, Copy, PartialEq, Eq)]
pub struct StructureActions<O, T> {
    pub cancel: Option<i64>,
    pub open: Option<FvgOrder<O, T>>,
}

/// The decision state of the strategy.
#[derive(Debug, Clone, Copy, PartialEq, Eq)]
pub struct FlorianFvgAgent<T> {
    /// Index of the candle of the last BOS/CHoCH; gaps created after it
    /// belong to the current movement.
    pub movement_start_index: usize,
    /// Running maximum of the confirmed bullish BOS/CHoCH pivot prices.
    pub tp_extremum: Option<T>,
    pub setup_phase: SetupPhase,
    pub last_m15_ts: Option<i64>,
    /// Berlin calendar date (days from the common era) of the last candle.
    pub last_berlin_date: Option<i32>,
    pub trade_counter: i64,
}

/// The bullish events: a BOS or CHoCH confirmed by a high pivot.
pub open spec fn is_bullish<T>(e: StructureEvent<T>) -> bool {
    e.bos_or_choch && e.pivot_high
}

/// The take-profit extremum once a bullish pivot is taken in: the running
/// maximum, which keeps the current extremum when it covers the pivot and
/// moves to the pivot's price otherwise.
pub open spec fn raised_extremum<T>(current: Option<T>, e: StructureEvent<T>) -> T {
    if current is Some && e.extremum_covers_pivot {
        current->0
    } else {
        e.pivot_price
    }
}

impl<T: Copy> FlorianFvgAgent<T> {
    /// The trade ids issued so far are `1..=trade_counter`; the pending
    /// order or open trade carries one of them.
    pub open spec fn wf(self) -> bool {
        &&& self.trade_counter >= 0
        &&& self.setup_phase matches SetupPhase::OrderPending { trade_id } ==> 1 <= trade_id
            <= self.trade_counter
        &&& self.setup_phase matches SetupPhase::InTrade { trade_id } ==> 1 <= trade_id
            <= self.trade_counter
    }

    /// The state once the candle is recorded and the day rolled over.
    pub open spec fn dated(self, close_time: i64) -> FlorianFvgAgent<T> {
        let s1 = FlorianFvgAgent { last_m15_ts: Some(close_time), ..self };
        let date = berlin_day(close_time);
        if s1.last_berlin_date != Some(date as i32) {
            FlorianFvgAgent {
                last_berlin_date: Some(date as i32),
                setup_phase: if s1.setup_phase == SetupPhase::DoneForDay {
                    SetupPhase::Scanning
                } else {
                    s1.setup_phase
                },
                ..s1
            }
        } else {
            s1
        }
    }

    /// The order the timeout takes down in a given phase.
    pub open spec fn timeout_exit(phase: SetupPhase, active_trade: Option<i64>) -> Option<ExitOrder> {
        match phase {
            SetupPhase::OrderPending { trade_id } => Some(ExitOrder::Cancel { trade_id }),
            SetupPhase::InTrade { .. } => match active_trade {
                Some(id) => Some(ExitOrder::MarketClose { trade_id: id }),
                None => None,
            },
            _ => None,
        }
    }

    /// The first part of a candle step: the next state and how to go on.
    pub open spec fn begin_next(self, close_time: i64, active_trade: Option<i64>) -> (
        FlorianFvgAgent<T>,
        CandleStart,
    ) {
        if self.last_m15_ts == Some(close_time) {
            (self, CandleStart::Duplicate)
        } else {
            let s2 = self.dated(close_time);
            if berlin_hour(close_time) >= 22 && s2.setup_phase != SetupPhase::DoneForDay {
                (
                    FlorianFvgAgent { setup_phase: SetupPhase::DoneForDay, ..s2 },
                    CandleStart::TimedOut(Self::timeout_exit(s2.setup_phase, active_trade)),
                )
            } else if s2.setup_phase == SetupPhase::DoneForDay {
                (s2, CandleStart::Idle)
            } else {
                let phase = match s2.setup_phase {
                    SetupPhase::OrderPending { trade_id } => if active_trade == Some(trade_id) {
                        SetupPhase::InTrade { trade_id }
                    } else {
                        s2.setup_phase
                    },
                    _ => s2.setup_phase,
                };
                if phase is InTrade {
                    if active_trade is Some {
                        (FlorianFvgAgent { setup_phase: phase, ..s2 }, CandleStart::HoldTrade)
                    } else {
                        (
                            FlorianFvgAgent { setup_phase: SetupPhase::Scanning, ..s2 },
                            CandleStart::Evaluate,
                        )
                    }
                } else {
                    (FlorianFvgAgent { setup_phase: phase, ..s2 }, CandleStart::Evaluate)
                }
            }
        }
    }

    /// The second part of a candle step: the next state and the orders.
    pub open spec fn structure_next<O>(
        self,
        event: Option<StructureEvent<T>>,
        index: usize,
        order: Option<O>,
    ) -> (FlorianFvgAgent<T>, StructureActions<O, T>) {
        match event {
            None => (self, StructureActions { cancel: None, open: None }),
            Some(e) => {
                if !e.bos_or_choch {
                    (self, StructureActions { cancel: None, open: None })
                } else {
                    let tp = if is_bullish(e) {
                        Some(raised_extremum(self.tp_extremum, e))
                    } else {
                        self.tp_extremum
                    };
                    let cancel = match self.setup_phase {
                        SetupPhase::OrderPending { trade_id } => Some(trade_id),
                        _ => None,
                    };
                    let phase = if cancel is Some {
                        SetupPhase::Scanning
                    } else {
                        self.setup_phase
                    };
                    let s = FlorianFvgAgent {
                        tp_extremum: tp,
                        setup_phase: phase,
                        movement_start_index: index,
                        ..self
                    };
                    if is_bullish(e) && order is Some && phase == SetupPhase::Scanning && tp is Some {
                        let id = (self.trade_counter + 1) as i64;
                        (
                            FlorianFvgAgent {
                                trade_counter: id,
                                setup_phase: SetupPhase::OrderPending { trade_id: id },
                                ..s
                            },
                            StructureActions {
                                cancel,
                                open: Some(
                                    FvgOrder { trade_id: id, order: order->0, take_profit: tp->0 },
                                ),
                            },
                        )
                    } else {
                        (s, StructureActions { cancel, open: None })
                    }
                }
            },
        }
    }

    /// Whether the structure step would place an order.
    pub open spec fn structure_opens<O>(self, event: Option<StructureEvent<T>>, index: usize, order: Option<O>) -> bool {
        self.structure_next(event, index, order).1.open is Some
    }

    /// The strategy in its initial state.
    pub fn new() -> (agent: Self)
        ensures
            agent.movement_start_index == 0,
            agent.tp_extremum == None::<T>,
            agent.setup_phase == SetupPhase::Scanning,
            agent.last_m15_ts == None::<i64>,
            agent.last_berlin_date == None::<i32>,
            agent.trade_counter == 0,
            agent.wf(),
    {
        FlorianFvgAgent {
            movement_start_index: 0,
            tp_extremum: None,
            setup_phase: SetupPhase::Scanning,
            last_m15_ts: None,
            last_berlin_date: None,
            trade_counter: 0,
        }
    }

    /// Starts a new episode.
    pub fn reset(&mut self)
        ensures
            final(self).movement_start_index == 0,
            final(self).tp_extremum == None::<T>,
            final(self).setup_phase == SetupPhase::Scanning,
            final(self).last_m15_ts == None::<i64>,
            final(self).last_berlin_date == None::<i32>,
            final(self).trade_counter == 0,
            final(self).wf(),
    {
        self.movement_start_index = 0;
        self.tp_extremum = None;
        self.setup_phase = SetupPhase::Scanning;
        self.last_m15_ts = None;
        self.last_berlin_date = None;
        self.trade_counter = 0;
    }

    /// The daily timeout: takes down the pending order or the open trade,
    /// and ends the day.
    pub fn handle_timeout(&mut self, active_trade: Option<i64>) -> (exit: Option<ExitOrder>)
        ensures
            exit == Self::timeout_exit(old(self).setup_phase, active_trade),
            *final(self) == (FlorianFvgAgent { setup_phase: SetupPhase::DoneForDay, ..*old(self) }),
            old(self).wf() ==> final(self).wf(),
    {
        let exit = match self.setup_phase {
            SetupPhase::OrderPending { trade_id } => Some(ExitOrder::Cancel { trade_id }),
            SetupPhase::InTrade { .. } => match active_trade {
                Some(id) => Some(ExitOrder::MarketClose { trade_id: id }),
                None => None,
            },
            _ => None,
        };
        self.setup_phase = SetupPhase::DoneForDay;
        exit
    }

    /// Whether `begin_candle` may be called for a candle closing at `close_time`.
    pub fn can_begin(close_time: i64) -> (ok: bool)
        ensures
            ok == berlin_representable(close_time as int),
    {
        MIN_INSTANT_MS <= close_time && close_time <= MAX_INSTANT_MS - MS_PER_DAY
    }

    /// First part of a candle step, before the indicators are updated:
    /// skips a candle seen already, rolls the Berlin day over, fires the
    /// 22:00 Berlin timeout, and notes a fill of the pending order.
    /// `active_trade` is the id of this agent's open trade, if any.
    pub fn begin_candle(&mut self, close_time: i64, active_trade: Option<i64>) -> (start: CandleStart)
        requires
            berlin_representable(close_time as int),
        ensures
            (*final(self), start) == old(self).begin_next(close_time, active_trade),
            old(self).wf() ==> final(self).wf(),
    {
        if self.last_m15_ts == Some(close_time) {
            return CandleStart::Duplicate;
        }
        self.last_m15_ts = Some(close_time);
        let date = berlin_date_of(close_time);
        let hour = berlin_hour_of(close_time);
        if self.last_berlin_date != Some(date) {
            self.last_berlin_date = Some(date);
            if self.setup_phase.is_done_for_day() {
                self.setup_phase = SetupPhase::Scanning;
            }
        }
        if hour >= 22 && !self.setup_phase.is_done_for_day() {
            let exit = self.handle_timeout(active_trade);
            return CandleStart::TimedOut(exit);
        }
        if self.setup_phase.is_done_for_day() {
            return CandleStart::Idle;
        }
        if let SetupPhase::OrderPending { trade_id } = self.setup_phase {
            if active_trade == Some(trade_id) {
                self.setup_phase = SetupPhase::InTrade { trade_id };
            }
        }
        if let SetupPhase::InTrade { .. } = self.setup_phase {
            if active_trade.is_some() {
                return CandleStart::HoldTrade;
            }
            self.setup_phase = SetupPhase::Scanning;
        }
        CandleStart::Evaluate
    }

    /// Whether `on_structure` may be called with these arguments: a new
    /// trade id must fit when an order would be placed.
    pub fn can_place<O: Copy>(&self, event: &Option<StructureEvent<T>>, index: usize, order: &Option<O>) -> (ok: bool)
        ensures
            ok == (self.structure_opens(*event, index, *order) ==> self.trade_counter < i64::MAX),
    {
        match event {
            Some(e) => {
                let free = match self.setup_phase {
                    SetupPhase::Scanning => true,
                    SetupPhase::OrderPending { .. } => true,
                    _ => false,
                };
                if e.bos_or_choch && e.pivot_high && order.is_some() && free {
                    self.trade_counter < i64::MAX
                } else {
                    true
                }
            },
            None => true,
        }
    }

    /// Second part of a candle step, after the indicators are updated: on a
    /// BOS/CHoCH, updates the take-profit extremum (bullish only), cancels a
    /// pending order, starts a new movement at `index`, and, on a bullish
    /// one with a planned `order` (the midpoint of the best bullish gap of
    /// the movement that ended, with its stop loss), places it.
    pub fn on_structure<O: Copy>(&mut self, event: Option<StructureEvent<T>>, index: usize, order: Option<O>) -> (actions: StructureActions<O, T>)
        requires
            old(self).structure_opens(event, index, order) ==> old(self).trade_counter < i64::MAX,
        ensures
            (*final(self), actions) == old(self).structure_next(event, index, order),
            old(self).wf() ==> final(self).wf(),
    {
        let e = match event {
            None => {
                return StructureActions { cancel: None, open: None };
            },
            Some(e) => e,
        };
        if !e.bos_or_choch {
            return StructureActions { cancel: None, open: None };
        }
        let bullish = e.bos_or_choch && e.pivot_high;
        if bullish {
            self.tp_extremum = match self.tp_extremum {
                Some(current) => if e.extremum_covers_pivot {
                    Some(current)
                } else {
                    Some(e.pivot_price)
                },
                None => Some(e.pivot_price),
            };
        }
        let cancel = if let SetupPhase::OrderPending { trade_id } = self.setup_phase {
            self.setup_phase = SetupPhase::Scanning;
            Some(trade_id)
        } else {
            None
        };
        self.movement_start_index = index;
        let open = match (order, self.tp_extremum) {
            (Some(o), Some(tp)) => {
                if bullish && self.setup_phase == SetupPhase::Scanning {
                    self.trade_counter = self.trade_counter + 1;
                    self.setup_phase = SetupPhase::OrderPending { trade_id: self.trade_counter };
                    Some(FvgOrder { trade_id: self.trade_counter, order: o, take_profit: tp })
                } else {
                    None
                }
            },
            _ => None,
        };
        StructureActions { cancel, open }
    }
}

// ------------------------------------------------------------------------------------------------
// Laws
// ------------------------------------------------------------------------------------------------

/// Law: a candle is processed once: `begin_candle` on a candle already
/// processed (the second of two calls with the same candle) changes
/// nothing, and the step ends there.
pub proof fn lemma_candle_processed_once<T: Copy>(agent: FlorianFvgAgent<T>, close_time: i64, active_trade: Option<i64>)
    requires
        agent.last_m15_ts == Some(close_time),
    ensures
        agent.begin_next(close_time, active_trade) == (agent, CandleStart::Duplicate),
{
}

/// Law (daily timeout): the first new candle at or after 22:00 Berlin time
/// of a day cancels the pending order or closes the open trade, and ends
/// the day.
pub proof fn lemma_timeout_at_22<T: Copy>(agent: FlorianFvgAgent<T>, close_time: i64, active_trade: Option<i64>)
    requires
        agent.last_m15_ts != Some(close_time),
        berlin_hour(close_time) >= 22,
        agent.dated(close_time).setup_phase != SetupPhase::DoneForDay,
    ensures
        ({
            let (after, start) = agent.begin_next(close_time, active_trade);
            let phase = agent.dated(close_time).setup_phase;
            &&& after.setup_phase == SetupPhase::DoneForDay
            &&& (phase matches SetupPhase::OrderPending { trade_id } ==> start == CandleStart::TimedOut(
                Some(ExitOrder::Cancel { trade_id }),
            ))
            &&& ((phase is InTrade && active_trade is Some) ==> start == CandleStart::TimedOut(
                Some(ExitOrder::MarketClose { trade_id: active_trade->0 }),
            ))
        }),
{
}

/// Law: once done for the day, the agent stays idle for the rest of that
/// Berlin date, and scans again from the first candle of the next one.
pub proof fn lemma_done_until_next_day<T: Copy>(agent: FlorianFvgAgent<T>, close_time: i64, active_trade: Option<i64>)
    requires
        agent.last_m15_ts != Some(close_time),
        agent.setup_phase == SetupPhase::DoneForDay,
    ensures
        agent.last_berlin_date == Some(berlin_day(close_time) as i32) ==> agent.begin_next(
            close_time,
            active_trade,
        ).1 == CandleStart::Idle && agent.begin_next(close_time, active_trade).0.setup_phase
            == SetupPhase::DoneForDay,
        (agent.last_berlin_date != Some(berlin_day(close_time) as i32) && berlin_hour(close_time)
            < 22) ==> agent.begin_next(close_time, active_trade).1 == CandleStart::Evaluate
            && agent.begin_next(close_time, active_trade).0.setup_phase == SetupPhase::Scanning,
{
}

/// Law (fill tracking): on a new candle before 22:00 Berlin time, a
/// pending order that now shows as this agent's trade becomes the trade
/// and is held; a pending order not yet filled stays pending and the
/// structure is evaluated; an open trade is held while it lasts, and once
/// it is gone the agent scans again; a scanning agent evaluates.
pub proof fn lemma_fill_tracking<T: Copy>(agent: FlorianFvgAgent<T>, close_time: i64, active_trade: Option<i64>)
    requires
        agent.last_m15_ts != Some(close_time),
        berlin_hour(close_time) < 22,
    ensures
        ({
            let (after, start) = agent.begin_next(close_time, active_trade);
            &&& after.last_m15_ts == Some(close_time)
            &&& after.trade_counter == agent.trade_counter
            &&& agent.setup_phase matches SetupPhase::OrderPending { trade_id } ==> (if active_trade
                == Some(trade_id) {
                start == CandleStart::HoldTrade && after.setup_phase == (SetupPhase::InTrade {
                    trade_id,
                })
            } else {
                start == CandleStart::Evaluate && after.setup_phase == agent.setup_phase
            })
            &&& agent.setup_phase is InTrade ==> (if active_trade is Some {
                start == CandleStart::HoldTrade && after.setup_phase == agent.setup_phase
            } else {
                start == CandleStart::Evaluate && after.setup_phase == SetupPhase::Scanning
            })
            &&& agent.setup_phase == SetupPhase::Scanning ==> start == CandleStart::Evaluate
                && after.setup_phase == SetupPhase::Scanning
        }),
{
}

/// Law: a candle without a BOS/CHoCH changes nothing and orders nothing.
pub proof fn lemma_no_structure_no_change<T: Copy, O>(
    agent: FlorianFvgAgent<T>,
    event: Option<StructureEvent<T>>,
    index: usize,
    order: Option<O>,
)
    requires
        !(event matches Some(e) && e.bos_or_choch),
    ensures
        agent.structure_next(event, index, order).0 == agent,
        agent.structure_next(event, index, order).1.cancel is None,
        agent.structure_next(event, index, order).1.open is None,
{
}

/// Law: every BOS/CHoCH, bullish or bearish, cancels a pending order and
/// starts a new movement at its candle.
pub proof fn lemma_structure_invalidates_pending<T: Copy, O>(
    agent: FlorianFvgAgent<T>,
    e: StructureEvent<T>,
    index: usize,
    order: Option<O>,
)
    requires
        e.bos_or_choch,
    ensures
        agent.structure_next(Some(e), index, order).0.movement_start_index == index,
        agent.setup_phase matches SetupPhase::OrderPending { trade_id } ==> agent.structure_next(
            Some(e),
            index,
            order,
        ).1.cancel == Some(trade_id),
{
}

/// Law: a structure step cancels only the order that is pending: a cancel
/// names the pending order's id, and with no order pending (scanning, in a
/// trade, or done) nothing is cancelled.
pub proof fn lemma_cancel_only_pending<T: Copy, O>(
    agent: FlorianFvgAgent<T>,
    event: Option<StructureEvent<T>>,
    index: usize,
    order: Option<O>,
)
    ensures
        agent.structure_next(event, index, order).1.cancel matches Some(id) ==> agent.setup_phase
            == (SetupPhase::OrderPending { trade_id: id }),
        !(agent.setup_phase is OrderPending) ==> agent.structure_next(event, index, order).1.cancel
            is None,
{
}

/// Law (long only, single slot): an order is placed only on a bullish
/// BOS/CHoCH, only when no trade is open and no other order stays pending
/// (the one it replaces carries an older id), with the next trade id, and
/// the take profit is the updated extremum.
pub proof fn lemma_order_only_on_bullish_single_slot<T: Copy, O>(
    agent: FlorianFvgAgent<T>,
    event: Option<StructureEvent<T>>,
    index: usize,
    order: Option<O>,
)
    requires
        agent.wf(),
        agent.structure_opens(event, index, order),
        agent.trade_counter < i64::MAX,
    ensures
        ({
            let (after, actions) = agent.structure_next(event, index, order);
            let o = actions.open->0;
            &&& is_bullish(event->0)
            &&& (actions.cancel matches Some(c) ==> c < o.trade_id)
            &&& (agent.setup_phase == SetupPhase::Scanning || agent.setup_phase is OrderPending)
            &&& (agent.setup_phase is OrderPending ==> actions.cancel is Some)
            &&& o.trade_id == agent.trade_counter + 1
            &&& o.take_profit == raised_extremum(agent.tp_extremum, event->0)
            &&& after.setup_phase == (SetupPhase::OrderPending { trade_id: o.trade_id })
        }),
{
}

/// Law: on a bullish BOS/CHoCH the take-profit extremum becomes the running
/// maximum of the confirmed pivots: it stays when it covers the new pivot,
/// and moves to the pivot's price otherwise.
pub proof fn lemma_extremum_follows_bullish_pivots<T: Copy, O>(
    agent: FlorianFvgAgent<T>,
    e: StructureEvent<T>,
    index: usize,
    order: Option<O>,
)
    requires
        is_bullish(e),
    ensures
        agent.structure_next(Some(e), index, order).0.tp_extremum == Some(
            raised_extremum(agent.tp_extremum, e),
        ),
        (agent.tp_extremum is Some && e.extremum_covers_pivot) ==> agent.structure_next(
            Some(e),
            index,
            order,
        ).0.tp_extremum == agent.tp_extremum,
        !(agent.tp_extremum is Some && e.extremum_covers_pivot) ==> agent.structure_next(
            Some(e),
            index,
            order,
        ).0.tp_extremum == Some(e.pivot_price),
{
}

/// Law: a bearish or non-structural event never places an order and never
/// moves the take-profit extremum.
pub proof fn lemma_bearish_never_opens<T: Copy, O>(
    agent: FlorianFvgAgent<T>,
    e: StructureEvent<T>,
    index: usize,
    order: Option<O>,
)
    requires
        !is_bullish(e),
    ensures
        agent.structure_next(Some(e), index, order).1.open is None,
        agent.structure_next(Some(e), index, order).0.tp_extremum == agent.tp_extremum,
{
}

} // verus!

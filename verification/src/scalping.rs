//! The VWAP/OBV-RSI scalper's bookkeeping and decisions.
//!
//! Once per new closed candle the agent (1) checks each open position for an
//! exit, oldest first, in the fixed order stop loss, middle line, take
//! profit; (2) arms a cooldown after a losing exit; (3) opens at most one new
//! position when a *new* long or short signal appears, no cooldown is
//! running, the opposite side is flat and the pyramid limit is not reached.
//!
//! The price comparisons behind the exit checks and the signals (bands,
//! RSI, stop and target levels) are the caller's; they reach this module as
//! flags. A position's price levels travel with it as an opaque `P`, and the
//! previous candle's VWAP basis as an opaque `B`.
use crate::trade::TradeKind;
use vstd::math::min;
use std::collections::VecDeque;
use vstd::prelude::*;

verus! {

// ================================================================================================
// Rolling window
// ================================================================================================

/// The last `window` values of a stream, oldest first.
#[derive(Debug, Clone)]
pub struct RollingWindow<T> {
    pub window: usize,
    pub history: VecDeque<T>,
}

/// The history after one more value: the value is appended and, when that
/// makes it longer than the window, the oldest value leaves.
pub open spec fn window_push<T>(history: Seq<T>, window: nat, item: T) -> Seq<T> {
    if history.len() + 1 > window {
        history.push(item).drop_first()
    } else {
        history.push(item)
    }
}

impl<T> RollingWindow<T> {
    pub open spec fn wf(&self) -> bool {
        self.history@.len() <= self.window
    }

    /// An empty window of the given size.
    pub fn new(window: usize) -> (w: Self)
        ensures
            w.window == window,
            w.history@ == Seq::<T>::empty(),
            w.wf(),
    {
        RollingWindow { window, history: VecDeque::new() }
    }

    /// Takes in one value; returns whether the window is full (warmed up).
    pub fn push(&mut self, item: T) -> (ready: bool)
        requires
            old(self).wf(),
        ensures
            final(self).window == old(self).window,
            final(self).history@ == window_push(old(self).history@, old(self).window as nat, item),
            final(self).wf(),
            ready == (final(self).history@.len() >= final(self).window),
    {
        broadcast use vstd::std_specs::vecdeque::axiom_spec_len;

        self.history.push_back(item);
        if self.history.len() > self.window {
            self.history.pop_front();
        }
        self.history.len() >= self.window
    }

    /// Forgets every value.
    pub fn reset(&mut self)
        ensures
            final(self).window == old(self).window,
            final(self).history@ == Seq::<T>::empty(),
            final(self).wf(),
    {
        self.history.clear();
    }
}

/// Law: the window always holds exactly the most recent `min(window, n)`
/// values of the stream it has been fed.
pub proof fn lemma_window_keeps_latest<T>(history: Seq<T>, window: nat, stream: Seq<T>, item: T)
    requires
        history == stream.skip(stream.len() - min(window as int, stream.len() as int)),
    ensures
        window_push(history, window, item) == stream.push(item).skip(
            stream.len() + 1 - min(window as int, stream.len() + 1 as int),
        ),
{
    let s2 = stream.push(item);
    let w = window as int;
    let n = stream.len() as int;
    assert(window_push(history, window, item) =~= s2.skip(n + 1 - min(w, n + 1)));
}

// ================================================================================================
// Exits
// ================================================================================================

/// One open position: its trade id and its own price levels `P` (entry,
/// stop loss, take profit), fixed when it opened.
#[derive(Debug, Clone, Copy, PartialEq, Eq)]
pub struct Position<P> {
    pub trade_id: i64,
    pub levels: P,
}

/// The outcome of the price comparisons for one position on this candle.
#[derive(Debug, Clone, Copy, PartialEq, Eq, Structural)]
pub struct ExitFlags {
    /// The candle reached the position's stop loss.
    pub stop_hit: bool,
    /// The candle reached the previous candle's VWAP basis (the middle line).
    pub midline_hit: bool,
    /// That middle line lies on the losing side of the position's entry.
    pub midline_is_loss: bool,
    /// The candle reached the position's take profit.
    pub take_profit_hit: bool,
}

/// Why a position is closed.
#[derive(Debug, Clone, Copy, PartialEq, Eq, Structural)]
pub enum ExitReason {
    StopLoss,
    MiddleLine,
    TakeProfit,
}

/// The first exit that fires, in the order stop loss, middle line, take profit.
pub open spec fn exit_reason(f: ExitFlags) -> Option<ExitReason> {
    if f.stop_hit {
        Some(ExitReason::StopLoss)
    } else if f.midline_hit {
        Some(ExitReason::MiddleLine)
    } else if f.take_profit_hit {
        Some(ExitReason::TakeProfit)
    } else {
        None
    }
}

/// Whether the exit that fires is a losing one: a stop loss, or a middle
/// line exit below a long's (above a short's) entry.
pub open spec fn is_loss_exit(f: ExitFlags) -> bool {
    f.stop_hit || (f.midline_hit && f.midline_is_loss)
}

/// The positions that stay open, in their order.
pub open spec fn survivors<P>(ps: Seq<Position<P>>, fs: Seq<ExitFlags>) -> Seq<Position<P>>
    decreases ps.len(),
{
    if ps.len() == 0 {
        Seq::empty()
    } else {
        let rest = survivors(ps.drop_last(), fs);
        if exit_reason(fs[ps.len() - 1]) is None {
            rest.push(ps.last())
        } else {
            rest
        }
    }
}

/// The trade ids of the positions closed, in their order.
pub open spec fn closed_ids<P>(ps: Seq<Position<P>>, fs: Seq<ExitFlags>) -> Seq<i64>
    decreases ps.len(),
{
    if ps.len() == 0 {
        Seq::empty()
    } else {
        let rest = closed_ids(ps.drop_last(), fs);
        if exit_reason(fs[ps.len() - 1]) is Some {
            rest.push(ps.last().trade_id)
        } else {
            rest
        }
    }
}

/// Whether any of the first `n` positions closes with a loss.
pub open spec fn any_loss(fs: Seq<ExitFlags>, n: int) -> bool {
    exists|i: int| 0 <= i < n && #[trigger] is_loss_exit(fs[i])
}

/// What checking one side of the book leaves: the positions still open,
/// the ids to close at market, and whether a close was a loss.
#[derive(Debug)]
pub struct ExitCheck<P> {
    pub positions: Vec<Position<P>>,
    pub closed: Vec<i64>,
    pub cooldown_hit: bool,
}

/// Checks every open position of one side, oldest first, against its flags.
pub fn check_exits<P: Copy>(positions: &Vec<Position<P>>, flags: &Vec<ExitFlags>) -> (out: ExitCheck<P>)
    requires
        flags.len() == positions.len(),
    ensures
        out.positions@ == survivors(positions@, flags@),
        out.closed@ == closed_ids(positions@, flags@),
        out.cooldown_hit == any_loss(flags@, positions.len() as int),
{
    let mut kept: Vec<Position<P>> = Vec::new();
    let mut closed: Vec<i64> = Vec::new();
    let mut cooldown_hit = false;
    let mut i: usize = 0;
    while i < positions.len()
        invariant
            flags.len() == positions.len(),
            i <= positions.len(),
            kept@ == survivors(positions@.take(i as int), flags@),
            closed@ == closed_ids(positions@.take(i as int), flags@),
            cooldown_hit == any_loss(flags@, i as int),
        decreases positions.len() - i,
    {
        let pos = positions[i];
        let f = flags[i];
        proof {
            assert(positions@.take(i + 1).drop_last() =~= positions@.take(i as int));
            assert(positions@.take(i + 1).last() == positions@[i as int]);
        }
        if f.stop_hit {
            closed.push(pos.trade_id);
            cooldown_hit = true;
        } else if f.midline_hit {
            closed.push(pos.trade_id);
            if f.midline_is_loss {
                cooldown_hit = true;
            }
        } else if f.take_profit_hit {
            closed.push(pos.trade_id);
        } else {
            kept.push(pos);
        }
        proof {
            if is_loss_exit(flags@[i as int]) {
                assert(any_loss(flags@, i + 1));
            }
            if any_loss(flags@, i as int) {
                let j = choose|j: int| 0 <= j < i && #[trigger] is_loss_exit(flags@[j]);
                assert(any_loss(flags@, i + 1));
            }
        }
        i = i + 1;
    }
    assert(positions@.take(positions.len() as int) =~= positions@);
    ExitCheck { positions: kept, closed, cooldown_hit }
}

/// Law: every position is either kept or closed, never both, and no
/// position is lost or made up.
pub proof fn lemma_exits_partition<P>(ps: Seq<Position<P>>, fs: Seq<ExitFlags>)
    ensures
        survivors(ps, fs).len() + closed_ids(ps, fs).len() == ps.len(),
    decreases ps.len(),
{
    if ps.len() > 0 {
        lemma_exits_partition(ps.drop_last(), fs);
    }
}

/// Trade ids strictly increase along the positions (oldest first).
pub open spec fn ids_increasing<P>(ps: Seq<Position<P>>) -> bool {
    forall|i: int, j: int| 0 <= i < j < ps.len() ==> #[trigger] ps[i].trade_id < #[trigger] ps[j].trade_id
}

/// Every trade id lies in `1..=counter`.
pub open spec fn ids_issued<P>(ps: Seq<Position<P>>, counter: int) -> bool {
    forall|i: int| 0 <= i < ps.len() ==> 1 <= #[trigger] ps[i].trade_id <= counter
}

/// No trade id is on both sides.
pub open spec fn ids_disjoint<P>(a: Seq<Position<P>>, b: Seq<Position<P>>) -> bool {
    forall|i: int, j: int| 0 <= i < a.len() && 0 <= j < b.len() ==> #[trigger] a[i].trade_id != #[trigger] b[j].trade_id
}

/// Law: every position that stays open is one of those that were open.
pub proof fn lemma_survivors_were_open<P>(ps: Seq<Position<P>>, fs: Seq<ExitFlags>)
    ensures
        forall|i: int|
            0 <= i < survivors(ps, fs).len() ==> exists|k: int|
                0 <= k < ps.len() && #[trigger] survivors(ps, fs)[i] == ps[k],
    decreases ps.len(),
{
    if ps.len() > 0 {
        let d = ps.drop_last();
        lemma_survivors_were_open(d, fs);
        let r = survivors(d, fs);
        assert forall|i: int| 0 <= i < survivors(ps, fs).len() implies exists|k: int|
            0 <= k < ps.len() && #[trigger] survivors(ps, fs)[i] == ps[k] by {
            if i < r.len() {
                let k = choose|k: int| 0 <= k < d.len() && #[trigger] r[i] == d[k];
                assert(survivors(ps, fs)[i] == ps[k]);
            } else {
                assert(survivors(ps, fs)[i] == ps[ps.len() - 1]);
            }
        }
    }
}

/// Law: the ids of the positions that stay open still increase.
pub proof fn lemma_survivors_increasing<P>(ps: Seq<Position<P>>, fs: Seq<ExitFlags>)
    requires
        ids_increasing(ps),
    ensures
        ids_increasing(survivors(ps, fs)),
    decreases ps.len(),
{
    if ps.len() > 0 {
        let d = ps.drop_last();
        assert(ids_increasing(d)) by {
            assert forall|i: int, j: int| 0 <= i < j < d.len() implies #[trigger] d[i].trade_id < #[trigger] d[j].trade_id by {
                assert(d[i] == ps[i] && d[j] == ps[j]);
            }
        }
        lemma_survivors_increasing(d, fs);
        lemma_survivors_were_open(d, fs);
        let r = survivors(d, fs);
        let all = survivors(ps, fs);
        assert forall|i: int, j: int| 0 <= i < j < all.len() implies #[trigger] all[i].trade_id < #[trigger] all[j].trade_id by {
            if j < r.len() {
                assert(all[i] == r[i] && all[j] == r[j]);
            } else {
                assert(all[j] == ps[ps.len() - 1]);
                assert(all[i] == r[i]);
                let k = choose|k: int| 0 <= k < d.len() && #[trigger] r[i] == d[k];
                assert(d[k] == ps[k]);
            }
        }
    }
}

/// Law: when the middle line is reached it closes every open position of
/// the side (the stop loss closes those it reaches first), so none survive.
pub proof fn lemma_midline_closes_side<P>(ps: Seq<Position<P>>, fs: Seq<ExitFlags>)
    requires
        fs.len() == ps.len(),
        forall|i: int| 0 <= i < fs.len() ==> (#[trigger] fs[i]).midline_hit,
    ensures
        survivors(ps, fs).len() == 0,
        closed_ids(ps, fs) == ps.map_values(|p: Position<P>| p.trade_id),
{
    lemma_midline_closes_side_prefix(ps, fs);
}

proof fn lemma_midline_closes_side_prefix<P>(ps: Seq<Position<P>>, fs: Seq<ExitFlags>)
    requires
        ps.len() <= fs.len(),
        forall|i: int| 0 <= i < fs.len() ==> (#[trigger] fs[i]).midline_hit,
    ensures
        survivors(ps, fs).len() == 0,
        closed_ids(ps, fs) == ps.map_values(|p: Position<P>| p.trade_id),
    decreases ps.len(),
{
    if ps.len() > 0 {
        let d = ps.drop_last();
        lemma_midline_closes_side_prefix(d, fs);
        assert(fs[ps.len() - 1].midline_hit);
        assert(ps.map_values(|p: Position<P>| p.trade_id) =~= d.map_values(
            |p: Position<P>| p.trade_id,
        ).push(ps.last().trade_id));
    } else {
        assert(ps.map_values(|p: Position<P>| p.trade_id) =~= Seq::<i64>::empty());
    }
}

/// Law: a position whose stop loss was reached is always closed, whatever
/// the middle line and take profit say, and it always arms the cooldown.
pub proof fn lemma_stop_loss_first(f: ExitFlags)
    requires
        f.stop_hit,
    ensures
        exit_reason(f) == Some(ExitReason::StopLoss),
        is_loss_exit(f),
{
}

// ================================================================================================
// Agent
// ================================================================================================

/// This candle's entry signals, once both indicators have a value.
#[derive(Debug, Clone, Copy, PartialEq, Eq)]
pub struct CandleSignals<P, B> {
    /// Close inside the lower band zone and OBV RSI at or under the lower bound.
    pub long_signal: bool,
    /// Close inside the upper band zone and OBV RSI at or over the upper bound.
    pub short_signal: bool,
    /// This candle's VWAP basis, the next candle's middle line.
    pub basis: B,
    /// The levels a long opened on this candle would get.
    pub long_levels: P,
    /// The levels a short opened on this candle would get.
    pub short_levels: P,
}

/// What the agent learns on one new closed candle.
#[derive(Debug)]
pub struct ScalpingInput<P, B> {
    /// Close time of the candle (ms since the epoch).
    pub close_time: i64,
    /// One set of flags per open long position, in order.
    pub long_exits: Vec<ExitFlags>,
    /// One set of flags per open short position, in order.
    pub short_exits: Vec<ExitFlags>,
    /// `None` while an indicator is still warming up (or the window has no volume).
    pub signals: Option<CandleSignals<P, B>>,
}

/// A market order to open.
#[derive(Debug, Clone, Copy, PartialEq, Eq, Structural)]
pub struct OpenOrder {
    pub trade_id: i64,
    pub trade_kind: TradeKind,
}

/// The orders of one step: market closes (short side first, then long
/// side, each oldest first), then at most one open.
#[derive(Debug)]
pub struct ScalpingActions {
    pub closes: Vec<i64>,
    pub open: Option<OpenOrder>,
}

/// The scalper's parameters (those not about prices) and trading state.
#[derive(Debug, Clone)]
pub struct ScalpingAgent<P, B> {
    /// Most positions open on one side at once.
    pub max_pyramid: u8,
    /// Candles to block new entries for, after a losing exit.
    pub cooldown_bars: u32,
    pub long_positions: Vec<Position<P>>,
    pub short_positions: Vec<Position<P>>,
    /// The VWAP basis of the previous candle that had one.
    pub prev_basis: Option<B>,
    pub prev_long_signal: bool,
    pub prev_short_signal: bool,
    pub cooldown_remaining: u32,
    pub trade_counter: i64,
    pub last_processed_ts: Option<i64>,
}

impl<P: Copy, B: Copy> ScalpingAgent<P, B> {
    /// The trade counter is not negative, the open positions carry ids
    /// issued by this agent (`1..=trade_counter`),
    /// increasing oldest first on each side, and no id is on both sides.
    pub open spec fn wf(&self) -> bool {
        &&& self.trade_counter >= 0
        &&& ids_increasing(self.long_positions@)
        &&& ids_increasing(self.short_positions@)
        &&& ids_issued(self.long_positions@, self.trade_counter as int)
        &&& ids_issued(self.short_positions@, self.trade_counter as int)
        &&& ids_disjoint(self.long_positions@, self.short_positions@)
    }

    /// Whether this candle is new (not the one processed last).
    pub open spec fn is_new(&self, close_time: i64) -> bool {
        self.last_processed_ts != Some(close_time)
    }

    pub open spec fn longs_after_exits(&self, input: &ScalpingInput<P, B>) -> Seq<Position<P>> {
        survivors(self.long_positions@, input.long_exits@)
    }

    pub open spec fn shorts_after_exits(&self, input: &ScalpingInput<P, B>) -> Seq<Position<P>> {
        survivors(self.short_positions@, input.short_exits@)
    }

    /// Whether this candle closes a position with a loss.
    pub open spec fn loss_exit(&self, input: &ScalpingInput<P, B>) -> bool {
        any_loss(input.long_exits@, self.long_positions@.len() as int) || any_loss(
            input.short_exits@,
            self.short_positions@.len() as int,
        )
    }

    /// Whether entries are blocked on this candle: a cooldown is running
    /// from an earlier losing exit, or one starts on this candle.
    pub open spec fn cooling(&self, input: &ScalpingInput<P, B>) -> bool {
        (self.loss_exit(input) && self.cooldown_bars > 0) || self.cooldown_remaining > 0
    }

    /// How many of the following candles stay blocked: all `cooldown_bars`
    /// of them after a losing exit on this candle, else one fewer than before.
    pub open spec fn cooldown_after(&self, input: &ScalpingInput<P, B>) -> u32 {
        if self.loss_exit(input) {
            self.cooldown_bars
        } else if self.cooldown_remaining > 0 {
            (self.cooldown_remaining - 1) as u32
        } else {
            0
        }
    }

    /// The side opened on this candle, if any: a new signal (not already
    /// there on the previous candle), no cooldown, the other side flat and
    /// room under the pyramid limit; long is tried first.
    pub open spec fn entry_side(&self, input: &ScalpingInput<P, B>) -> Option<TradeKind> {
        match input.signals {
            None => None,
            Some(sig) => {
                let new_long = sig.long_signal && !self.prev_long_signal;
                let new_short = sig.short_signal && !self.prev_short_signal;
                let no_cooldown = !self.cooling(input);
                let longs = self.longs_after_exits(input);
                let shorts = self.shorts_after_exits(input);
                let room_for_long = shorts.len() == 0 && longs.len() < self.max_pyramid;
                let room_for_short = longs.len() == 0 && shorts.len() < self.max_pyramid;
                if new_long && no_cooldown && room_for_long {
                    Some(TradeKind::Long)
                } else if new_short && no_cooldown && room_for_short {
                    Some(TradeKind::Short)
                } else {
                    None
                }
            },
        }
    }

    /// The input describes the open positions, and a new trade id fits.
    pub open spec fn act_in_range(&self, input: &ScalpingInput<P, B>) -> bool {
        &&& input.long_exits.len() == self.long_positions.len()
        &&& input.short_exits.len() == self.short_positions.len()
        &&& (self.is_new(input.close_time) && self.entry_side(input) is Some) ==> self.trade_counter
            < i64::MAX
    }

    /// The agent with the default pyramid limit (3) and cooldown (10 candles).
    pub fn new() -> (agent: Self)
        ensures
            agent.max_pyramid == 3,
            agent.cooldown_bars == 10,
            agent.long_positions@ == Seq::<Position<P>>::empty(),
            agent.short_positions@ == Seq::<Position<P>>::empty(),
            agent.prev_basis == None::<B>,
            !agent.prev_long_signal,
            !agent.prev_short_signal,
            agent.cooldown_remaining == 0,
            agent.trade_counter == 0,
            agent.last_processed_ts == None::<i64>,
            agent.wf(),
    {
        ScalpingAgent {
            max_pyramid: 3,
            cooldown_bars: 10,
            long_positions: Vec::new(),
            short_positions: Vec::new(),
            prev_basis: None,
            prev_long_signal: false,
            prev_short_signal: false,
            cooldown_remaining: 0,
            trade_counter: 0,
            last_processed_ts: None,
        }
    }

    pub fn with_max_pyramid(self, max_pyramid: u8) -> (agent: Self)
        ensures
            agent == (ScalpingAgent { max_pyramid, ..self }),
            self.wf() ==> agent.wf(),
    {
        ScalpingAgent { max_pyramid, ..self }
    }

    pub fn with_cooldown_bars(self, cooldown_bars: u32) -> (agent: Self)
        ensures
            agent == (ScalpingAgent { cooldown_bars, ..self }),
            self.wf() ==> agent.wf(),
    {
        ScalpingAgent { cooldown_bars, ..self }
    }

    /// Starts a new episode: no positions, no memory of earlier candles.
    pub fn reset(&mut self)
        ensures
            final(self).max_pyramid == old(self).max_pyramid,
            final(self).cooldown_bars == old(self).cooldown_bars,
            final(self).long_positions@ == Seq::<Position<P>>::empty(),
            final(self).short_positions@ == Seq::<Position<P>>::empty(),
            final(self).prev_basis == None::<B>,
            !final(self).prev_long_signal,
            !final(self).prev_short_signal,
            final(self).cooldown_remaining == 0,
            final(self).trade_counter == 0,
            final(self).last_processed_ts == None::<i64>,
            final(self).wf(),
    {
        self.long_positions.clear();
        self.short_positions.clear();
        self.prev_basis = None;
        self.prev_long_signal = false;
        self.prev_short_signal = false;
        self.cooldown_remaining = 0;
        self.trade_counter = 0;
        self.last_processed_ts = None;
    }

    /// Whether a candle closing at `close_time` is one not yet processed.
    pub fn is_new_candle(&self, close_time: i64) -> (new: bool)
        ensures
            new == self.is_new(close_time),
    {
        match self.last_processed_ts {
            Some(t) => t != close_time,
            None => true,
        }
    }

    /// Whether `act` may be called with this input (see `act_in_range`).
    pub fn can_act(&self, input: &ScalpingInput<P, B>) -> (ok: bool)
        ensures
            ok == self.act_in_range(input),
    {
        if input.long_exits.len() != self.long_positions.len() || input.short_exits.len()
            != self.short_positions.len() {
            return false;
        }
        if !self.is_new_candle(input.close_time) {
            return true;
        }
        let long = check_exits(&self.long_positions, &input.long_exits);
        let short = check_exits(&self.short_positions, &input.short_exits);
        let blocked = self.is_cooling(long.cooldown_hit || short.cooldown_hit);
        match &input.signals {
            None => true,
            Some(sig) => {
                let side = self.choose_side(
                    sig,
                    blocked,
                    long.positions.len(),
                    short.positions.len(),
                );
                side.is_none() || self.trade_counter < i64::MAX
            },
        }
    }

    fn cooldown_left(&self, hit: bool) -> (left: u32)
        ensures
            left == (if hit {
                self.cooldown_bars
            } else if self.cooldown_remaining > 0 {
                (self.cooldown_remaining - 1) as u32
            } else {
                0
            }),
    {
        if hit {
            self.cooldown_bars
        } else if self.cooldown_remaining > 0 {
            self.cooldown_remaining - 1
        } else {
            0
        }
    }

    fn is_cooling(&self, hit: bool) -> (blocked: bool)
        ensures
            blocked == ((hit && self.cooldown_bars > 0) || self.cooldown_remaining > 0),
    {
        (hit && self.cooldown_bars > 0) || self.cooldown_remaining > 0
    }

    fn choose_side(&self, sig: &CandleSignals<P, B>, blocked: bool, longs: usize, shorts: usize) -> (side:
        Option<TradeKind>)
        ensures
            side == ({
                let new_long = sig.long_signal && !self.prev_long_signal;
                let new_short = sig.short_signal && !self.prev_short_signal;
                let room_for_long = shorts == 0 && longs < self.max_pyramid;
                let room_for_short = longs == 0 && shorts < self.max_pyramid;
                if new_long && !blocked && room_for_long {
                    Some(TradeKind::Long)
                } else if new_short && !blocked && room_for_short {
                    Some(TradeKind::Short)
                } else {
                    None
                }
            }),
    {
        let new_long = sig.long_signal && !self.prev_long_signal;
        let new_short = sig.short_signal && !self.prev_short_signal;
        let room_for_long = shorts == 0 && longs < self.max_pyramid as usize;
        let room_for_short = longs == 0 && shorts < self.max_pyramid as usize;
        if new_long && !blocked && room_for_long {
            Some(TradeKind::Long)
        } else if new_short && !blocked && room_for_short {
            Some(TradeKind::Short)
        } else {
            None
        }
    }

    /// One step of `act`: `after` and `actions` are what the step makes of
    /// this state and `input`. Exits come first, then the cooldown, then at
    /// most one entry; a candle already processed changes nothing.
    pub open spec fn steps_to(&self, input: &ScalpingInput<P, B>, after: &Self, actions: &ScalpingActions) -> bool {
        &&& after.max_pyramid == self.max_pyramid
        &&& after.cooldown_bars == self.cooldown_bars
        &&& (!self.is_new(input.close_time) ==> {
            &&& after.long_positions@ == self.long_positions@
            &&& after.short_positions@ == self.short_positions@
            &&& after.prev_basis == self.prev_basis
            &&& after.prev_long_signal == self.prev_long_signal
            &&& after.prev_short_signal == self.prev_short_signal
            &&& after.cooldown_remaining == self.cooldown_remaining
            &&& after.trade_counter == self.trade_counter
            &&& after.last_processed_ts == self.last_processed_ts
            &&& actions.closes@ == Seq::<i64>::empty()
            &&& actions.open == None::<OpenOrder>
        })
        &&& (self.is_new(input.close_time) ==> {
            let longs = self.longs_after_exits(input);
            let shorts = self.shorts_after_exits(input);
            let side = self.entry_side(input);
            let id = self.trade_counter + 1;
            &&& after.last_processed_ts == Some(input.close_time)
            &&& actions.closes@ == closed_ids(self.short_positions@, input.short_exits@)
                + closed_ids(self.long_positions@, input.long_exits@)
            &&& after.cooldown_remaining == self.cooldown_after(input)
            &&& match side {
                Some(kind) => {
                    &&& actions.open == Some(OpenOrder { trade_id: id as i64, trade_kind: kind })
                    &&& after.trade_counter == id
                },
                None => {
                    &&& actions.open == None::<OpenOrder>
                    &&& after.trade_counter == self.trade_counter
                },
            }
            &&& after.long_positions@ == (if side == Some(TradeKind::Long) {
                longs.push(
                    Position { trade_id: id as i64, levels: input.signals->0.long_levels },
                )
            } else {
                longs
            })
            &&& after.short_positions@ == (if side == Some(TradeKind::Short) {
                shorts.push(
                    Position { trade_id: id as i64, levels: input.signals->0.short_levels },
                )
            } else {
                shorts
            })
            &&& match input.signals {
                Some(sig) => {
                    &&& after.prev_basis == Some(sig.basis)
                    &&& after.prev_long_signal == sig.long_signal
                    &&& after.prev_short_signal == sig.short_signal
                },
                None => {
                    &&& after.prev_basis == self.prev_basis
                    &&& !after.prev_long_signal
                    &&& !after.prev_short_signal
                },
            }
        })
    }

    /// One new closed candle: exits first, then cooldown, then at most one
    /// entry. A candle already processed changes nothing.
    pub fn act(&mut self, input: ScalpingInput<P, B>) -> (actions: ScalpingActions)
        requires
            old(self).act_in_range(&input),
        ensures
            old(self).steps_to(&input, final(self), &actions),
            old(self).wf() ==> final(self).wf(),
    {
        if !self.is_new_candle(input.close_time) {
            return ScalpingActions { closes: Vec::new(), open: None };
        }
        self.last_processed_ts = Some(input.close_time);

        let long = check_exits(&self.long_positions, &input.long_exits);
        let short = check_exits(&self.short_positions, &input.short_exits);
        self.long_positions = long.positions;
        self.short_positions = short.positions;
        let mut closes = short.closed;
        let mut long_closed = long.closed;
        closes.append(&mut long_closed);

        let hit = long.cooldown_hit || short.cooldown_hit;
        let blocked = self.is_cooling(hit);
        self.cooldown_remaining = self.cooldown_left(hit);

        let mut open: Option<OpenOrder> = None;
        match input.signals {
            Some(sig) => {
                let side = self.choose_side(
                    &sig,
                    blocked,
                    self.long_positions.len(),
                    self.short_positions.len(),
                );
                match side {
                    Some(TradeKind::Long) => {
                        self.trade_counter = self.trade_counter + 1;
                        self.long_positions.push(
                            Position { trade_id: self.trade_counter, levels: sig.long_levels },
                        );
                        open = Some(
                            OpenOrder { trade_id: self.trade_counter, trade_kind: TradeKind::Long },
                        );
                    },
                    Some(TradeKind::Short) => {
                        self.trade_counter = self.trade_counter + 1;
                        self.short_positions.push(
                            Position { trade_id: self.trade_counter, levels: sig.short_levels },
                        );
                        open = Some(
                            OpenOrder { trade_id: self.trade_counter, trade_kind: TradeKind::Short },
                        );
                    },
                    None => {},
                }
                self.prev_long_signal = sig.long_signal;
                self.prev_short_signal = sig.short_signal;
                self.prev_basis = Some(sig.basis);
            },
            None => {
                self.prev_long_signal = false;
                self.prev_short_signal = false;
            },
        }
        let actions = ScalpingActions { closes, open };
        proof {
            if old(self).wf() {
                lemma_step_keeps_wf(*old(self), input, *self, actions);
            }
        }
        actions
    }
}

// ------------------------------------------------------------------------------------------------
// Laws
// ------------------------------------------------------------------------------------------------

/// Law: checking exits never adds positions, and nothing survives on a flat side.
pub proof fn lemma_survivors_shrink<P>(ps: Seq<Position<P>>, fs: Seq<ExitFlags>)
    ensures
        survivors(ps, fs).len() <= ps.len(),
        ps.len() == 0 ==> survivors(ps, fs).len() == 0,
{
    lemma_exits_partition(ps, fs);
}

/// Law: the agent never holds long and short positions at the same time:
/// a step that starts with at most one side open ends that way too.
pub proof fn lemma_one_side_at_a_time<P: Copy, B: Copy>(agent: ScalpingAgent<P, B>, input: ScalpingInput<P, B>)
    requires
        agent.long_positions@.len() == 0 || agent.short_positions@.len() == 0,
    ensures
        agent.entry_side(&input) == Some(TradeKind::Long) ==> agent.shorts_after_exits(&input).len() == 0,
        agent.entry_side(&input) == Some(TradeKind::Short) ==> agent.longs_after_exits(&input).len() == 0,
        agent.longs_after_exits(&input).len() == 0 || agent.shorts_after_exits(&input).len() == 0,
{
    lemma_survivors_shrink(agent.long_positions@, input.long_exits@);
    lemma_survivors_shrink(agent.short_positions@, input.short_exits@);
}

/// Law: no side ever holds more than `max_pyramid` positions.
pub proof fn lemma_pyramid_limit<P: Copy, B: Copy>(agent: ScalpingAgent<P, B>, input: ScalpingInput<P, B>)
    requires
        agent.long_positions@.len() <= agent.max_pyramid,
        agent.short_positions@.len() <= agent.max_pyramid,
    ensures
        agent.longs_after_exits(&input).len() + (if agent.entry_side(&input) == Some(
            TradeKind::Long,
        ) {
            1int
        } else {
            0
        }) <= agent.max_pyramid,
        agent.shorts_after_exits(&input).len() + (if agent.entry_side(&input) == Some(
            TradeKind::Short,
        ) {
            1int
        } else {
            0
        }) <= agent.max_pyramid,
{
    lemma_survivors_shrink(agent.long_positions@, input.long_exits@);
    lemma_survivors_shrink(agent.short_positions@, input.short_exits@);
}

/// Law (cooldown): a losing exit blocks entries on its own candle and on
/// each of the next `cooldown_bars` candles: it sets the count of blocked
/// candles ahead to `cooldown_bars`, and every later candle with a count
/// left is blocked and uses one up (unless another losing exit re-arms it).
pub proof fn lemma_cooldown_blocks_entries<P: Copy, B: Copy>(agent: ScalpingAgent<P, B>, input: ScalpingInput<P, B>)
    ensures
        agent.cooling(&input) ==> agent.entry_side(&input) is None,
        agent.loss_exit(&input) ==> agent.cooldown_after(&input) == agent.cooldown_bars,
        (agent.loss_exit(&input) && agent.cooldown_bars > 0) ==> agent.cooling(&input),
        agent.cooldown_remaining > 0 ==> agent.cooling(&input),
        (!agent.loss_exit(&input) && agent.cooldown_remaining > 0) ==> agent.cooldown_after(&input)
            == agent.cooldown_remaining - 1,
        (!agent.loss_exit(&input) && agent.cooldown_remaining == 0) ==> !agent.cooling(&input)
            && agent.cooldown_after(&input) == 0,
{
}

/// Law (losing exits, either side): on a new candle on which any open long
/// or short position closes with a loss (its stop is hit, or it exits at a
/// middle line on the losing side of its entry), the cooldown is set to
/// `cooldown_bars` candles, and, unless that is zero, nothing opens.
pub proof fn lemma_losing_exit_arms_cooldown<P: Copy, B: Copy>(
    before: ScalpingAgent<P, B>,
    input: ScalpingInput<P, B>,
    after: ScalpingAgent<P, B>,
    actions: ScalpingActions,
)
    requires
        before.steps_to(&input, &after, &actions),
        before.act_in_range(&input),
        before.last_processed_ts != Some(input.close_time),
        (exists|i: int|
            0 <= i < before.long_positions@.len() && (#[trigger] input.long_exits@[i].stop_hit || (
            input.long_exits@[i].midline_hit && input.long_exits@[i].midline_is_loss)))
            || (exists|i: int|
            0 <= i < before.short_positions@.len() && (#[trigger] input.short_exits@[i].stop_hit || (
            input.short_exits@[i].midline_hit && input.short_exits@[i].midline_is_loss))),
    ensures
        after.cooldown_remaining == before.cooldown_bars,
        before.cooldown_bars > 0 ==> actions.open is None,
        before.cooldown_bars > 0 ==> after.trade_counter == before.trade_counter,
{
    assert(exists|i: int|
            0 <= i < before.long_positions@.len() && (#[trigger] input.long_exits@[i].stop_hit || (
            input.long_exits@[i].midline_hit && input.long_exits@[i].midline_is_loss)) || exists|i: int|
            0 <= i < before.short_positions@.len() && (#[trigger] input.short_exits@[i].stop_hit || (
            input.short_exits@[i].midline_hit && input.short_exits@[i].midline_is_loss)));
    assert(before.loss_exit(&input)) by {
        if !before.loss_exit(&input) {
            assert forall|i: int| 0 <= i < before.long_positions@.len() implies !(
            #[trigger] input.long_exits@[i].stop_hit || (input.long_exits@[i].midline_hit
                && input.long_exits@[i].midline_is_loss)) by {
                assert(!is_loss_exit(input.long_exits@[i]));
            }
            assert forall|i: int| 0 <= i < before.short_positions@.len() implies !(
            #[trigger] input.short_exits@[i].stop_hit || (input.short_exits@[i].midline_hit
                && input.short_exits@[i].midline_is_loss)) by {
                assert(!is_loss_exit(input.short_exits@[i]));
            }
        }
    }
    lemma_cooldown_blocks_entries(before, input);
}

/// Law (cooldown count): on a new candle with no losing exit on either
/// side, a running cooldown blocks entries and uses up one candle, and
/// with none running the cooldown stays at zero.
pub proof fn lemma_cooldown_counts_down<P: Copy, B: Copy>(
    before: ScalpingAgent<P, B>,
    input: ScalpingInput<P, B>,
    after: ScalpingAgent<P, B>,
    actions: ScalpingActions,
)
    requires
        before.steps_to(&input, &after, &actions),
        before.act_in_range(&input),
        before.last_processed_ts != Some(input.close_time),
        forall|i: int|
            0 <= i < before.long_positions@.len() ==> !(#[trigger] input.long_exits@[i].stop_hit || (
            input.long_exits@[i].midline_hit && input.long_exits@[i].midline_is_loss)),
        forall|i: int|
            0 <= i < before.short_positions@.len() ==> !(#[trigger] input.short_exits@[i].stop_hit || (
            input.short_exits@[i].midline_hit && input.short_exits@[i].midline_is_loss)),
    ensures
        before.cooldown_remaining > 0 ==> actions.open is None && after.cooldown_remaining
            == before.cooldown_remaining - 1,
        before.cooldown_remaining == 0 ==> after.cooldown_remaining == 0,
{
    assert(!before.loss_exit(&input)) by {
        if any_loss(input.long_exits@, before.long_positions@.len() as int) {
            let i = choose|i: int|
                0 <= i < before.long_positions@.len() && #[trigger] is_loss_exit(input.long_exits@[i]);
            assert(!(input.long_exits@[i].stop_hit || (input.long_exits@[i].midline_hit
                && input.long_exits@[i].midline_is_loss)));
        }
        if any_loss(input.short_exits@, before.short_positions@.len() as int) {
            let i = choose|i: int|
                0 <= i < before.short_positions@.len() && #[trigger] is_loss_exit(input.short_exits@[i]);
            assert(!(input.short_exits@[i].stop_hit || (input.short_exits@[i].midline_hit
                && input.short_exits@[i].midline_is_loss)));
        }
    }
    lemma_cooldown_blocks_entries(before, input);
}

proof fn lemma_all_exit_leaves_none<P>(ps: Seq<Position<P>>, fs: Seq<ExitFlags>)
    requires
        forall|i: int|
            0 <= i < ps.len() ==> #[trigger] fs[i].stop_hit || fs[i].midline_hit
                || fs[i].take_profit_hit,
    ensures
        survivors(ps, fs).len() == 0,
    decreases ps.len(),
{
    if ps.len() > 0 {
        lemma_all_exit_leaves_none(ps.drop_last(), fs);
        assert(fs[ps.len() - 1].stop_hit || fs[ps.len() - 1].midline_hit || fs[ps.len() - 1].take_profit_hit);
    }
}

/// Law (room is judged after the exits): on a new candle with no cooldown
/// running and no losing exit, a fresh long signal opens a long with the
/// next trade id when every short position exits on this candle and fewer
/// than `max_pyramid` longs stay open; a fresh short signal (with no fresh
/// long) opens a short likewise when every long position exits and fewer
/// than `max_pyramid` shorts stay open.
pub proof fn lemma_entry_room_after_exits<P: Copy, B: Copy>(
    before: ScalpingAgent<P, B>,
    input: ScalpingInput<P, B>,
    after: ScalpingAgent<P, B>,
    actions: ScalpingActions,
)
    requires
        before.steps_to(&input, &after, &actions),
        before.act_in_range(&input),
        before.last_processed_ts != Some(input.close_time),
        before.cooldown_remaining == 0,
        forall|i: int|
            0 <= i < before.long_positions@.len() ==> !(#[trigger] input.long_exits@[i].stop_hit || (
            input.long_exits@[i].midline_hit && input.long_exits@[i].midline_is_loss)),
        forall|i: int|
            0 <= i < before.short_positions@.len() ==> !(#[trigger] input.short_exits@[i].stop_hit || (
            input.short_exits@[i].midline_hit && input.short_exits@[i].midline_is_loss)),
        input.signals is Some,
    ensures
        ({
            let sig = input.signals->0;
            let fresh_long = sig.long_signal && !before.prev_long_signal;
            let fresh_short = sig.short_signal && !before.prev_short_signal;
            let shorts_all_exit = forall|i: int|
                0 <= i < before.short_positions@.len() ==> #[trigger] input.short_exits@[i].stop_hit
                    || input.short_exits@[i].midline_hit || input.short_exits@[i].take_profit_hit;
            let longs_all_exit = forall|i: int|
                0 <= i < before.long_positions@.len() ==> #[trigger] input.long_exits@[i].stop_hit
                    || input.long_exits@[i].midline_hit || input.long_exits@[i].take_profit_hit;
            &&& (fresh_long && shorts_all_exit && survivors(before.long_positions@, input.long_exits@).len()
                < before.max_pyramid) ==> {
                &&& actions.open == Some(
                    OpenOrder { trade_id: (before.trade_counter + 1) as i64, trade_kind: TradeKind::Long },
                )
                &&& after.trade_counter == before.trade_counter + 1
                &&& after.long_positions@.len() > 0
                &&& after.long_positions@.last() == (Position {
                    trade_id: (before.trade_counter + 1) as i64,
                    levels: sig.long_levels,
                })
            }
            &&& (fresh_short && !fresh_long && longs_all_exit && survivors(
                before.short_positions@,
                input.short_exits@,
            ).len() < before.max_pyramid) ==> {
                &&& actions.open == Some(
                    OpenOrder { trade_id: (before.trade_counter + 1) as i64, trade_kind: TradeKind::Short },
                )
                &&& after.trade_counter == before.trade_counter + 1
                &&& after.short_positions@.len() > 0
                &&& after.short_positions@.last() == (Position {
                    trade_id: (before.trade_counter + 1) as i64,
                    levels: sig.short_levels,
                })
            }
        }),
{
    lemma_cooldown_counts_down(before, input, after, actions);
    assert(!before.loss_exit(&input)) by {
        if any_loss(input.long_exits@, before.long_positions@.len() as int) {
            let i = choose|i: int|
                0 <= i < before.long_positions@.len() && #[trigger] is_loss_exit(input.long_exits@[i]);
            assert(!(input.long_exits@[i].stop_hit || (input.long_exits@[i].midline_hit
                && input.long_exits@[i].midline_is_loss)));
        }
        if any_loss(input.short_exits@, before.short_positions@.len() as int) {
            let i = choose|i: int|
                0 <= i < before.short_positions@.len() && #[trigger] is_loss_exit(input.short_exits@[i]);
            assert(!(input.short_exits@[i].stop_hit || (input.short_exits@[i].midline_hit
                && input.short_exits@[i].midline_is_loss)));
        }
    }
    let sig = input.signals->0;
    if forall|i: int|
        0 <= i < before.short_positions@.len() ==> #[trigger] input.short_exits@[i].stop_hit
            || input.short_exits@[i].midline_hit || input.short_exits@[i].take_profit_hit {
        lemma_all_exit_leaves_none(before.short_positions@, input.short_exits@);
    }
    if forall|i: int|
        0 <= i < before.long_positions@.len() ==> #[trigger] input.long_exits@[i].stop_hit
            || input.long_exits@[i].midline_hit || input.long_exits@[i].take_profit_hit {
        lemma_all_exit_leaves_none(before.long_positions@, input.long_exits@);
    }
}

proof fn lemma_exit_membership<P>(ps: Seq<Position<P>>, fs: Seq<ExitFlags>)
    ensures
        forall|i: int|
            0 <= i < ps.len() && exit_reason(fs[i]) is Some ==> closed_ids(ps, fs).contains(
                #[trigger] ps[i].trade_id,
            ),
        forall|i: int|
            0 <= i < ps.len() && exit_reason(fs[i]) is None ==> survivors(ps, fs).contains(
                #[trigger] ps[i],
            ),
        forall|k: int|
            0 <= k < closed_ids(ps, fs).len() ==> exists|j: int|
                0 <= j < ps.len() && exit_reason(fs[j]) is Some && #[trigger] closed_ids(ps, fs)[k]
                    == ps[j].trade_id,
        forall|k: int|
            0 <= k < survivors(ps, fs).len() ==> exists|j: int|
                0 <= j < ps.len() && exit_reason(fs[j]) is None && #[trigger] survivors(ps, fs)[k]
                    == ps[j],
    decreases ps.len(),
{
    if ps.len() > 0 {
        let d = ps.drop_last();
        let n = ps.len() - 1;
        lemma_exit_membership(d, fs);
        let cd = closed_ids(d, fs);
        let sd = survivors(d, fs);
        let c = closed_ids(ps, fs);
        let sv = survivors(ps, fs);
        assert forall|i: int|
            0 <= i < ps.len() && exit_reason(fs[i]) is Some implies c.contains(#[trigger] ps[i].trade_id) by {
            if i < n {
                assert(d[i] == ps[i]);
                assert(cd.contains(d[i].trade_id));
                let k = choose|k: int| 0 <= k < cd.len() && cd[k] == d[i].trade_id;
                assert(c[k] == cd[k]);
            } else {
                assert(c[c.len() - 1] == ps[i].trade_id);
            }
        }
        assert forall|i: int|
            0 <= i < ps.len() && exit_reason(fs[i]) is None implies sv.contains(#[trigger] ps[i]) by {
            if i < n {
                assert(d[i] == ps[i]);
                assert(sd.contains(d[i]));
                let k = choose|k: int| 0 <= k < sd.len() && sd[k] == d[i];
                assert(sv[k] == sd[k]);
            } else {
                assert(sv[sv.len() - 1] == ps[i]);
            }
        }
        assert forall|k: int| 0 <= k < c.len() implies exists|j: int|
            0 <= j < ps.len() && exit_reason(fs[j]) is Some && #[trigger] c[k] == ps[j].trade_id by {
            if k < cd.len() {
                assert(c[k] == cd[k]);
                let j = choose|j: int|
                    0 <= j < d.len() && exit_reason(fs[j]) is Some && #[trigger] cd[k] == d[j].trade_id;
                assert(d[j] == ps[j]);
                assert(0 <= j < ps.len() && exit_reason(fs[j]) is Some && c[k] == ps[j].trade_id);
            } else {
                assert(exit_reason(fs[n]) is Some);
                assert(c[k] == ps[n].trade_id);
                assert(0 <= n < ps.len() && exit_reason(fs[n]) is Some && c[k] == ps[n].trade_id);
            }
        }
        assert forall|k: int| 0 <= k < sv.len() implies exists|j: int|
            0 <= j < ps.len() && exit_reason(fs[j]) is None && #[trigger] sv[k] == ps[j] by {
            if k < sd.len() {
                assert(sv[k] == sd[k]);
                let j = choose|j: int|
                    0 <= j < d.len() && exit_reason(fs[j]) is None && #[trigger] sd[k] == d[j];
                assert(d[j] == ps[j]);
            } else {
                assert(sv[k] == ps[n]);
            }
        }
    }
}

/// Law (exits): on a new candle, every open position whose stop loss,
/// middle line or take profit is reached is closed at market and leaves
/// the book, and every other open position stays in the book and is not
/// closed.
pub proof fn lemma_exits_close_exactly_the_flagged<P: Copy, B: Copy>(
    before: ScalpingAgent<P, B>,
    input: ScalpingInput<P, B>,
    after: ScalpingAgent<P, B>,
    actions: ScalpingActions,
)
    requires
        before.steps_to(&input, &after, &actions),
        before.act_in_range(&input),
        before.wf(),
        before.last_processed_ts != Some(input.close_time),
    ensures
        forall|i: int|
            0 <= i < before.long_positions@.len() ==> {
                let f = #[trigger] input.long_exits@[i];
                let p = before.long_positions@[i];
                &&& (f.stop_hit || f.midline_hit || f.take_profit_hit) ==> actions.closes@.contains(
                    p.trade_id,
                ) && forall|k: int|
                    0 <= k < after.long_positions@.len() ==> after.long_positions@[k].trade_id
                        != p.trade_id
                &&& !(f.stop_hit || f.midline_hit || f.take_profit_hit) ==> after.long_positions@.contains(p)
                    && !actions.closes@.contains(p.trade_id)
            },
        forall|i: int|
            0 <= i < before.short_positions@.len() ==> {
                let f = #[trigger] input.short_exits@[i];
                let p = before.short_positions@[i];
                &&& (f.stop_hit || f.midline_hit || f.take_profit_hit) ==> actions.closes@.contains(
                    p.trade_id,
                ) && forall|k: int|
                    0 <= k < after.short_positions@.len() ==> after.short_positions@[k].trade_id
                        != p.trade_id
                &&& !(f.stop_hit || f.midline_hit || f.take_profit_hit) ==> after.short_positions@.contains(p)
                    && !actions.closes@.contains(p.trade_id)
            },
{
    let lp = before.long_positions@;
    let sp = before.short_positions@;
    let lf = input.long_exits@;
    let sf = input.short_exits@;
    lemma_exit_membership(lp, lf);
    lemma_exit_membership(sp, sf);
    let cs = closed_ids(sp, sf);
    let cl = closed_ids(lp, lf);
    let closes = actions.closes@;
    assert(closes == cs + cl);
    let ls = survivors(lp, lf);
    let ss = survivors(sp, sf);
    let c = before.trade_counter as int;
    assert forall|i: int| 0 <= i < lp.len() implies {
        let f = #[trigger] lf[i];
        let p = lp[i];
        &&& (f.stop_hit || f.midline_hit || f.take_profit_hit) ==> closes.contains(p.trade_id)
            && forall|k: int|
            0 <= k < after.long_positions@.len() ==> after.long_positions@[k].trade_id != p.trade_id
        &&& !(f.stop_hit || f.midline_hit || f.take_profit_hit) ==> after.long_positions@.contains(p)
            && !closes.contains(p.trade_id)
    } by {
        let p = lp[i];
        assert(1 <= lp[i].trade_id <= c);
        if exit_reason(lf[i]) is Some {
            assert(cl.contains(p.trade_id));
            let k = choose|k: int| 0 <= k < cl.len() && cl[k] == p.trade_id;
            assert(closes[cs.len() + k] == cl[k]);
            assert forall|k: int| 0 <= k < after.long_positions@.len() implies after.long_positions@[k].trade_id
                != p.trade_id by {
                if k < ls.len() {
                    assert(after.long_positions@[k] == ls[k]);
                    let j = choose|j: int| 0 <= j < lp.len() && exit_reason(lf[j]) is None && #[trigger] ls[k] == lp[j];
                    assert(j != i);
                    if j < i {
                        assert(lp[j].trade_id < lp[i].trade_id);
                    } else {
                        assert(lp[i].trade_id < lp[j].trade_id);
                    }
                } else {
                    assert(after.long_positions@[k].trade_id == c + 1);
                }
            }
        } else {
            assert(ls.contains(p));
            let k = choose|k: int| 0 <= k < ls.len() && ls[k] == p;
            assert(after.long_positions@[k] == ls[k]);
            if closes.contains(p.trade_id) {
                let m = choose|m: int| 0 <= m < closes.len() && closes[m] == p.trade_id;
                if m < cs.len() {
                    assert(closes[m] == cs[m]);
                    let j = choose|j: int| 0 <= j < sp.len() && exit_reason(sf[j]) is Some && #[trigger] cs[m] == sp[j].trade_id;
                    assert(lp[i].trade_id != sp[j].trade_id);
                } else {
                    let m2 = m - cs.len();
                    assert(closes[m] == cl[m2]);
                    let j = choose|j: int| 0 <= j < lp.len() && exit_reason(lf[j]) is Some && #[trigger] cl[m2] == lp[j].trade_id;
                    assert(j != i);
                    if j < i {
                        assert(lp[j].trade_id < lp[i].trade_id);
                    } else {
                        assert(lp[i].trade_id < lp[j].trade_id);
                    }
                }
            }
        }
    }
    assert forall|i: int| 0 <= i < sp.len() implies {
        let f = #[trigger] sf[i];
        let p = sp[i];
        &&& (f.stop_hit || f.midline_hit || f.take_profit_hit) ==> closes.contains(p.trade_id)
            && forall|k: int|
            0 <= k < after.short_positions@.len() ==> after.short_positions@[k].trade_id != p.trade_id
        &&& !(f.stop_hit || f.midline_hit || f.take_profit_hit) ==> after.short_positions@.contains(p)
            && !closes.contains(p.trade_id)
    } by {
        let p = sp[i];
        assert(1 <= sp[i].trade_id <= c);
        if exit_reason(sf[i]) is Some {
            assert(cs.contains(p.trade_id));
            let k = choose|k: int| 0 <= k < cs.len() && cs[k] == p.trade_id;
            assert(closes[k] == cs[k]);
            assert forall|k: int| 0 <= k < after.short_positions@.len() implies after.short_positions@[k].trade_id
                != p.trade_id by {
                if k < ss.len() {
                    assert(after.short_positions@[k] == ss[k]);
                    let j = choose|j: int| 0 <= j < sp.len() && exit_reason(sf[j]) is None && #[trigger] ss[k] == sp[j];
                    assert(j != i);
                    if j < i {
                        assert(sp[j].trade_id < sp[i].trade_id);
                    } else {
                        assert(sp[i].trade_id < sp[j].trade_id);
                    }
                } else {
                    assert(after.short_positions@[k].trade_id == c + 1);
                }
            }
        } else {
            assert(ss.contains(p));
            let k = choose|k: int| 0 <= k < ss.len() && ss[k] == p;
            assert(after.short_positions@[k] == ss[k]);
            if closes.contains(p.trade_id) {
                let m = choose|m: int| 0 <= m < closes.len() && closes[m] == p.trade_id;
                if m < cs.len() {
                    assert(closes[m] == cs[m]);
                    let j = choose|j: int| 0 <= j < sp.len() && exit_reason(sf[j]) is Some && #[trigger] cs[m] == sp[j].trade_id;
                    assert(j != i);
                    if j < i {
                        assert(sp[j].trade_id < sp[i].trade_id);
                    } else {
                        assert(sp[i].trade_id < sp[j].trade_id);
                    }
                } else {
                    let m2 = m - cs.len();
                    assert(closes[m] == cl[m2]);
                    let j = choose|j: int| 0 <= j < lp.len() && exit_reason(lf[j]) is Some && #[trigger] cl[m2] == lp[j].trade_id;
                    assert(lp[j].trade_id != sp[i].trade_id);
                }
            }
        }
    }
}

/// Law (signal memory): after a new candle the agent remembers that
/// candle's signals, so that only a signal absent on it counts as new on
/// the next one; while the indicators have no value it remembers none,
/// and the middle line is the last VWAP basis seen.
pub proof fn lemma_remembers_last_signals<P: Copy, B: Copy>(
    before: ScalpingAgent<P, B>,
    input: ScalpingInput<P, B>,
    after: ScalpingAgent<P, B>,
    actions: ScalpingActions,
)
    requires
        before.steps_to(&input, &after, &actions),
        before.last_processed_ts != Some(input.close_time),
    ensures
        after.last_processed_ts == Some(input.close_time),
        after.prev_long_signal == (input.signals matches Some(s) && s.long_signal),
        after.prev_short_signal == (input.signals matches Some(s) && s.short_signal),
        after.prev_basis == (match input.signals {
            Some(s) => Some(s.basis),
            None => before.prev_basis,
        }),
{
}

/// Law: a signal that was already there on the previous candle opens
/// nothing; only a fresh signal can.
pub proof fn lemma_only_new_signals_enter<P: Copy, B: Copy>(agent: ScalpingAgent<P, B>, input: ScalpingInput<P, B>)
    requires
        input.signals is Some,
    ensures
        agent.entry_side(&input) == Some(TradeKind::Long) ==> input.signals->0.long_signal
            && !agent.prev_long_signal,
        agent.entry_side(&input) == Some(TradeKind::Short) ==> input.signals->0.short_signal
            && !agent.prev_short_signal,
{
}

/// Law: a candle seen already (the second of two calls with the same
/// candle) changes nothing and orders nothing.
pub proof fn lemma_repeated_candle_changes_nothing<P: Copy, B: Copy>(
    before: ScalpingAgent<P, B>,
    input: ScalpingInput<P, B>,
    after: ScalpingAgent<P, B>,
    actions: ScalpingActions,
)
    requires
        before.steps_to(&input, &after, &actions),
        before.last_processed_ts == Some(input.close_time),
    ensures
        after.long_positions@ == before.long_positions@,
        after.short_positions@ == before.short_positions@,
        after.prev_basis == before.prev_basis,
        after.prev_long_signal == before.prev_long_signal,
        after.prev_short_signal == before.prev_short_signal,
        after.cooldown_remaining == before.cooldown_remaining,
        after.trade_counter == before.trade_counter,
        after.last_processed_ts == before.last_processed_ts,
        after.max_pyramid == before.max_pyramid,
        after.cooldown_bars == before.cooldown_bars,
        actions.closes@.len() == 0,
        actions.open is None,
{
}

/// The shape of the book: one side flat, and no side over the pyramid limit.
pub open spec fn book_ok<P, B>(a: ScalpingAgent<P, B>) -> bool {
    &&& (a.long_positions@.len() == 0 || a.short_positions@.len() == 0)
    &&& a.long_positions@.len() <= a.max_pyramid
    &&& a.short_positions@.len() <= a.max_pyramid
}

/// Law: every step keeps the book's shape (never long and short at once,
/// never more than `max_pyramid` positions on a side).
pub proof fn lemma_step_keeps_book<P: Copy, B: Copy>(
    before: ScalpingAgent<P, B>,
    input: ScalpingInput<P, B>,
    after: ScalpingAgent<P, B>,
    actions: ScalpingActions,
)
    requires
        before.steps_to(&input, &after, &actions),
        book_ok(before),
    ensures
        book_ok(after),
{
    lemma_one_side_at_a_time(before, input);
    lemma_pyramid_limit(before, input);
}

/// Consecutive steps: `agents[i]` steps to `agents[i + 1]` on new candle
/// `inputs[i]`, ordering `actions[i]`.
pub open spec fn new_candle_steps<P: Copy, B: Copy>(
    agents: Seq<ScalpingAgent<P, B>>,
    inputs: Seq<ScalpingInput<P, B>>,
    actions: Seq<ScalpingActions>,
) -> bool {
    &&& agents.len() == inputs.len() + 1
    &&& actions.len() == inputs.len()
    &&& forall|i: int|
        #![trigger actions[i]]
        0 <= i < inputs.len() ==> agents[i].steps_to(&inputs[i], &agents[i + 1], &actions[i])
    &&& forall|i: int| #![trigger inputs[i]] 0 <= i < inputs.len() ==> agents[i].is_new(inputs[i].close_time)
}

proof fn lemma_cooldown_left<P: Copy, B: Copy>(
    agents: Seq<ScalpingAgent<P, B>>,
    inputs: Seq<ScalpingInput<P, B>>,
    actions: Seq<ScalpingActions>,
    i: int,
)
    requires
        new_candle_steps(agents, inputs, actions),
        inputs.len() > 0,
        agents[0].loss_exit(&inputs[0]),
        1 <= i < agents.len(),
    ensures
        agents[i].cooldown_bars == agents[0].cooldown_bars,
        agents[i].cooldown_remaining >= agents[0].cooldown_bars + 1 - i,
    decreases i,
{
    assert(agents[0].steps_to(&inputs[0], &agents[1], &actions[0]));
    assert(agents[0].is_new(inputs[0].close_time));
    if i > 1 {
        lemma_cooldown_left(agents, inputs, actions, i - 1);
        let k = i - 1;
        assert(agents[k].steps_to(&inputs[k], &agents[k + 1], &actions[k]));
        assert(agents[k].is_new(inputs[k].close_time));
    }
}

/// Law (cooldown over candles): after a losing exit on a new candle, none
/// of the next `cooldown_bars` new candles opens a position (another
/// losing exit in between only lengthens the pause).
pub proof fn lemma_cooldown_spans_next_candles<P: Copy, B: Copy>(
    agents: Seq<ScalpingAgent<P, B>>,
    inputs: Seq<ScalpingInput<P, B>>,
    actions: Seq<ScalpingActions>,
)
    requires
        new_candle_steps(agents, inputs, actions),
        inputs.len() > 0,
        agents[0].loss_exit(&inputs[0]),
    ensures
        forall|i: int|
            1 <= i < inputs.len() && i <= agents[0].cooldown_bars ==> (#[trigger] actions[i]).open
                is None,
{
    assert forall|i: int|
        1 <= i < inputs.len() && i <= agents[0].cooldown_bars implies (#[trigger] actions[i]).open
        is None by {
        lemma_cooldown_left(agents, inputs, actions, i);
        assert(agents[i].steps_to(&inputs[i], &agents[i + 1], &actions[i]));
        assert(agents[i].is_new(inputs[i].close_time));
        lemma_cooldown_blocks_entries(agents[i], inputs[i]);
    }
}

/// Law: every step keeps the ids well formed: the positions left open keep
/// theirs, and a new position gets the next id, above all others.
pub proof fn lemma_step_keeps_wf<P: Copy, B: Copy>(
    before: ScalpingAgent<P, B>,
    input: ScalpingInput<P, B>,
    after: ScalpingAgent<P, B>,
    actions: ScalpingActions,
)
    requires
        before.steps_to(&input, &after, &actions),
        before.act_in_range(&input),
        before.wf(),
    ensures
        after.wf(),
{
    if before.is_new(input.close_time) {
        let longs = before.longs_after_exits(&input);
        let shorts = before.shorts_after_exits(&input);
        let c = before.trade_counter as int;
        lemma_survivors_were_open(before.long_positions@, input.long_exits@);
        lemma_survivors_were_open(before.short_positions@, input.short_exits@);
        lemma_survivors_increasing(before.long_positions@, input.long_exits@);
        lemma_survivors_increasing(before.short_positions@, input.short_exits@);
        assert(ids_issued(longs, c)) by {
            assert forall|i: int| 0 <= i < longs.len() implies 1 <= #[trigger] longs[i].trade_id <= c by {
                let k = choose|k: int| 0 <= k < before.long_positions@.len() && #[trigger] longs[i]
                    == before.long_positions@[k];
            }
        }
        assert(ids_issued(shorts, c)) by {
            assert forall|i: int| 0 <= i < shorts.len() implies 1 <= #[trigger] shorts[i].trade_id <= c by {
                let k = choose|k: int| 0 <= k < before.short_positions@.len() && #[trigger] shorts[i]
                    == before.short_positions@[k];
            }
        }
        assert(ids_disjoint(longs, shorts)) by {
            assert forall|i: int, j: int| 0 <= i < longs.len() && 0 <= j < shorts.len() implies #[trigger] longs[i].trade_id
                != #[trigger] shorts[j].trade_id by {
                let k1 = choose|k: int| 0 <= k < before.long_positions@.len() && #[trigger] longs[i]
                    == before.long_positions@[k];
                let k2 = choose|k: int| 0 <= k < before.short_positions@.len() && #[trigger] shorts[j]
                    == before.short_positions@[k];
                assert(before.long_positions@[k1].trade_id != before.short_positions@[k2].trade_id);
            }
        }
        let c2 = after.trade_counter as int;
        assert(c2 >= c);
        let al = after.long_positions@;
        let as_ = after.short_positions@;
        assert(ids_issued(al, c2)) by {
            assert forall|i: int| 0 <= i < al.len() implies 1 <= #[trigger] al[i].trade_id <= c2 by {
                if i < longs.len() {
                    assert(al[i] == longs[i]);
                    assert(1 <= longs[i].trade_id <= c);
                } else {
                    assert(before.entry_side(&input) == Some(TradeKind::Long));
                    assert(before.trade_counter < i64::MAX);
                    assert(al == longs.push(
                        Position { trade_id: (c + 1) as i64, levels: input.signals->0.long_levels },
                    ));
                    assert(al[i].trade_id == c + 1);
                    assert(after.trade_counter == c + 1);
                }
            }
        }
        assert(ids_issued(as_, c2)) by {
            assert forall|i: int| 0 <= i < as_.len() implies 1 <= #[trigger] as_[i].trade_id <= c2 by {
                if i < shorts.len() {
                    assert(as_[i] == shorts[i]);
                    assert(1 <= shorts[i].trade_id <= c);
                } else {
                    assert(before.entry_side(&input) == Some(TradeKind::Short));
                    assert(before.trade_counter < i64::MAX);
                    assert(as_ == shorts.push(
                        Position { trade_id: (c + 1) as i64, levels: input.signals->0.short_levels },
                    ));
                    assert(as_[i].trade_id == c + 1);
                    assert(after.trade_counter == c + 1);
                }
            }
        }
        assert(ids_increasing(al)) by {
            assert forall|i: int, j: int| 0 <= i < j < al.len() implies #[trigger] al[i].trade_id < #[trigger] al[j].trade_id by {
                if j < longs.len() {
                    assert(al[i] == longs[i] && al[j] == longs[j]);
                } else {
                    assert(al[i] == longs[i]);
                }
            }
        }
        assert(ids_increasing(as_)) by {
            assert forall|i: int, j: int| 0 <= i < j < as_.len() implies #[trigger] as_[i].trade_id < #[trigger] as_[j].trade_id by {
                if j < shorts.len() {
                    assert(as_[i] == shorts[i] && as_[j] == shorts[j]);
                } else {
                    assert(as_[i] == shorts[i]);
                }
            }
        }
        assert(ids_disjoint(al, as_)) by {
            assert forall|i: int, j: int| 0 <= i < al.len() && 0 <= j < as_.len() implies #[trigger] al[i].trade_id
                != #[trigger] as_[j].trade_id by {
                if i < longs.len() && j < shorts.len() {
                    assert(al[i] == longs[i] && as_[j] == shorts[j]);
                } else if i < longs.len() {
                    assert(al[i] == longs[i]);
                } else {
                    assert(as_[j] == shorts[j]);
                }
            }
        }
    }
}

} // verus!

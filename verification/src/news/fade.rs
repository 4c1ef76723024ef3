//! News fade: trade against the body of the news candle.
//!
//! After a high-impact release the agent remembers the candle that opened
//! at the release time. Once `wait_duration` has passed since the release it
//! enters against that candle's body (bearish body: long, bullish body:
//! short; a doji is skipped), at most once per release and with at most one
//! open trade at a time.
//!
//! The take-profit and stop-loss prices are computed by the caller from the
//! news candle and the resolved entry price; this module decides whether,
//! when and in which direction to enter.
use crate::news::{CandleDirection, NewsCandle, NewsPhase};
use crate::time::{valid_instant, whole_minutes, MAX_INSTANT_MS, MIN_INSTANT_MS, MS_PER_MINUTE};
use crate::trade::TradeKind;
use vstd::prelude::*;

verus! {

/// The news fade agent's decision state, generic over the candle data `C`.
#[derive(Debug, Clone, Copy, PartialEq, Eq)]
pub struct NewsFade<C> {
    /// Time to wait after the release before entering, in ms.
    pub wait_duration: i64,
    pub phase: NewsPhase<C>,
    pub trade_counter: i64,
    /// The release last traded (or skipped as a doji), so it is never entered twice.
    pub last_processed_news: Option<i64>,
}

/// What the agent sees at one step.
#[derive(Debug, Clone, Copy, PartialEq, Eq)]
pub struct FadeObservation<C> {
    /// Current time (ms since the epoch).
    pub now: i64,
    /// Whether this agent already has an open trade.
    pub has_active_trade: bool,
    /// Time of the last event of the watched economic calendar, if any.
    pub last_news: Option<i64>,
    /// The last closed candle of the traded market, if any.
    pub last_candle: Option<NewsCandle<C>>,
}

/// An entry the agent wants to make: a market order against the news candle.
#[derive(Debug, Clone, Copy, PartialEq, Eq)]
pub struct FadeEntry<C> {
    pub trade_id: i64,
    pub trade_kind: TradeKind,
    pub news_time: i64,
    pub news_candle: NewsCandle<C>,
}

#[derive(Debug, Clone, Copy, PartialEq, Eq)]
pub enum FadeDecision<C> {
    NoOp,
    Enter(FadeEntry<C>),
}

/// The side that fades a candle body, if it has one.
pub open spec fn fade_side(direction: CandleDirection) -> Option<TradeKind> {
    match direction {
        CandleDirection::Bearish => Some(TradeKind::Long),
        CandleDirection::Bullish => Some(TradeKind::Short),
        CandleDirection::Doji => None,
    }
}

impl<C: Copy> NewsFade<C> {
    /// A remembered news candle is the one that opened at the release.
    pub open spec fn wf(self) -> bool {
        self.phase matches NewsPhase::PostNews { news_time, news_candle } ==> (
        news_candle matches Some(c) ==> c.open_time == news_time)
    }

    /// The phase after the news of this step is taken in (before deciding).
    pub open spec fn captured_phase(self, obs: FadeObservation<C>) -> NewsPhase<C> {
        if self.phase is AwaitingNews && obs.last_news is Some {
            let t = obs.last_news->0;
            NewsPhase::PostNews {
                news_time: t,
                news_candle: if obs.last_candle is Some && obs.last_candle->0.open_time == t {
                    obs.last_candle
                } else {
                    None
                },
            }
        } else {
            self.phase
        }
    }

    /// Whether the step would stop because the release was already handled.
    pub open spec fn already_processed(self, obs: FadeObservation<C>) -> bool {
        self.phase is AwaitingNews && obs.last_news is Some && obs.last_news
            == self.last_processed_news
    }

    /// The timestamps are representable, the release time plus the wait is
    /// too (as `DateTime + TimeDelta` requires), and the trade id fits.
    pub open spec fn act_in_range(self, obs: FadeObservation<C>) -> bool {
        &&& valid_instant(obs.now as int)
        &&& (!obs.has_active_trade && !self.already_processed(obs)) ==> match self.captured_phase(
            obs,
        ) {
            NewsPhase::PostNews { news_time, news_candle: Some(c) } => {
                &&& valid_instant(news_time + self.wait_duration)
                &&& (obs.now >= news_time + self.wait_duration && c.direction
                    != CandleDirection::Doji) ==> self.trade_counter < i64::MAX
            },
            _ => true,
        }
    }

    /// One decision step: the next state and the decision.
    pub open spec fn next(self, obs: FadeObservation<C>) -> (NewsFade<C>, FadeDecision<C>) {
        if obs.has_active_trade {
            (self, FadeDecision::NoOp)
        } else if self.already_processed(obs) {
            (self, FadeDecision::NoOp)
        } else {
            let phase = self.captured_phase(obs);
            match phase {
                NewsPhase::PostNews { news_time, news_candle: Some(c) } => {
                    if obs.now < news_time + self.wait_duration {
                        (NewsFade { phase, ..self }, FadeDecision::NoOp)
                    } else {
                        match fade_side(c.direction) {
                            None => (
                                NewsFade {
                                    phase: NewsPhase::AwaitingNews,
                                    last_processed_news: Some(news_time),
                                    ..self
                                },
                                FadeDecision::NoOp,
                            ),
                            Some(kind) => (
                                NewsFade {
                                    phase,
                                    trade_counter: (self.trade_counter + 1) as i64,
                                    ..self
                                },
                                FadeDecision::Enter(
                                    FadeEntry {
                                        trade_id: (self.trade_counter + 1) as i64,
                                        trade_kind: kind,
                                        news_time,
                                        news_candle: c,
                                    },
                                ),
                            ),
                        }
                    }
                },
                _ => (NewsFade { phase: NewsPhase::AwaitingNews, ..self }, FadeDecision::NoOp),
            }
        }
    }

    /// The state after an entry for the release at `news_time` went out.
    pub open spec fn recorded(self, news_time: i64) -> NewsFade<C> {
        NewsFade { last_processed_news: Some(news_time), phase: NewsPhase::AwaitingNews, ..self }
    }

    /// The agent with the baseline wait of 7 minutes (420 s).
    pub fn baseline() -> (agent: Self)
        ensures
            agent.wait_duration == 420_000,
            agent.phase == NewsPhase::<C>::AwaitingNews,
            agent.trade_counter == 0,
            agent.last_processed_news == None::<i64>,
            agent.wf(),
    {
        NewsFade {
            wait_duration: 420_000,
            phase: NewsPhase::AwaitingNews,
            trade_counter: 0,
            last_processed_news: None,
        }
    }

    /// Sets the wait after the release (in ms).
    pub fn with_candles_after_news(self, duration: i64) -> (agent: Self)
        ensures
            agent == (NewsFade { wait_duration: duration, ..self }),
            self.wf() ==> agent.wf(),
    {
        NewsFade { wait_duration: duration, ..self }
    }

    /// Starts a new episode.
    pub fn reset(&mut self)
        ensures
            *final(self) == (NewsFade {
                phase: NewsPhase::<C>::AwaitingNews,
                trade_counter: 0,
                last_processed_news: None,
                ..*old(self)
            }),
            final(self).wf(),
    {
        self.phase = NewsPhase::AwaitingNews;
        self.trade_counter = 0;
        self.last_processed_news = None;
    }

    /// Whether `act` may be called with this observation (see `act_in_range`).
    pub fn can_act(&self, obs: &FadeObservation<C>) -> (ok: bool)
        ensures
            ok == self.act_in_range(*obs),
    {
        if !(MIN_INSTANT_MS <= obs.now && obs.now <= MAX_INSTANT_MS) {
            return false;
        }
        if obs.has_active_trade {
            return true;
        }
        let awaiting = match self.phase {
            NewsPhase::AwaitingNews => true,
            _ => false,
        };
        if awaiting && obs.last_news.is_some() && obs.last_news == self.last_processed_news {
            return true;
        }
        let phase = self.capture(obs);
        match phase {
            NewsPhase::PostNews { news_time, news_candle: Some(c) } => {
                let lo = MIN_INSTANT_MS as i128;
                let hi = MAX_INSTANT_MS as i128;
                let due = news_time as i128 + self.wait_duration as i128;
                if !(lo <= due && due <= hi) {
                    return false;
                }
                if obs.now as i128 >= due && c.direction != CandleDirection::Doji {
                    self.trade_counter < i64::MAX
                } else {
                    true
                }
            },
            _ => true,
        }
    }

    fn capture(&self, obs: &FadeObservation<C>) -> (phase: NewsPhase<C>)
        ensures
            phase == self.captured_phase(*obs),
    {
        match (self.phase, obs.last_news) {
            (NewsPhase::AwaitingNews, Some(t)) => {
                let news_candle = match obs.last_candle {
                    Some(c) => if c.open_time == t {
                        Some(c)
                    } else {
                        None
                    },
                    None => None,
                };
                NewsPhase::PostNews { news_time: t, news_candle }
            },
            _ => self.phase,
        }
    }

    /// One step: takes in the latest release, and, once the wait has passed,
    /// decides to enter against the news candle's body. After an `Enter`
    /// whose order went out, the caller records it with `record_entry`.
    pub fn act(&mut self, obs: &FadeObservation<C>) -> (decision: FadeDecision<C>)
        requires
            old(self).wf(),
            old(self).act_in_range(*obs),
        ensures
            (*final(self), decision) == old(self).next(*obs),
            final(self).wf(),
    {
        if obs.has_active_trade {
            return FadeDecision::NoOp;
        }
        let awaiting = match self.phase {
            NewsPhase::AwaitingNews => true,
            _ => false,
        };
        if awaiting && obs.last_news.is_some() && obs.last_news == self.last_processed_news {
            return FadeDecision::NoOp;
        }
        self.phase = self.capture(obs);
        let (news_time, candle) = match self.phase {
            NewsPhase::PostNews { news_time, news_candle: Some(c) } => (news_time, c),
            _ => {
                self.phase = NewsPhase::AwaitingNews;
                return FadeDecision::NoOp;
            },
        };
        if obs.now < news_time + self.wait_duration {
            return FadeDecision::NoOp;
        }
        let trade_kind = match candle.direction {
            CandleDirection::Bearish => TradeKind::Long,
            CandleDirection::Bullish => TradeKind::Short,
            CandleDirection::Doji => {
                self.last_processed_news = Some(news_time);
                self.phase = NewsPhase::AwaitingNews;
                return FadeDecision::NoOp;
            },
        };
        self.trade_counter = self.trade_counter + 1;
        FadeDecision::Enter(
            FadeEntry { trade_id: self.trade_counter, trade_kind, news_time, news_candle: candle },
        )
    }

    /// Marks the release at `news_time` as traded, once its order went out.
    pub fn record_entry(&mut self, news_time: i64)
        ensures
            *final(self) == old(self).recorded(news_time),
            final(self).wf(),
    {
        self.last_processed_news = Some(news_time);
        self.phase = NewsPhase::AwaitingNews;
    }
}

// ------------------------------------------------------------------------------------------------
// Laws
// ------------------------------------------------------------------------------------------------

/// Law: the agent enters against the news candle's body (bearish: long,
/// bullish: short), never on a doji, never while it holds a trade, never
/// before the wait has passed, and with the next trade id.
pub proof fn lemma_entry_fades_the_candle<C: Copy>(agent: NewsFade<C>, obs: FadeObservation<C>)
    requires
        agent.wf(),
        agent.act_in_range(obs),
        agent.next(obs).1 is Enter,
    ensures
        ({
            let e = agent.next(obs).1->Enter_0;
            &&& !obs.has_active_trade
            &&& fade_side(e.news_candle.direction) == Some(e.trade_kind)
            &&& e.news_candle.direction != CandleDirection::Doji
            &&& (e.news_candle.direction == CandleDirection::Bearish ==> e.trade_kind == TradeKind::Long)
            &&& (e.news_candle.direction == CandleDirection::Bullish ==> e.trade_kind == TradeKind::Short)
            &&& e.news_candle.open_time == e.news_time
            &&& obs.now >= e.news_time + agent.wait_duration
            &&& e.trade_id == agent.trade_counter + 1
            &&& agent.next(obs).0.trade_counter == e.trade_id
        }),
{
}

/// Law (entry owed): with no trade open, a release not handled yet whose
/// candle opened at the release time, with a body, is entered once the
/// wait has passed since the release, against the body (bearish: long,
/// bullish: short) and with the next trade id: on the step that first
/// sees the release, or later while the agent waits on it. Before the wait
/// has passed the waiting agent does nothing and changes nothing.
pub proof fn lemma_release_entered_after_wait<C: Copy>(
    agent: NewsFade<C>,
    obs: FadeObservation<C>,
    t: i64,
    c: NewsCandle<C>,
)
    requires
        agent.act_in_range(obs),
        !obs.has_active_trade,
        c.open_time == t,
        c.direction != CandleDirection::Doji,
        ({
            ||| agent.phase == NewsPhase::<C>::AwaitingNews && obs.last_news == Some(t)
                && agent.last_processed_news != Some(t) && obs.last_candle == Some(c)
            ||| agent.phase == (NewsPhase::PostNews { news_time: t, news_candle: Some(c) })
        }),
    ensures
        obs.now >= t + agent.wait_duration ==> agent.next(obs).1 == FadeDecision::Enter(
            FadeEntry {
                trade_id: (agent.trade_counter + 1) as i64,
                trade_kind: if c.direction == CandleDirection::Bearish {
                    TradeKind::Long
                } else {
                    TradeKind::Short
                },
                news_time: t,
                news_candle: c,
            },
        ) && agent.next(obs).0.trade_counter == agent.trade_counter + 1,
        (obs.now < t + agent.wait_duration && agent.phase == (NewsPhase::PostNews {
            news_time: t,
            news_candle: Some(c),
        })) ==> agent.next(obs) == (agent, FadeDecision::<C>::NoOp),
{
}

/// Law: while a trade is open the agent does nothing and changes nothing.
pub proof fn lemma_no_entry_while_in_trade<C: Copy>(agent: NewsFade<C>, obs: FadeObservation<C>)
    requires
        obs.has_active_trade,
    ensures
        agent.next(obs) == (agent, FadeDecision::<C>::NoOp),
{
}

/// Law: a release recorded as traded is never entered again: with the
/// release recorded, the same latest release yields no decision and no
/// change of state.
pub proof fn lemma_release_entered_once<C: Copy>(
    agent: NewsFade<C>,
    news_time: i64,
    obs: FadeObservation<C>,
)
    requires
        obs.last_news == Some(news_time),
    ensures
        agent.recorded(news_time).next(obs) == (agent.recorded(news_time), FadeDecision::<C>::NoOp),
{
}

/// Law: a doji news candle is skipped for good: it is marked as handled.
pub proof fn lemma_doji_skipped<C: Copy>(agent: NewsFade<C>, obs: FadeObservation<C>)
    requires
        !obs.has_active_trade,
        !agent.already_processed(obs),
        agent.captured_phase(obs) matches NewsPhase::PostNews { news_time, news_candle: Some(c) }
            && c.direction == CandleDirection::Doji && obs.now >= news_time + agent.wait_duration,
    ensures
        agent.next(obs).1 == FadeDecision::<C>::NoOp,
        agent.next(obs).0.last_processed_news == Some(agent.captured_phase(obs)->news_time),
        agent.next(obs).0.phase == NewsPhase::<C>::AwaitingNews,
{
}

/// One full step of the agent: `act`, then, for an entry, `record_entry`
/// once its order went out.
pub open spec fn step_and_record<C: Copy>(agent: NewsFade<C>, obs: FadeObservation<C>) -> (
    NewsFade<C>,
    FadeDecision<C>,
) {
    let (after, decision) = agent.next(obs);
    match decision {
        FadeDecision::Enter(e) => (after.recorded(e.news_time), decision),
        FadeDecision::NoOp => (after, decision),
    }
}

/// A sequence of full steps: the final state and the decisions, in order.
pub open spec fn fade_run<C: Copy>(agent: NewsFade<C>, obs: Seq<FadeObservation<C>>) -> (
    NewsFade<C>,
    Seq<FadeDecision<C>>,
)
    decreases obs.len(),
{
    if obs.len() == 0 {
        (agent, Seq::empty())
    } else {
        let (before, decisions) = fade_run(agent, obs.drop_last());
        let (after, decision) = step_and_record(before, obs.last());
        (after, decisions.push(decision))
    }
}

/// The state of a run before its step `i`.
pub open spec fn state_before<C: Copy>(agent: NewsFade<C>, obs: Seq<FadeObservation<C>>, i: int) -> NewsFade<C> {
    fade_run(agent, obs.take(i)).0
}

/// No release other than `t` was handled (entered or skipped as a doji) in
/// the steps before step `i` of the run: the mark stays on `t`.
pub open spec fn marked_until<C: Copy>(agent: NewsFade<C>, obs: Seq<FadeObservation<C>>, i: int, t: i64) -> bool {
    forall|j: int| 0 <= j <= i ==> (#[trigger] state_before(agent, obs, j)).last_processed_news == Some(t)
}

/// Law (each news event is entered at most once): once the entry for the
/// release at `t` went out and was recorded, no later step enters `t`
/// again, whatever releases come in between, as long as none of them is
/// itself handled.
pub proof fn lemma_entered_release_never_again<C: Copy>(
    agent: NewsFade<C>,
    obs: FadeObservation<C>,
    later: Seq<FadeObservation<C>>,
)
    requires
        agent.next(obs).1 is Enter,
    ensures
        ({
            let t = agent.next(obs).1->Enter_0.news_time;
            let start = step_and_record(agent, obs).0;
            &&& fade_run(start, later).1.len() == later.len()
            &&& forall|i: int|
                0 <= i < later.len() && marked_until(start, later, i, t) ==> !(
                #[trigger] fade_run(start, later).1[i] matches FadeDecision::Enter(e) && e.news_time
                    == t)
        }),
{
    let t = agent.next(obs).1->Enter_0.news_time;
    let start = step_and_record(agent, obs).0;
    lemma_run_decisions(start, later);
    assert forall|i: int|
        0 <= i < later.len() && marked_until(start, later, i, t) implies !(
        #[trigger] fade_run(start, later).1[i] matches FadeDecision::Enter(e) && e.news_time == t) by {
        lemma_marked_prefix_unentered(start, later, i, t);
        lemma_step_avoids(state_before(start, later, i), later[i], t);
    }
}

/// The mark is on `t` and the phase follows no release at `t`.
spec fn unentered<C: Copy>(s: NewsFade<C>, t: i64) -> bool {
    &&& s.last_processed_news == Some(t)
    &&& s.phase matches NewsPhase::PostNews { news_time, .. } ==> news_time != t
}

proof fn lemma_step_avoids<C: Copy>(s: NewsFade<C>, o: FadeObservation<C>, t: i64)
    requires
        unentered(s, t),
    ensures
        !(step_and_record(s, o).1 matches FadeDecision::Enter(e) && e.news_time == t),
        step_and_record(s, o).0.last_processed_news == Some(t) ==> unentered(step_and_record(s, o).0, t),
{
}

proof fn lemma_run_decisions<C: Copy>(agent: NewsFade<C>, obs: Seq<FadeObservation<C>>)
    ensures
        fade_run(agent, obs).1.len() == obs.len(),
        forall|i: int|
            0 <= i < obs.len() ==> #[trigger] fade_run(agent, obs).1[i] == step_and_record(
                state_before(agent, obs, i),
                obs[i],
            ).1,
    decreases obs.len(),
{
    if obs.len() > 0 {
        let d = obs.drop_last();
        lemma_run_decisions(agent, d);
        assert forall|i: int| 0 <= i < obs.len() implies #[trigger] fade_run(agent, obs).1[i]
            == step_and_record(state_before(agent, obs, i), obs[i]).1 by {
            if i < obs.len() - 1 {
                assert(d.take(i) =~= obs.take(i));
                assert(d[i] == obs[i]);
                assert(fade_run(agent, d).1[i] == step_and_record(state_before(agent, d, i), d[i]).1);
            } else {
                assert(obs.take(i) =~= d);
            }
        }
    }
}

proof fn lemma_marked_prefix_unentered<C: Copy>(
    start: NewsFade<C>,
    later: Seq<FadeObservation<C>>,
    i: int,
    t: i64,
)
    requires
        unentered(start, t),
        0 <= i <= later.len(),
        marked_until(start, later, i, t),
    ensures
        unentered(state_before(start, later, i), t),
    decreases i,
{
    if i == 0 {
        assert(later.take(0) =~= Seq::<FadeObservation<C>>::empty());
    } else {
        assert(marked_until(start, later, i - 1, t)) by {
            assert forall|j: int| 0 <= j <= i - 1 implies (#[trigger] state_before(start, later, j)).last_processed_news == Some(t) by {
                assert(state_before(start, later, j).last_processed_news == Some(t));
            }
        }
        lemma_marked_prefix_unentered(start, later, i - 1, t);
        let p = later.take(i);
        assert(p.drop_last() =~= later.take(i - 1));
        assert(p.last() == later[i - 1]);
        lemma_step_avoids(state_before(start, later, i - 1), later[i - 1], t);
        assert(state_before(start, later, i).last_processed_news == Some(t));
    }
}

/// The calendar's latest release, from the step after the entry for `t`
/// on, is known, is not before `t`, and never moves back in time.
pub open spec fn calendar_moves_forward<C>(t: i64, later: Seq<FadeObservation<C>>) -> bool {
    &&& forall|i: int|
        0 <= i < later.len() ==> (#[trigger] later[i]).last_news is Some && later[i].last_news->0
            >= t
    &&& forall|i: int, j: int|
        0 <= i < j < later.len() ==> (#[trigger] later[i]).last_news->0 <= (
        #[trigger] later[j]).last_news->0
}

/// Law (each news event is entered at most once, with other releases
/// handled in between): once the entry for the release at `t` went out and
/// was recorded, no later step enters `t` again while the calendar's latest
/// release moves forward in time, whatever releases are entered or skipped
/// in between.
pub proof fn lemma_entered_release_never_again_as_time_moves_on<C: Copy>(
    agent: NewsFade<C>,
    obs: FadeObservation<C>,
    later: Seq<FadeObservation<C>>,
)
    requires
        agent.next(obs).1 is Enter,
        calendar_moves_forward(agent.next(obs).1->Enter_0.news_time, later),
    ensures
        ({
            let t = agent.next(obs).1->Enter_0.news_time;
            let start = step_and_record(agent, obs).0;
            &&& fade_run(start, later).1.len() == later.len()
            &&& forall|i: int|
                0 <= i < later.len() ==> !(#[trigger] fade_run(start, later).1[i] matches FadeDecision::Enter(
                    e,
                ) && e.news_time == t)
        }),
{
    let t = agent.next(obs).1->Enter_0.news_time;
    let start = step_and_record(agent, obs).0;
    lemma_run_decisions(start, later);
    assert forall|i: int| 0 <= i < later.len() implies !(#[trigger] fade_run(start, later).1[i] matches FadeDecision::Enter(
        e,
    ) && e.news_time == t) by {
        lemma_forward_prefix(start, later, i, t);
        let lo = latest_seen(later, i, t);
        if i > 0 {
            assert(later[i - 1].last_news->0 <= later[i].last_news->0);
        }
        lemma_forward_step(state_before(start, later, i), later[i], t, lo);
    }
}

/// The latest release seen before step `i` (`t` before the first step).
spec fn latest_seen<C>(later: Seq<FadeObservation<C>>, i: int, t: i64) -> i64 {
    if i == 0 {
        t
    } else {
        later[i - 1].last_news->0
    }
}

/// The mark is on `t` or on a release after it seen so far, and the phase
/// follows such a release.
spec fn past_entry<C: Copy>(s: NewsFade<C>, t: i64, lo: i64) -> bool {
    &&& lo >= t
    &&& s.last_processed_news matches Some(m) && (m == t || (t < m && m <= lo))
    &&& s.phase matches NewsPhase::PostNews { news_time, .. } ==> t < news_time && news_time <= lo
}

proof fn lemma_forward_step<C: Copy>(s: NewsFade<C>, o: FadeObservation<C>, t: i64, lo: i64)
    requires
        past_entry(s, t, lo),
        o.last_news is Some,
        o.last_news->0 >= lo,
    ensures
        !(step_and_record(s, o).1 matches FadeDecision::Enter(e) && e.news_time == t),
        past_entry(step_and_record(s, o).0, t, o.last_news->0),
{
}

proof fn lemma_forward_prefix<C: Copy>(
    start: NewsFade<C>,
    later: Seq<FadeObservation<C>>,
    i: int,
    t: i64,
)
    requires
        past_entry(start, t, t),
        calendar_moves_forward(t, later),
        0 <= i <= later.len(),
    ensures
        past_entry(state_before(start, later, i), t, latest_seen(later, i, t)),
    decreases i,
{
    if i == 0 {
        assert(later.take(0) =~= Seq::<FadeObservation<C>>::empty());
    } else {
        lemma_forward_prefix(start, later, i - 1, t);
        let p = later.take(i);
        assert(p.drop_last() =~= later.take(i - 1));
        assert(p.last() == later[i - 1]);
        if i > 1 {
            assert(later[i - 2].last_news->0 <= later[i - 1].last_news->0);
        }
        lemma_forward_step(
            state_before(start, later, i - 1),
            later[i - 1],
            t,
            latest_seen(later, i - 1, t),
        );
    }
}

/// Law: with the release at `t` recorded, steps whose latest release is
/// still `t` decide nothing and leave the state as it is, however many
/// there are.
pub proof fn lemma_recorded_release_is_idle<C: Copy>(agent: NewsFade<C>, t: i64, later: Seq<FadeObservation<C>>)
    requires
        forall|i: int| 0 <= i < later.len() ==> (#[trigger] later[i]).last_news == Some(t),
    ensures
        fade_run(agent.recorded(t), later).0 == agent.recorded(t),
        fade_run(agent.recorded(t), later).1 =~= Seq::new(later.len(), |i: int| FadeDecision::<C>::NoOp),
    decreases later.len(),
{
    if later.len() > 0 {
        let d = later.drop_last();
        assert forall|i: int| 0 <= i < d.len() implies (#[trigger] d[i]).last_news == Some(t) by {
            assert(d[i] == later[i]);
        }
        lemma_recorded_release_is_idle(agent, t, d);
        assert(later.last() == later[later.len() - 1]);
        lemma_release_entered_once(agent, t, later.last());
    }
}

// ------------------------------------------------------------------------------------------------
// Grid search
// ------------------------------------------------------------------------------------------------

/// The waits swept by the grid: every whole minute from the start's to the
/// end's (end excluded), in ms.
pub open spec fn wait_axis(start: i64, end: i64) -> Seq<i64> {
    let first = whole_minutes(start as int);
    let last = whole_minutes(end as int);
    Seq::new(
        if last > first {
            (last - first) as nat
        } else {
            0
        },
        |i: int| ((first + i) * MS_PER_MINUTE) as i64,
    )
}

/// The wait durations the grid sweeps between `start` and `end` (ms).
pub fn wait_durations(start: i64, end: i64) -> (waits: Vec<i64>)
    ensures
        waits@ == wait_axis(start, end),
{
    let first: i64 = if start >= 0 {
        start / MS_PER_MINUTE
    } else {
        -((-(start as i128)) / (MS_PER_MINUTE as i128)) as i64
    };
    let last: i64 = if end >= 0 {
        end / MS_PER_MINUTE
    } else {
        -((-(end as i128)) / (MS_PER_MINUTE as i128)) as i64
    };
    assert(first == whole_minutes(start as int));
    assert(last == whole_minutes(end as int));
    let mut waits: Vec<i64> = Vec::new();
    let mut m: i64 = first;
    while m < last
        invariant
            first == whole_minutes(start as int),
            last == whole_minutes(end as int),
            first <= m <= last || last <= first,
            m >= first,
            m < last ==> waits.len() == m - first,
            m >= last ==> waits.len() == (if last > first { last - first } else { 0 }),
            forall|i: int| 0 <= i < waits.len() ==> waits@[i] == ((first + i) * MS_PER_MINUTE) as i64,
        decreases last - m,
    {
        waits.push(m * MS_PER_MINUTE);
        m = m + 1;
    }
    assert(waits@ =~= wait_axis(start, end));
    waits
}

} // verus!

use chapaty_garden::news::fade::{wait_durations, FadeDecision, FadeEntry, FadeObservation, NewsFade};
use chapaty_garden::news::{CandleDirection, NewsCandle, NewsPhase};
use chapaty_garden::trade::TradeKind;

const NEWS: i64 = 1_705_325_400_000;
const MIN: i64 = 60_000;

fn candle(open_time: i64, direction: CandleDirection) -> NewsCandle<u32> {
    NewsCandle { open_time, direction, candle: 7 }
}

fn obs(now: i64, news: Option<i64>, c: Option<NewsCandle<u32>>) -> FadeObservation<u32> {
    FadeObservation { now, has_active_trade: false, last_news: news, last_candle: c }
}

#[test]
fn baseline_waits_seven_minutes() {
    let agent: NewsFade<u32> = NewsFade::baseline();
    assert_eq!(agent.wait_duration, 420_000);
    assert_eq!(agent.phase, NewsPhase::AwaitingNews);
    let agent = agent.with_candles_after_news(8 * MIN);
    assert_eq!(agent.wait_duration, 480_000);
}

#[test]
fn bearish_news_candle_is_faded_long_after_wait() {
    let mut agent: NewsFade<u32> = NewsFade::baseline();
    let c = candle(NEWS, CandleDirection::Bearish);
    // the release candle is captured, the wait has not passed
    assert_eq!(agent.act(&obs(NEWS + MIN, Some(NEWS), Some(c))), FadeDecision::NoOp);
    assert_eq!(agent.phase, NewsPhase::PostNews { news_time: NEWS, news_candle: Some(c) });
    assert_eq!(agent.act(&obs(NEWS + 7 * MIN - 1, Some(NEWS), None)), FadeDecision::NoOp);
    let o = obs(NEWS + 7 * MIN, Some(NEWS), None);
    assert!(agent.can_act(&o));
    let d = agent.act(&o);
    assert_eq!(
        d,
        FadeDecision::Enter(FadeEntry { trade_id: 1, trade_kind: TradeKind::Long, news_time: NEWS, news_candle: c })
    );
    agent.record_entry(NEWS);
    assert_eq!(agent.phase, NewsPhase::AwaitingNews);
    assert_eq!(agent.last_processed_news, Some(NEWS));
    // the same release is never entered again
    assert_eq!(agent.act(&obs(NEWS + 20 * MIN, Some(NEWS), Some(c))), FadeDecision::NoOp);
    assert_eq!(agent.phase, NewsPhase::AwaitingNews);
}

#[test]
fn bullish_news_candle_is_faded_short() {
    let mut agent: NewsFade<u32> = NewsFade::baseline().with_candles_after_news(0);
    let c = candle(NEWS, CandleDirection::Bullish);
    let d = agent.act(&obs(NEWS, Some(NEWS), Some(c)));
    assert_eq!(
        d,
        FadeDecision::Enter(FadeEntry { trade_id: 1, trade_kind: TradeKind::Short, news_time: NEWS, news_candle: c })
    );
}

#[test]
fn doji_is_skipped_for_good() {
    let mut agent: NewsFade<u32> = NewsFade::baseline().with_candles_after_news(0);
    let c = candle(NEWS, CandleDirection::Doji);
    assert_eq!(agent.act(&obs(NEWS, Some(NEWS), Some(c))), FadeDecision::NoOp);
    assert_eq!(agent.last_processed_news, Some(NEWS));
    assert_eq!(agent.phase, NewsPhase::AwaitingNews);
    assert_eq!(agent.act(&obs(NEWS + MIN, Some(NEWS), Some(c))), FadeDecision::NoOp);
    assert_eq!(agent.trade_counter, 0);
}

#[test]
fn candle_of_another_time_is_not_the_news_candle() {
    let mut agent: NewsFade<u32> = NewsFade::baseline().with_candles_after_news(0);
    let c = candle(NEWS - MIN, CandleDirection::Bearish);
    assert_eq!(agent.act(&obs(NEWS, Some(NEWS), Some(c))), FadeDecision::NoOp);
    // no candle found: back to awaiting, to retry
    assert_eq!(agent.phase, NewsPhase::AwaitingNews);
    let c2 = candle(NEWS, CandleDirection::Bearish);
    assert!(matches!(agent.act(&obs(NEWS + MIN, Some(NEWS), Some(c2))), FadeDecision::Enter(_)));
}

#[test]
fn no_entry_while_in_a_trade() {
    let mut agent: NewsFade<u32> = NewsFade::baseline().with_candles_after_news(0);
    let c = candle(NEWS, CandleDirection::Bearish);
    let mut o = obs(NEWS, Some(NEWS), Some(c));
    o.has_active_trade = true;
    assert_eq!(agent.act(&o), FadeDecision::NoOp);
    assert_eq!(agent, NewsFade::baseline().with_candles_after_news(0));
}

#[test]
fn failed_entry_keeps_the_release_pending() {
    // an entry whose order did not go out is not recorded: the next step
    // decides again, with the next id
    let mut agent: NewsFade<u32> = NewsFade::baseline().with_candles_after_news(0);
    let c = candle(NEWS, CandleDirection::Bearish);
    assert!(matches!(agent.act(&obs(NEWS, Some(NEWS), Some(c))), FadeDecision::Enter(FadeEntry { trade_id: 1, .. })));
    assert!(matches!(agent.act(&obs(NEWS + MIN, Some(NEWS), None)), FadeDecision::Enter(FadeEntry { trade_id: 2, .. })));
}

#[test]
fn reset_forgets_everything() {
    let mut agent: NewsFade<u32> = NewsFade::baseline().with_candles_after_news(0);
    agent.act(&obs(NEWS, Some(NEWS), Some(candle(NEWS, CandleDirection::Bearish))));
    agent.record_entry(NEWS);
    agent.reset();
    assert_eq!(agent, NewsFade::baseline().with_candles_after_news(0));
}

#[test]
fn wait_after_news_overflowing_is_refused() {
    let agent: NewsFade<u32> = NewsFade::baseline().with_candles_after_news(i64::MAX);
    let c = candle(NEWS, CandleDirection::Bearish);
    assert!(!agent.can_act(&obs(NEWS, Some(NEWS), Some(c))));
}

#[test]
fn grid_waits_are_whole_minutes_end_excluded() {
    assert_eq!(wait_durations(5 * MIN, 8 * MIN), vec![5 * MIN, 6 * MIN, 7 * MIN]);
    assert_eq!(wait_durations(5 * MIN + 30_000, 7 * MIN + 59_000), vec![5 * MIN, 6 * MIN]);
    assert_eq!(wait_durations(8 * MIN, 5 * MIN), Vec::<i64>::new());
    assert_eq!(wait_durations(-90_000, 0), vec![-MIN]);
    assert_eq!(wait_durations(5 * MIN, 30 * MIN).len(), 25);
}

#[test]
fn entered_release_stays_out_after_an_unhandled_one() {
    let mut agent: NewsFade<u32> = NewsFade::baseline().with_candles_after_news(0);
    let c = candle(NEWS, CandleDirection::Bearish);
    assert!(matches!(agent.act(&obs(NEWS, Some(NEWS), Some(c))), FadeDecision::Enter(_)));
    agent.record_entry(NEWS);
    // another release comes without its candle: taken in, not handled
    let later = NEWS + 30 * MIN;
    assert_eq!(agent.act(&obs(later, Some(later), None)), FadeDecision::NoOp);
    assert_eq!(agent.phase, NewsPhase::AwaitingNews);
    assert_eq!(agent.last_processed_news, Some(NEWS));
    // the calendar shows the entered release again: still nothing
    assert_eq!(agent.act(&obs(later + MIN, Some(NEWS), Some(c))), FadeDecision::NoOp);
    assert_eq!(agent.trade_counter, 1);
}

#[test]
fn entered_release_stays_out_while_later_ones_are_traded() {
    let mut agent: NewsFade<u32> = NewsFade::baseline().with_candles_after_news(0);
    let c = candle(NEWS, CandleDirection::Bearish);
    assert!(matches!(agent.act(&obs(NEWS, Some(NEWS), Some(c))), FadeDecision::Enter(_)));
    agent.record_entry(NEWS);
    // a later release is traded in turn
    let later = NEWS + 30 * MIN;
    let c2 = candle(later, CandleDirection::Bullish);
    let d = agent.act(&obs(later, Some(later), Some(c2)));
    assert_eq!(
        d,
        FadeDecision::Enter(FadeEntry { trade_id: 2, trade_kind: TradeKind::Short, news_time: later, news_candle: c2 })
    );
    agent.record_entry(later);
    // the calendar stays on the later release: neither is entered again
    assert_eq!(agent.act(&obs(later + MIN, Some(later), Some(c2))), FadeDecision::NoOp);
    assert_eq!(agent.trade_counter, 2);
    assert_eq!(agent.last_processed_news, Some(later));
}

//! Instants and durations, in milliseconds since the Unix epoch (UTC).
//!
//! Every agent of this crate reasons about candle and news timestamps. They
//! are carried as `i64` millisecond counts; an instant is *valid* when it lies
//! in the range that a `chrono::DateTime<Utc>` can represent.
use chrono::{DateTime, Datelike, Timelike, Utc};
use chrono_tz::America::New_York;
use chrono_tz::Europe::Berlin;
use vstd::prelude::*;

verus! {

/// Milliseconds in one minute.
pub const MS_PER_MINUTE: i64 = 60_000;

/// Milliseconds in one day.
pub const MS_PER_DAY: i64 = 86_400_000;

/// The earliest instant a `DateTime<Utc>` can hold (Jan 1 of year -262143, 00:00).
pub const MIN_INSTANT_MS: i64 = -8_334_601_228_800_000;

/// The latest instant a `DateTime<Utc>` can hold (Dec 31 of year 262142, 23:59:59.999).
pub const MAX_INSTANT_MS: i64 = 8_210_266_876_799_999;

/// An instant, in milliseconds since the epoch, that a `DateTime<Utc>` can hold.
pub open spec fn valid_instant(ms: int) -> bool {
    MIN_INSTANT_MS <= ms <= MAX_INSTANT_MS
}

/// The UTC calendar day of an instant, counted in days since 1970-01-01.
pub open spec fn utc_day(ms: int) -> int {
    ms / (MS_PER_DAY as int)
}

/// Whole minutes in a signed span of milliseconds, truncated toward zero
/// (the way `TimeDelta::num_minutes` counts them).
pub open spec fn whole_minutes(span_ms: int) -> int {
    if span_ms >= 0 {
        span_ms / (MS_PER_MINUTE as int)
    } else {
        -((-span_ms) / (MS_PER_MINUTE as int))
    }
}

/// Whether two valid instants fall on the same UTC calendar date.
pub fn same_utc_date(a: i64, b: i64) -> (same: bool)
    requires
        valid_instant(a as int),
        valid_instant(b as int),
    ensures
        same == (utc_day(a as int) == utc_day(b as int)),
{
    let da = a.checked_div_euclid(MS_PER_DAY);
    let db = b.checked_div_euclid(MS_PER_DAY);
    match (da, db) {
        (Some(x), Some(y)) => x == y,
        _ => false,
    }
}

/// Whole minutes elapsed from `from` to `to`, truncated toward zero.
pub fn minutes_between(from: i64, to: i64) -> (mins: i64)
    requires
        valid_instant(from as int),
        valid_instant(to as int),
    ensures
        mins as int == whole_minutes(to - from),
{
    let span: i64 = to - from;
    if span >= 0 {
        span / MS_PER_MINUTE
    } else {
        let back: i64 = -span;
        -(back / MS_PER_MINUTE)
    }
}

/// An instant whose Berlin local time chrono can represent: valid, and at
/// least a day before the latest valid instant (Berlin is ahead of UTC, and
/// `DateTime::naive_local` panics past the representable range).
pub open spec fn berlin_representable(ms: int) -> bool {
    valid_instant(ms) && ms <= MAX_INSTANT_MS - MS_PER_DAY
}

/// The calendar date, in Berlin local time, of an instant: what
/// `DateTime::with_timezone(&Berlin).date_naive().num_days_from_ce()` returns.
pub uninterp spec fn berlin_day(ms: i64) -> int;

/// The hour of the day, in Berlin local time, of an instant: what
/// `DateTime::with_timezone(&Berlin).hour()` returns.
pub uninterp spec fn berlin_hour(ms: i64) -> int;

/// Calls chrono and chrono-tz: converts the UTC instant to Europe/Berlin
/// local time and returns its date as days from the common era
/// (`Datelike::num_days_from_ce`). Nothing is claimed of the value beyond
/// that it is what that conversion returns; the time zone rules that decide
/// it (CET/CEST) are chrono-tz's. Within a day of the latest representable
/// instant the conversion can panic; those instants are excluded (a little
/// more than the exact panicking range, which depends on the offset).
#[verifier::external_body]
pub(crate) fn berlin_date_of(ms: i64) -> (day: i32)
    requires
        berlin_representable(ms as int),
    ensures
        day as int == berlin_day(ms),
{
    DateTime::<Utc>::from_timestamp_millis(ms).unwrap().with_timezone(&Berlin).date_naive().num_days_from_ce()
}

/// Calls chrono and chrono-tz: converts the UTC instant to Europe/Berlin
/// local time and returns its hour (`Timelike::hour`), which chrono
/// documents to lie in `0..=23`.
#[verifier::external_body]
pub(crate) fn berlin_hour_of(ms: i64) -> (hour: u32)
    requires
        berlin_representable(ms as int),
    ensures
        hour as int == berlin_hour(ms),
        hour < 24,
{
    DateTime::<Utc>::from_timestamp_millis(ms).unwrap().with_timezone(&Berlin).hour()
}

/// An instant whose New York local time chrono can represent: valid, and at
/// least a day after the earliest valid instant (New York is behind UTC, and
/// `DateTime::naive_local` panics before the representable range).
pub open spec fn new_york_representable(ms: int) -> bool {
    valid_instant(ms) && ms >= MIN_INSTANT_MS + MS_PER_DAY
}

/// The calendar date, in New York local time, of an instant: what
/// `DateTime::with_timezone(&New_York).date_naive().num_days_from_ce()` returns.
pub uninterp spec fn new_york_day(ms: i64) -> int;

/// The hour of the day, in New York local time, of an instant: what
/// `DateTime::with_timezone(&New_York).hour()` returns.
pub uninterp spec fn new_york_hour(ms: i64) -> int;

/// Calls chrono and chrono-tz: converts the UTC instant to America/New_York
/// local time and returns its date as days from the common era
/// (`Datelike::num_days_from_ce`). Nothing is claimed of the value beyond
/// that it is what that conversion returns; the time zone rules that decide
/// it (EST/EDT) are chrono-tz's. Within a day of the earliest representable
/// instant the conversion can panic; those instants are excluded (a little
/// more than the exact panicking range, which depends on the offset).
#[verifier::external_body]
pub(crate) fn new_york_date_of(ms: i64) -> (day: i32)
    requires
        new_york_representable(ms as int),
    ensures
        day as int == new_york_day(ms),
{
    DateTime::<Utc>::from_timestamp_millis(ms).unwrap().with_timezone(&New_York).date_naive().num_days_from_ce()
}

/// Calls chrono and chrono-tz: converts the UTC instant to America/New_York
/// local time and returns its hour (`Timelike::hour`), which chrono
/// documents to lie in `0..=23`.
#[verifier::external_body]
pub(crate) fn new_york_hour_of(ms: i64) -> (hour: u32)
    requires
        new_york_representable(ms as int),
    ensures
        hour as int == new_york_hour(ms),
        hour < 24,
{
    DateTime::<Utc>::from_timestamp_millis(ms).unwrap().with_timezone(&New_York).hour()
}

} // verus!

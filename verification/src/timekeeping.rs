//! The calls into `chrono`. Each function here is believed, not proved: its
//! contract restates what `chrono` documents, over the day count of
//! [`crate::date`].

use crate::date::{is_calendar_date, Date};
use chrono::Datelike;
use vstd::prelude::*;

verus! {

/// Years whose dates are handed to `chrono`: the common era up to four digits.
pub open spec fn in_common_era(date: Date) -> bool {
    date.is_valid() && 1 <= date.year <= 9999
}

/// Timestamps whose local dates lie in the years 2 to 9998 under any offset.
pub open spec fn is_common_era_timestamp(timestamp: i64) -> bool {
    -62_000_000_000 <= timestamp <= 253_000_000_000
}

/// `chrono::NaiveDate::from_ymd_opt`: the date with these three numbers where
/// such a day exists in the calendar, and nothing otherwise.
#[verifier::external_body]
pub(crate) fn date_from_ymd(year: i32, month: u32, day: u32) -> (r: Option<Date>)
    requires
        1 <= year <= 9999,
    ensures
        r == if is_calendar_date(year as int, month as int, day as int) {
            Some(Date { year, month, day })
        } else {
            None::<Date>
        },
{
    match chrono::NaiveDate::from_ymd_opt(year, month, day) {
        Some(d) => Some(Date { year: d.year(), month: d.month(), day: d.day() }),
        None => None,
    }
}

/// `NaiveDate + chrono::Days`: the date that many days later.
#[verifier::external_body]
pub(crate) fn date_plus_days(date: Date, days: u64) -> (r: Date)
    requires
        in_common_era(date),
        date.year <= 9000,
        days <= 1000,
    ensures
        r.is_valid(),
        r.epoch_day() == date.epoch_day() + days,
{
    let d = chrono::NaiveDate::from_ymd_opt(date.year, date.month, date.day).unwrap()
        + chrono::Days::new(days);
    Date { year: d.year(), month: d.month(), day: d.day() }
}

/// `NaiveDate - chrono::Days`: the date that many days earlier.
#[verifier::external_body]
pub(crate) fn date_minus_days(date: Date, days: u64) -> (r: Date)
    requires
        in_common_era(date),
        date.year >= 1000,
        days <= 1000,
    ensures
        r.is_valid(),
        r.epoch_day() == date.epoch_day() - days,
{
    let d = chrono::NaiveDate::from_ymd_opt(date.year, date.month, date.day).unwrap()
        - chrono::Days::new(days);
    Date { year: d.year(), month: d.month(), day: d.day() }
}

/// `Datelike::weekday` and `Weekday::num_days_from_monday`: the day of the
/// week, counted from Monday as 0 to Sunday as 6.
#[verifier::external_body]
pub(crate) fn days_from_monday(date: Date) -> (r: u32)
    requires
        in_common_era(date),
    ensures
        r == date.weekday(),
{
    chrono::NaiveDate::from_ymd_opt(date.year, date.month, date.day)
        .unwrap()
        .weekday()
        .num_days_from_monday()
}

/// `DateTime::from_timestamp`, `with_timezone` to a `FixedOffset` and
/// `date_naive`: the calendar date that a clock `offset_seconds` east of UTC
/// shows at `timestamp` seconds after the start of 1970 in UTC.
#[verifier::external_body]
pub(crate) fn local_date(timestamp: i64, offset_seconds: i32) -> (r: Date)
    requires
        is_common_era_timestamp(timestamp),
        -86_400 < offset_seconds < 86_400,
    ensures
        r.is_valid(),
        r.epoch_day() == (timestamp + offset_seconds) / 86_400,
{
    let zone = chrono::FixedOffset::east_opt(offset_seconds).unwrap();
    let d = chrono::DateTime::from_timestamp(timestamp, 0).unwrap().with_timezone(&zone).date_naive();
    Date { year: d.year(), month: d.month(), day: d.day() }
}

/// `NaiveDate::and_hms_opt`, `and_local_timezone` with a `FixedOffset` and
/// `DateTime::timestamp`: the seconds from the start of 1970 in UTC to the
/// full hour `hour` of `date` on a clock `offset_seconds` east of UTC.
#[verifier::external_body]
pub(crate) fn local_hour_timestamp(date: Date, hour: u32, offset_seconds: i32) -> (r: i64)
    requires
        in_common_era(date),
        hour < 24,
        -86_400 < offset_seconds < 86_400,
    ensures
        r == date.epoch_day() * 86_400 + hour * 3_600 - offset_seconds,
{
    let zone = chrono::FixedOffset::east_opt(offset_seconds).unwrap();
    chrono::NaiveDate::from_ymd_opt(date.year, date.month, date.day)
        .unwrap()
        .and_hms_opt(hour, 0, 0)
        .unwrap()
        .and_local_timezone(zone)
        .unwrap()
        .timestamp()
}

/// `chrono::Local::now` and `DateTime::timestamp`: what the system clock
/// shows, in seconds from the start of 1970 in UTC. Nothing is known of it.
#[verifier::external_body]
pub(crate) fn current_timestamp() -> i64 {
    chrono::Local::now().timestamp()
}

} // verus!

//! A snapshot and the decision whether the bank has published since it was
//! taken.

use crate::date::{lemma_epoch_day_injective, lemma_supported_days, Date, MAX_YEAR, MIN_YEAR};
use crate::holiday::{is_holiday_date, Hollidays};
use crate::timekeeping::{
    current_timestamp, date_plus_days, days_from_monday, local_date, local_hour_timestamp,
};
use vstd::prelude::*;
use vstd::std_specs::cmp::{PartialEqSpec, PartialEqSpecImpl};

verus! {

/// Seconds by which the bank's clock is ahead of UTC.
pub const CET_OFFSET_SECONDS: i32 = 3600;

/// Hour of the bank's clock at which an open day's rates are published.
pub const PUBLISH_HOUR: u32 = 16;

/// The first second of the first supported year on the bank's clock.
pub const MIN_TIMESTAMP: i64 = -12_212_557_200;

/// The last second of the last supported year on the bank's clock.
pub const MAX_TIMESTAMP: i64 = 67_216_345_199;

/// Whether the bank's clock shows a date of a supported year at `timestamp`.
pub open spec fn is_supported_timestamp(timestamp: i64) -> bool {
    MIN_TIMESTAMP <= timestamp <= MAX_TIMESTAMP
}

/// The day count of the date that the bank's clock shows at `timestamp`.
pub open spec fn local_day(timestamp: int) -> int {
    (timestamp + CET_OFFSET_SECONDS) / 86_400
}

/// Whether `date` is a Saturday or a Sunday.
pub open spec fn is_weekend(date: Date) -> bool {
    date.weekday() >= 5
}

/// Whether the bank publishes on `date`: neither a weekend nor a holiday.
pub open spec fn is_open_day(date: Date) -> bool {
    !is_weekend(date) && !is_holiday_date(date)
}

/// The second at which the rates of `date` would be published.
pub open spec fn publish_instant(date: Date) -> int {
    date.epoch_day() * 86_400 + PUBLISH_HOUR * 3600 - CET_OFFSET_SECONDS
}

/// Whether the bank published on `date`, after `saved` and no later than `now`.
pub open spec fn publishes_within(date: Date, saved: int, now: int) -> bool {
    date.is_valid() && is_open_day(date) && saved < publish_instant(date) <= now
}

/// Whether the bank published at all after `saved` and no later than `now`.
pub open spec fn published_between(saved: int, now: int) -> bool {
    exists|date: Date| publishes_within(date, saved, now)
}

/// What a snapshot taken at `saved` is worth at `now`: it stands while it is
/// not from the future and nothing was published since.
pub open spec fn still_current(saved: int, now: int) -> bool {
    saved <= now && !published_between(saved, now)
}

/// Whether no valid date with a day count below `day` saw a publication after
/// `saved` and no later than `now`.
pub open spec fn no_publication_before(day: int, saved: int, now: int) -> bool {
    forall|d: Date| d.is_valid() && d.epoch_day() < day ==> !#[trigger] publishes_within(d, saved, now)
}

/// Whether the bank publishes on `date`, by the calendar of its year.
pub fn is_open(date: &Date, calendar: &Hollidays) -> (r: bool)
    requires
        date.is_supported(),
        calendar.year() == date.year,
    ensures
        r == is_open_day(*date),
{
    let weekday: u32 = days_from_monday(*date);
    let is_weekend: bool = weekday == 5 || weekday == 6;
    let is_holiday: bool = calendar.is_holliday(date);
    !(is_weekend || is_holiday)
}

/// A day whose publish instant does not lie after `saved` and no later than
/// `now`, or which is closed, extends a walk that found no publication.
proof fn lemma_next_day_clear(today: Date, saved: int, now: int)
    requires
        today.is_valid(),
        no_publication_before(today.epoch_day(), saved, now),
        !publishes_within(today, saved, now),
    ensures
        no_publication_before(today.epoch_day() + 1, saved, now),
{
    assert forall|d: Date| d.is_valid() && d.epoch_day() < today.epoch_day() + 1 implies !#[trigger] publishes_within(
        d,
        saved,
        now,
    ) by {
        if d.epoch_day() == today.epoch_day() {
            lemma_epoch_day_injective(d, today);
        }
    }
}

/// A publication after `saved` and no later than `now` falls on a day from
/// the one of `saved` to the one of `now`.
pub proof fn lemma_publication_day(date: Date, saved: int, now: int)
    requires
        publishes_within(date, saved, now),
    ensures
        local_day(saved) <= date.epoch_day() <= local_day(now),
{
    let day = date.epoch_day();
    if day < local_day(saved) {
        assert(publish_instant(date) <= (local_day(saved) - 1) * 86_400 + 54_000);
    }
    if day > local_day(now) {
        assert(publish_instant(date) >= (local_day(now) + 1) * 86_400 + 54_000);
    }
}

/// Days before the one of `saved` published too early to count.
proof fn lemma_walk_start(saved: int, now: int)
    ensures
        no_publication_before(local_day(saved), saved, now),
{
    assert forall|d: Date| d.is_valid() && d.epoch_day() < local_day(saved) implies !#[trigger] publishes_within(
        d,
        saved,
        now,
    ) by {
        if publishes_within(d, saved, now) {
            lemma_publication_day(d, saved, now);
        }
    }
}

/// Days after the one of `now` publish too late to count: a walk that went
/// past it without a publication has seen them all.
proof fn lemma_walk_complete(day: int, saved: int, now: int)
    requires
        day > local_day(now),
        no_publication_before(day, saved, now),
    ensures
        !published_between(saved, now),
{
    assert forall|d: Date| !publishes_within(d, saved, now) by {
        if publishes_within(d, saved, now) {
            lemma_publication_day(d, saved, now);
        }
    }
}

/// The seconds from `MIN_TIMESTAMP` to `MAX_TIMESTAMP` are those at which the
/// bank's clock shows a date of a supported year.
pub proof fn lemma_supported_timestamps(timestamp: i64, date: Date)
    requires
        date.is_valid(),
        date.epoch_day() == local_day(timestamp as int),
    ensures
        is_supported_timestamp(timestamp) <==> date.is_supported(),
{
    lemma_supported_days(date);
}

/// Whether two lists of rates are equal entry by entry.
pub open spec fn same_rates<T: PartialEq>(held: Seq<T>, fetched: Seq<T>) -> bool {
    &&& held.len() == fetched.len()
    &&& forall|i: int| 0 <= i < held.len() ==> #[trigger] held[i].eq_spec(&fetched[i])
}

/// Rates as they were fetched, with the second at which that happened.
#[derive(Debug)]
pub struct CacheLine<T> {
    date: i64,
    pub exchange_rate_results: Vec<T>,
}

impl<T> CacheLine<T> {
    /// The second at which the snapshot was taken.
    pub closed spec fn saved_at(&self) -> i64 {
        self.date
    }

    /// The rates held.
    pub closed spec fn payload(&self) -> Seq<T> {
        self.exchange_rate_results@
    }

    /// The second at which the snapshot was taken, counted from the start of
    /// 1970 in UTC.
    pub fn timestamp(&self) -> (r: i64)
        ensures
            r == self.saved_at(),
    {
        self.date
    }

    /// A snapshot of `exchange_rate_results` taken at `date`.
    pub fn with_timestamp(exchange_rate_results: Vec<T>, date: i64) -> (r: Self)
        ensures
            r.saved_at() == date,
            r.payload() == exchange_rate_results@,
    {
        Self { date, exchange_rate_results }
    }

    /// A snapshot of `exchange_rate_results` taken now.
    pub fn new(exchange_rate_results: Vec<T>) -> (r: Self)
        ensures
            r.payload() == exchange_rate_results@,
    {
        let date = current_timestamp();
        Self { exchange_rate_results, date }
    }

    /// Whether the snapshot is still current at `now`.
    pub fn is_valid_at(&self, now: i64) -> (r: bool)
        requires
            self.saved_at() <= now ==> is_supported_timestamp(self.saved_at())
                && is_supported_timestamp(now),
        ensures
            r == still_current(self.saved_at() as int, now as int),
    {
        let saved = self.date;
        // A snapshot from the future can vouch for nothing.
        if saved > now {
            return false;
        }
        let end_day = local_date(now, CET_OFFSET_SECONDS);
        let mut day_iter = local_date(saved, CET_OFFSET_SECONDS);
        proof {
            lemma_supported_days(day_iter);
        }
        let mut calendar = Hollidays::new(day_iter.year);
        proof {
            lemma_walk_start(saved as int, now as int);
        }

        while day_iter.on_or_before(&end_day)
            invariant
                saved == self.saved_at(),
                saved <= now,
                is_supported_timestamp(saved),
                is_supported_timestamp(now),
                day_iter.is_valid(),
                end_day.is_valid(),
                end_day.epoch_day() == local_day(now as int),
                local_day(saved as int) <= day_iter.epoch_day() <= end_day.epoch_day() + 1,
                no_publication_before(day_iter.epoch_day(), saved as int, now as int),
            decreases end_day.epoch_day() + 1 - day_iter.epoch_day(),
        {
            proof {
                lemma_supported_days(day_iter);
            }
            if day_iter.year != calendar.year() {
                calendar = Hollidays::new(day_iter.year);
            }
            if is_open(&day_iter, &calendar) {
                // The day is open: its rates come out at the publish hour.
                let publish_time: i64 = local_hour_timestamp(
                    day_iter,
                    PUBLISH_HOUR,
                    CET_OFFSET_SECONDS,
                );
                if publish_time > saved && publish_time <= now {
                    assert(publishes_within(day_iter, saved as int, now as int));
                    return false;
                }
            }
            proof {
                lemma_next_day_clear(day_iter, saved as int, now as int);
            }
            day_iter = date_plus_days(day_iter, 1);
        }
        proof {
            lemma_walk_complete(day_iter.epoch_day(), saved as int, now as int);
        }
        true
    }

    /// Whether the snapshot is still current at `now`, where the bank's clock
    /// shows dates of supported years at both seconds; `None` where it does
    /// not and the snapshot is not from the future.
    pub fn try_is_valid_at(&self, now: i64) -> (r: Option<bool>)
        ensures
            r == if self.saved_at() <= now && !(is_supported_timestamp(self.saved_at())
                && is_supported_timestamp(now)) {
                None
            } else {
                Some(still_current(self.saved_at() as int, now as int))
            },
    {
        if self.date <= now && !(MIN_TIMESTAMP <= self.date && now <= MAX_TIMESTAMP) {
            None
        } else {
            Some(self.is_valid_at(now))
        }
    }

    /// Whether the snapshot is still current by the system clock. A clock
    /// outside the supported years vouches for nothing.
    pub fn is_valid(&self) -> (r: bool)
        ensures
            !is_supported_timestamp(self.saved_at()) ==> !r,
            exists|now: i64|
                r == (#[trigger] verdict_at(self.saved_at(), now) == Some(true)),
    {
        let now = current_timestamp();
        let verdict = self.try_is_valid_at(now);
        assert(verdict == verdict_at(self.saved_at(), now));
        match verdict {
            Some(valid) => valid,
            None => false,
        }
    }
}

/// What can be said at `now` of a snapshot taken at `saved`: whether it is
/// still current, or nothing where it is not from the future and the bank's
/// clock does not show dates of supported years at both seconds.
pub open spec fn verdict_at(saved: i64, now: i64) -> Option<bool> {
    if saved <= now && !(is_supported_timestamp(saved) && is_supported_timestamp(now)) {
        None
    } else {
        Some(still_current(saved as int, now as int))
    }
}

impl<T: PartialEq> PartialEq<Vec<T>> for CacheLine<T> {
    /// Whether the rates held are `other`, whenever they were fetched.
    fn eq(&self, other: &Vec<T>) -> (r: bool) {
        self.exchange_rate_results == *other
    }
}

impl<T: PartialEq> PartialEqSpecImpl<Vec<T>> for CacheLine<T> {
    open spec fn obeys_eq_spec() -> bool {
        T::obeys_eq_spec()
    }

    open spec fn eq_spec(&self, other: &Vec<T>) -> bool {
        same_rates(self.payload(), other@)
    }
}

/// A snapshot from the future is never current.
pub proof fn lemma_future_snapshot_invalid(saved: int, now: int)
    requires
        saved > now,
    ensures
        !still_current(saved, now),
{
}

/// A snapshot taken before the publish hour is current for as long as that
/// hour of the same day has not come.
pub proof fn lemma_current_before_publish_hour(day: Date, saved: int, now: int)
    requires
        day.is_valid(),
        local_day(saved) == day.epoch_day(),
        local_day(now) == day.epoch_day(),
        saved <= now < publish_instant(day),
    ensures
        still_current(saved, now),
{
    assert forall|d: Date| !publishes_within(d, saved, now) by {
        if publishes_within(d, saved, now) {
            lemma_publication_day(d, saved, now);
            lemma_epoch_day_injective(d, day);
        }
    }
}

/// A snapshot taken before the publish hour of an open day is no longer
/// current once that hour has come.
pub proof fn lemma_stale_after_publish_hour(day: Date, saved: int, now: int)
    requires
        day.is_valid(),
        is_open_day(day),
        saved < publish_instant(day) <= now,
    ensures
        !still_current(saved, now),
{
    assert(publishes_within(day, saved, now));
}

/// A snapshot taken at or after the publish hour is current for the rest of
/// that day.
pub proof fn lemma_current_after_publish_hour(day: Date, saved: int, now: int)
    requires
        day.is_valid(),
        local_day(saved) == day.epoch_day(),
        local_day(now) == day.epoch_day(),
        publish_instant(day) <= saved <= now,
    ensures
        still_current(saved, now),
{
    assert forall|d: Date| !publishes_within(d, saved, now) by {
        if publishes_within(d, saved, now) {
            lemma_publication_day(d, saved, now);
            lemma_epoch_day_injective(d, day);
        }
    }
}

/// A snapshot stays current, however old, while every day from its own to
/// the one of `now` is a weekend or a holiday.
pub proof fn lemma_current_over_closed_days(saved: int, now: int)
    requires
        saved <= now,
        forall|d: Date|
            d.is_valid() && local_day(saved) <= #[trigger] d.epoch_day() <= local_day(now)
                ==> !is_open_day(d),
    ensures
        still_current(saved, now),
{
    assert forall|d: Date| !publishes_within(d, saved, now) by {
        if publishes_within(d, saved, now) {
            lemma_publication_day(d, saved, now);
        }
    }
}

/// A snapshot is current exactly when it is not from the future and no open
/// day from its own to the one of `now` has its publish hour after the
/// snapshot and no later than `now`.
pub proof fn lemma_current_iff_no_open_day_between(saved: int, now: int)
    ensures
        still_current(saved, now) <==> saved <= now && forall|d: Date|
            d.is_valid() && local_day(saved) <= #[trigger] d.epoch_day() <= local_day(now)
                && is_open_day(d) ==> !(saved < publish_instant(d) <= now),
{
    if saved <= now && !still_current(saved, now) {
        let d = choose|d: Date| publishes_within(d, saved, now);
        lemma_publication_day(d, saved, now);
    }
    if still_current(saved, now) {
        assert forall|d: Date|
            d.is_valid() && local_day(saved) <= #[trigger] d.epoch_day() <= local_day(now)
                && is_open_day(d) implies !(saved < publish_instant(d) <= now) by {
            if saved < publish_instant(d) <= now {
                assert(publishes_within(d, saved, now));
            }
        }
    }
}

} // verus!

//! Calendar dates as plain numbers, and the day count that orders them.

use vstd::prelude::*;

verus! {

/// Day count of the first day of the first supported year.
pub const MIN_EPOCH_DAY: i32 = -141_349;

/// Day count of the last day of the last supported year.
pub const MAX_EPOCH_DAY: i32 = 777_966;

/// First year for which calendars are built.
pub const MIN_YEAR: i32 = 1583;

/// Last year for which calendars are built.
pub const MAX_YEAR: i32 = 4099;

/// A date of the proleptic Gregorian calendar.
#[derive(Clone, Copy, Debug, PartialEq, Eq, Structural)]
pub struct Date {
    pub year: i32,
    pub month: u32,
    pub day: u32,
}

/// Whether `year` has a 29th of February.
pub open spec fn is_leap_year(year: int) -> bool {
    year % 4 == 0 && (year % 100 != 0 || year % 400 == 0)
}

/// Number of days of month `month` in `year`.
pub open spec fn days_in_month(year: int, month: int) -> int {
    if month == 2 {
        if is_leap_year(year) {
            29
        } else {
            28
        }
    } else if month == 4 || month == 6 || month == 9 || month == 11 {
        30
    } else {
        31
    }
}

/// Days of `year` that lie before the first of `month`.
pub open spec fn days_before_month(year: int, month: int) -> int {
    let leap: int = if month > 2 && is_leap_year(year) {
        1
    } else {
        0
    };
    let before: int = if month <= 1 {
        0
    } else if month == 2 {
        31
    } else if month == 3 {
        59
    } else if month == 4 {
        90
    } else if month == 5 {
        120
    } else if month == 6 {
        151
    } else if month == 7 {
        181
    } else if month == 8 {
        212
    } else if month == 9 {
        243
    } else if month == 10 {
        273
    } else if month == 11 {
        304
    } else {
        334
    };
    before + leap
}

/// Days between the first of January of year 1 and the first of January of `year`.
pub open spec fn days_before_year(year: int) -> int {
    365 * (year - 1) + (year - 1) / 4 - (year - 1) / 100 + (year - 1) / 400
}

/// Days from the first of January 1970 to the given date; negative before it.
#[verifier::opaque]
pub open spec fn epoch_day_of(year: int, month: int, day: int) -> int {
    days_before_year(year) + days_before_month(year, month) + day - 719163
}

/// Whether the three numbers name a day that exists.
pub open spec fn is_calendar_date(year: int, month: int, day: int) -> bool {
    1 <= month <= 12 && 1 <= day <= days_in_month(year, month)
}

impl Date {
    /// The date names a day that exists.
    pub open spec fn is_valid(&self) -> bool {
        is_calendar_date(self.year as int, self.month as int, self.day as int)
    }

    /// The date is valid and its year is one for which calendars are built.
    pub open spec fn is_supported(&self) -> bool {
        self.is_valid() && MIN_YEAR <= self.year <= MAX_YEAR
    }

    /// Days from the first of January 1970 to this date.
    pub open spec fn epoch_day(&self) -> int {
        epoch_day_of(self.year as int, self.month as int, self.day as int)
    }

    /// The day of the week, counted from Monday as 0 to Sunday as 6. The first
    /// of January 1970 was a Thursday.
    pub open spec fn weekday(&self) -> int {
        (self.epoch_day() + 3) % 7
    }

    /// Calendar order: by year, then month, then day.
    pub open spec fn precedes(&self, other: &Date) -> bool {
        self.year < other.year || (self.year == other.year && (self.month < other.month || (
        self.month == other.month && self.day < other.day)))
    }

    /// Whether this date is `other` or an earlier day.
    pub fn on_or_before(&self, other: &Date) -> (r: bool)
        requires
            self.is_valid(),
            other.is_valid(),
        ensures
            r == (self.epoch_day() <= other.epoch_day()),
    {
        proof {
            lemma_epoch_day_order(*self, *other);
            lemma_epoch_day_order(*other, *self);
        }
        if self.year != other.year {
            self.year < other.year
        } else if self.month != other.month {
            self.month < other.month
        } else {
            self.day <= other.day
        }
    }
}

/// Stepping the dividend by one raises a quotient exactly at the multiples of the divisor.
proof fn lemma_quotient_step(n: int, k: int)
    requires
        k == 4 || k == 100 || k == 400,
    ensures
        (n + 1) / k == n / k + if (n + 1) % k == 0 {
            1int
        } else {
            0int
        },
{
    if k == 4 {
        assert((n + 1) / 4 == n / 4 + if (n + 1) % 4 == 0 {
            1int
        } else {
            0int
        });
    } else if k == 100 {
        assert((n + 1) / 100 == n / 100 + if (n + 1) % 100 == 0 {
            1int
        } else {
            0int
        });
    } else {
        assert((n + 1) / 400 == n / 400 + if (n + 1) % 400 == 0 {
            1int
        } else {
            0int
        });
    }
}

/// A year has 365 days, or 366 when it is a leap year.
pub proof fn lemma_year_length(year: int)
    ensures
        days_before_year(year + 1) - days_before_year(year) == if is_leap_year(year) {
            366int
        } else {
            365int
        },
{
    lemma_quotient_step(year - 1, 4);
    lemma_quotient_step(year - 1, 100);
    lemma_quotient_step(year - 1, 400);
    assert(year % 400 == 0 ==> year % 100 == 0);
    assert(year % 100 == 0 ==> year % 4 == 0);
}

/// Later years start later, by at least 365 days for each year between.
pub proof fn lemma_years_advance(y1: int, y2: int)
    requires
        y1 <= y2,
    ensures
        days_before_year(y2) - days_before_year(y1) >= 365 * (y2 - y1),
    decreases y2 - y1,
{
    if y1 < y2 {
        lemma_years_advance(y1, y2 - 1);
        lemma_year_length(y2 - 1);
    }
}

/// The day count orders valid dates as the calendar does.
pub proof fn lemma_epoch_day_order(a: Date, b: Date)
    requires
        a.is_valid(),
        b.is_valid(),
    ensures
        a.precedes(&b) ==> a.epoch_day() < b.epoch_day(),
        a == b ==> a.epoch_day() == b.epoch_day(),
{
    reveal(epoch_day_of);
    if a.year < b.year {
        lemma_years_advance(a.year + 1, b.year as int);
        lemma_year_length(a.year as int);
    }
}

/// Two valid dates with the same day count are the same date.
pub proof fn lemma_epoch_day_injective(a: Date, b: Date)
    requires
        a.is_valid(),
        b.is_valid(),
        a.epoch_day() == b.epoch_day(),
    ensures
        a == b,
{
    lemma_epoch_day_order(a, b);
    lemma_epoch_day_order(b, a);
}

/// A valid date whose day count lies between the first day of year `first`
/// and the last day of year `last` is a date of one of those years.
pub proof fn lemma_year_within(date: Date, first: int, last: int)
    requires
        date.is_valid(),
        i32::MIN <= first <= i32::MAX,
        i32::MIN <= last <= i32::MAX,
        epoch_day_of(first, 1, 1) <= date.epoch_day() <= epoch_day_of(last, 12, 31),
    ensures
        first <= date.year <= last,
{
    let opening = Date { year: first as i32, month: 1, day: 1 };
    let closing = Date { year: last as i32, month: 12, day: 31 };
    lemma_epoch_day_order(date, opening);
    lemma_epoch_day_order(closing, date);
}

/// The supported years are those of the days counted from `MIN_EPOCH_DAY` to
/// `MAX_EPOCH_DAY`.
pub proof fn lemma_supported_days(date: Date)
    requires
        date.is_valid(),
    ensures
        date.is_supported() <==> MIN_EPOCH_DAY <= date.epoch_day() <= MAX_EPOCH_DAY,
{
    let opening = Date { year: MIN_YEAR, month: 1, day: 1 };
    let closing = Date { year: MAX_YEAR, month: 12, day: 31 };
    assert(opening.epoch_day() == MIN_EPOCH_DAY && closing.epoch_day() == MAX_EPOCH_DAY) by {
        reveal(epoch_day_of);
    }
    lemma_epoch_day_order(date, opening);
    lemma_epoch_day_order(opening, date);
    lemma_epoch_day_order(closing, date);
    lemma_epoch_day_order(date, closing);
}

} // verus!

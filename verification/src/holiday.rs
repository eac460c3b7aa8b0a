//! The days on which the European Central Bank does not publish.

use crate::date::{
    days_before_month, days_before_year, epoch_day_of, is_leap_year, lemma_epoch_day_injective,
    lemma_year_length, lemma_year_within, Date, MAX_YEAR, MIN_YEAR,
};
use crate::timekeeping::{date_from_ymd, date_minus_days, date_plus_days};
use vstd::prelude::*;

verus! {

/// Easter Sunday of `year`, by the Gregorian computus in closed form.
pub open spec fn easter_sunday(year: int) -> Date {
    let a = year % 19;
    let b = year / 100;
    let c = year % 100;
    let d = b / 4;
    let e = b % 4;
    let f = (b + 8) / 25;
    let g = (b - f + 1) / 3;
    let h = (19 * a + b - d - g + 15) % 30;
    let i = c / 4;
    let k = c % 4;
    let l = (32 + 2 * e + 2 * i - h - k) % 7;
    let m = (a + 11 * h + 22 * l) / 451;
    let n = h + l - 7 * m + 114;
    Date { year: year as i32, month: (n / 31) as u32, day: (n % 31 + 1) as u32 }
}

/// Whether the day `day` of month `month` is closed in every year.
pub open spec fn is_fixed_holiday(month: int, day: int) -> bool {
    (month == 1 && day == 1) || (month == 5 && (day == 1 || day == 9)) || (month == 10 && day == 3)
        || (month == 11 && day == 1) || (month == 12 && (day == 24 || day == 25 || day == 26 || day
        == 31))
}

/// Whether a day that many days after Easter Sunday is closed: Easter Sunday
/// itself, Easter Monday, Good Friday, Ascension Day, Whit Monday and Corpus
/// Christi.
pub open spec fn is_easter_offset(days: int) -> bool {
    days == 0 || days == 1 || days == -2 || days == 39 || days == 50 || days == 60
}

/// Whether `date` is a holiday of its own year.
#[verifier::opaque]
pub open spec fn is_holiday_date(date: Date) -> bool {
    is_fixed_holiday(date.month as int, date.day as int) || is_easter_offset(
        date.epoch_day() - easter_sunday(date.year as int).epoch_day(),
    )
}

/// The holidays of one year.
#[derive(Debug, Clone, Copy)]
pub struct Hollidays {
    year: i32,
    hollidays: [Date; 15],
}

/// Whether `dates` are the holidays of `year`, and no others.
pub open spec fn are_holidays_of(dates: Seq<Date>, year: i32) -> bool {
    &&& dates.len() == 15
    &&& forall|d: Date| #[trigger]
        dates.contains(d) <==> d.is_valid() && d.year == year && is_holiday_date(d)
}

impl Hollidays {
    #[verifier::type_invariant]
    spec fn holds_the_holidays_of_its_year(&self) -> bool {
        MIN_YEAR <= self.year <= MAX_YEAR && are_holidays_of(self.hollidays@, self.year)
    }

    /// The dates held, in the order in which they were entered.
    pub closed spec fn view(&self) -> Seq<Date> {
        self.hollidays@
    }

    /// Whether the dates held are the holidays of `year`, and no others.
    /// This holds of every calendar that a program can hold, for its own
    /// year.
    pub open spec fn is_calendar_of(&self, year: i32) -> bool {
        self.year() == year && are_holidays_of(self@, year)
    }

    /// The year whose holidays are held.
    #[verifier::when_used_as_spec(spec_year)]
    pub fn year(&self) -> (r: i32)
        ensures
            r == self.year(),
            MIN_YEAR <= r <= MAX_YEAR,
            self.is_calendar_of(r),
    {
        proof {
            use_type_invariant(self);
        }
        self.year
    }

    /// The year whose holidays are held.
    pub closed spec fn spec_year(&self) -> i32 {
        self.year
    }

    /// Whether `date` is a holiday of the calendar's year.
    pub fn is_holliday(&self, date: &Date) -> (r: bool)
        ensures
            r == (date.is_valid() && date.year == self.year() && is_holiday_date(*date)),
            r == self@.contains(*date),
    {
        proof {
            use_type_invariant(self);
        }
        let mut i: usize = 0;
        while i < 15
            invariant
                i <= 15,
                are_holidays_of(self.hollidays@, self.year),
                forall|j: int| 0 <= j < i ==> self.hollidays@[j] != *date,
            decreases 15 - i,
        {
            if self.hollidays[i] == *date {
                assert(self.hollidays@[i as int] == *date);
                assert(self.hollidays@.contains(*date));
                return true;
            }
            i += 1;
        }
        assert(!self.hollidays@.contains(*date));
        false
    }

    /// The holidays of `year`: nine fixed dates, Easter Sunday, and the five
    /// days that move with it.
    pub fn new(year: i32) -> (r: Self)
        requires
            MIN_YEAR <= year <= MAX_YEAR,
        ensures
            r.is_calendar_of(year),
    {
        let easter_sunday = Self::calc_easter_sunday(year);
        let easter_monday = date_plus_days(easter_sunday, 1);
        let good_friday = date_minus_days(easter_sunday, 2);
        let ascension_day = date_plus_days(easter_sunday, 39);
        let whit_monday = date_plus_days(easter_sunday, 50);
        let corpus_christi = date_plus_days(easter_sunday, 60);
        let new_years_day = date_from_ymd(year, 1, 1).unwrap();
        let labour_day = date_from_ymd(year, 5, 1).unwrap();
        let robert_schuman_declaration = date_from_ymd(year, 5, 9).unwrap();
        let german_unity_day = date_from_ymd(year, 10, 3).unwrap();
        let all_saints_day = date_from_ymd(year, 11, 1).unwrap();
        let christmas_eve = date_from_ymd(year, 12, 24).unwrap();
        let christmas_day = date_from_ymd(year, 12, 25).unwrap();
        let christmas_holiday = date_from_ymd(year, 12, 26).unwrap();
        let new_years_eve = date_from_ymd(year, 12, 31).unwrap();

        let hollidays = [
            easter_sunday,
            easter_monday,
            good_friday,
            ascension_day,
            whit_monday,
            corpus_christi,
            new_years_day,
            labour_day,
            robert_schuman_declaration,
            german_unity_day,
            all_saints_day,
            christmas_eve,
            christmas_day,
            christmas_holiday,
            new_years_eve,
        ];
        let ghost r = hollidays;
        proof {
            reveal(epoch_day_of);
            reveal(is_holiday_date);
            lemma_year_within(easter_monday, year as int, year as int);
            lemma_year_within(good_friday, year as int, year as int);
            lemma_year_within(ascension_day, year as int, year as int);
            lemma_year_within(whit_monday, year as int, year as int);
            lemma_year_within(corpus_christi, year as int, year as int);
            assert forall|d: Date| #[trigger] r@.contains(d) implies d.is_valid() && d.year == year
                && is_holiday_date(d) by {
                let i = choose|i: int| 0 <= i < 15 && r@[i] == d;
                assert(r@[i] == d);
            }
            assert forall|d: Date| d.is_valid() && d.year == year && is_holiday_date(d) implies #[trigger]
                r@.contains(d) by {
                let off = d.epoch_day() - easter_sunday.epoch_day();
                if is_fixed_holiday(d.month as int, d.day as int) {
                    assert(d == r@[6] || d == r@[7] || d == r@[8] || d == r@[9] || d == r@[10] || d
                        == r@[11] || d == r@[12] || d == r@[13] || d == r@[14]);
                } else {
                    let j: int = if off == 0 {
                        0
                    } else if off == 1 {
                        1
                    } else if off == -2 {
                        2
                    } else if off == 39 {
                        3
                    } else if off == 50 {
                        4
                    } else {
                        5
                    };
                    lemma_epoch_day_injective(d, r@[j]);
                    assert(r@[j] == d);
                }
            }
        }
        Self { year, hollidays }
    }

    /// The holidays of `year` where it is one of the years for which
    /// calendars are built, and nothing otherwise.
    pub fn try_new(year: i32) -> (r: Option<Self>)
        ensures
            r is Some <==> MIN_YEAR <= year <= MAX_YEAR,
            r is Some ==> r.unwrap().is_calendar_of(year),
    {
        if MIN_YEAR <= year && year <= MAX_YEAR {
            Some(Self::new(year))
        } else {
            None
        }
    }

    /// Easter Sunday of `year`.
    pub fn calc_easter_sunday(year: i32) -> (r: Date)
        requires
            MIN_YEAR <= year <= MAX_YEAR,
        ensures
            r == easter_sunday(year as int),
            r.is_valid(),
            r.year == year,
            (r.month == 3 && r.day >= 22) || (r.month == 4 && r.day <= 25),
    {
        let a: i32 = year % 19;
        let b: i32 = year / 100;
        let c: i32 = year % 100;
        let d: i32 = b / 4;
        let e: i32 = b % 4;
        let f: i32 = (b + 8) / 25;
        let g: i32 = (b - f + 1) / 3;
        let h: i32 = (19 * a + b - d - g + 15) % 30;
        let i: i32 = c / 4;
        let k: i32 = c % 4;
        let l: i32 = (32 + 2 * e + 2 * i - h - k) % 7;
        let m: i32 = (a + 11 * h + 22 * l) / 451;
        let month: i32 = (h + l - 7 * m + 114) / 31;
        let day: i32 = (h + l - 7 * m + 114) % 31 + 1;
        let found = date_from_ymd(year, month as u32, day as u32);
        found.unwrap()
    }
}

/// Easter Sunday falls on a day that exists, from the 22nd of March to the
/// 25th of April of its year.
pub proof fn lemma_easter_in_spring(year: int)
    requires
        MIN_YEAR <= year <= MAX_YEAR,
    ensures
        easter_sunday(year).is_valid(),
        easter_sunday(year).year == year,
        (easter_sunday(year).month == 3 && easter_sunday(year).day >= 22) || (easter_sunday(
            year,
        ).month == 4 && easter_sunday(year).day <= 25),
{
}

/// The quotients of a year by 4, 100 and 400, from its century and its year
/// of the century.
proof fn lemma_year_quotients(year: int)
    ensures
        year / 4 == 25 * (year / 100) + (year % 100) / 4,
        year / 400 == (year / 100) / 4,
{
}

/// The days before a year and its leap day, counted by the years that are
/// multiples of 4, 100 and 400 up to the year itself.
proof fn lemma_days_through_leap_day(year: int)
    ensures
        days_before_year(year) + (if is_leap_year(year) {
            1int
        } else {
            0int
        }) == 365 * (year - 1) + year / 4 - year / 100 + year / 400,
{
    lemma_year_length(year);
}

/// The days of the year up to Easter Sunday.
proof fn lemma_easter_ordinal(year: int, n: int)
    requires
        MIN_YEAR <= year <= MAX_YEAR,
        107 <= n <= 149,
        easter_sunday(year).month == n / 31,
        easter_sunday(year).day == n % 31 + 1,
    ensures
        days_before_month(year, easter_sunday(year).month as int) + easter_sunday(year).day == n
            - 33 + if is_leap_year(year) {
            1int
        } else {
            0int
        },
{
}

/// A day count of this shape is that of a Sunday.
proof fn lemma_sunday_count(d: int, e: int, i: int, k: int, h: int, l: int, q: int, m: int)
    requires
        l == 32 + 2 * e + 2 * i - h - k - 7 * q,
    ensures
        (36524 * (4 * d + e) + 365 * (4 * i + k) + i + d - 365 + h + l - 7 * m + 81 - 719163 + 3) % 7
            == 6,
{
    let total = 36524 * (4 * d + e) + 365 * (4 * i + k) + i + d - 365 + h + l - 7 * m + 81;
    assert(total == 7 * (20871 * d + 5218 * e + 209 * i + 52 * k - q - m - 36));
}

/// Easter Sunday is a Sunday.
pub proof fn lemma_easter_is_sunday(year: int)
    requires
        MIN_YEAR <= year <= MAX_YEAR,
    ensures
        easter_sunday(year).weekday() == 6,
{
    let a = year % 19;
    let b = year / 100;
    let c = year % 100;
    let d = b / 4;
    let e = b % 4;
    let f = (b + 8) / 25;
    let g = (b - f + 1) / 3;
    let h = (19 * a + b - d - g + 15) % 30;
    let i = c / 4;
    let k = c % 4;
    let l = (32 + 2 * e + 2 * i - h - k) % 7;
    let q = (32 + 2 * e + 2 * i - h - k) / 7;
    let m = (a + 11 * h + 22 * l) / 451;
    let n = h + l - 7 * m + 114;
    let easter = easter_sunday(year);
    let leap: int = if is_leap_year(year) {
        1
    } else {
        0
    };
    lemma_easter_in_spring(year);
    assert(107 <= n <= 149);
    lemma_easter_ordinal(year, n);
    lemma_year_quotients(year);
    lemma_days_through_leap_day(year);
    lemma_sunday_count(d, e, i, k, h, l, q, m);
    assert(easter.epoch_day() == days_before_year(year) + days_before_month(
        year,
        easter.month as int,
    ) + easter.day - 719163) by {
        reveal(epoch_day_of);
    }
}

} // verus!

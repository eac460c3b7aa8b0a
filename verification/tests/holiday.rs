use chrono::{Datelike, NaiveDate};
use ecb_rates::date::Date;
use ecb_rates::Hollidays;

fn date(year: i32, month: u32, day: u32) -> Date {
    let d = NaiveDate::from_ymd_opt(year, month, day).unwrap();
    Date { year: d.year(), month: d.month(), day: d.day() }
}

#[test]
fn test_holidays_2025() {
    let year = 2025;
    let holliday = Hollidays::new(year);

    let easter_sunday_2025 = date(2025, 4, 20);
    assert!(holliday.is_holliday(&easter_sunday_2025), "Easter Sunday 2025");

    let new_years_2025 = date(2025, 1, 1);
    assert!(holliday.is_holliday(&new_years_2025), "New Year's Day 2025");

    let labour_day_2025 = date(2025, 5, 1);
    assert!(holliday.is_holliday(&labour_day_2025), "Labour Day 2025");

    let random_workday_2025 = date(2025, 2, 10);
    assert!(!holliday.is_holliday(&random_workday_2025), "Random weekday 2025");
}

#[test]
fn test_holidays_2026() {
    let year = 2026;
    let holliday = Hollidays::new(year);

    let easter_sunday_2026 = date(2026, 4, 5);
    assert!(holliday.is_holliday(&easter_sunday_2026), "Easter Sunday 2026");

    let german_unity_day_2026 = date(2026, 10, 3);
    assert!(holliday.is_holliday(&german_unity_day_2026), "Day of German Unity 2026");

    let random_workday_2026 = date(2026, 2, 10);
    assert!(!holliday.is_holliday(&random_workday_2026), "Random weekday 2026");
}

#[test]
fn easter_sunday_anchors() {
    assert_eq!(Hollidays::calc_easter_sunday(2025), date(2025, 4, 20));
    assert_eq!(Hollidays::calc_easter_sunday(2026), date(2026, 4, 5));
    assert_eq!(Hollidays::calc_easter_sunday(2024), date(2024, 3, 31));
    assert_eq!(Hollidays::calc_easter_sunday(2000), date(2000, 4, 23));
}

#[test]
fn easter_sunday_at_the_ends_of_the_range() {
    assert_eq!(Hollidays::calc_easter_sunday(1583), date(1583, 4, 10));
    assert_eq!(Hollidays::calc_easter_sunday(4099), date(4099, 4, 19));
    // The earliest and the latest day on which Easter can fall.
    assert_eq!(Hollidays::calc_easter_sunday(1818), date(1818, 3, 22));
    assert_eq!(Hollidays::calc_easter_sunday(2038), date(2038, 4, 25));
}

#[test]
fn easter_is_a_sunday_in_every_supported_year() {
    for year in 1583..=4099 {
        let easter = Hollidays::calc_easter_sunday(year);
        let d = NaiveDate::from_ymd_opt(easter.year, easter.month, easter.day).unwrap();
        assert_eq!(d.weekday(), chrono::Weekday::Sun, "{}", year);
    }
}

#[test]
fn the_fifteen_holidays_of_2025() {
    let holliday = Hollidays::new(2025);
    let expected = [
        (1, 1),
        (4, 18),
        (4, 20),
        (4, 21),
        (5, 1),
        (5, 9),
        (5, 29),
        (6, 9),
        (6, 19),
        (10, 3),
        (11, 1),
        (12, 24),
        (12, 25),
        (12, 26),
        (12, 31),
    ];
    let mut day = NaiveDate::from_ymd_opt(2025, 1, 1).unwrap();
    let mut found = 0;
    while day.year() == 2025 {
        let is_expected = expected.contains(&(day.month(), day.day()));
        let held = holliday.is_holliday(&date(2025, day.month(), day.day()));
        assert_eq!(held, is_expected, "{}", day);
        if held {
            found += 1;
        }
        day = day.succ_opt().unwrap();
    }
    assert_eq!(found, 15);
    assert_eq!(holliday.year(), 2025);
}

#[test]
fn holidays_belong_to_their_own_year() {
    let holliday = Hollidays::new(2025);
    assert!(!holliday.is_holliday(&date(2026, 1, 1)));
    assert!(!holliday.is_holliday(&date(2024, 12, 25)));
    assert!(!holliday.is_holliday(&date(2026, 4, 5)));
}

#[test]
fn dates_compare_as_the_calendar_orders_them() {
    assert!(date(2025, 1, 31).on_or_before(&date(2025, 2, 1)));
    assert!(date(2024, 12, 31).on_or_before(&date(2025, 1, 1)));
    assert!(date(2025, 3, 7).on_or_before(&date(2025, 3, 7)));
    assert!(!date(2025, 3, 8).on_or_before(&date(2025, 3, 7)));
    assert!(!date(2025, 1, 1).on_or_before(&date(2024, 12, 31)));
}

#[test]
fn calendars_are_built_for_supported_years_only() {
    assert!(Hollidays::try_new(1000).is_none());
    assert!(Hollidays::try_new(9999).is_none());
    assert!(Hollidays::try_new(1582).is_none());
    assert!(Hollidays::try_new(4100).is_none());
    assert!(Hollidays::try_new(i32::MIN).is_none());
    assert!(Hollidays::try_new(i32::MAX).is_none());
    let first = Hollidays::try_new(1583).unwrap();
    assert_eq!(first.year(), 1583);
    assert!(first.is_holliday(&date(1583, 4, 10)));
    let last = Hollidays::try_new(4099).unwrap();
    assert_eq!(last.year(), 4099);
    assert!(last.is_holliday(&date(4099, 12, 31)));
    assert!(last.is_holliday(&date(4099, 6, 18)));
}

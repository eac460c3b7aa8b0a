use ecb_rates::cli::ShowDays;
use ecb_rates::View;

#[test]
fn show_days_reads_all_in_any_case() {
    assert_eq!(ShowDays::parse("all"), Ok(ShowDays::All));
    assert_eq!(ShowDays::parse("ALL"), Ok(ShowDays::All));
    assert_eq!(ShowDays::parse("aLl"), Ok(ShowDays::All));
    assert_eq!("All".parse::<ShowDays>(), Ok(ShowDays::All));
}

#[test]
fn show_days_reads_numbers_as_the_machine_word_does() {
    for text in ["0", "1", "7", "90", "91", "007", "+5", "18446744073709551615", "4294967295"] {
        let expected = text.parse::<usize>().ok().map(ShowDays::Days);
        assert_eq!(ShowDays::parse(text).ok(), expected, "{}", text);
    }
    assert_eq!(ShowDays::parse("90"), Ok(ShowDays::Days(90)));
    assert_eq!(ShowDays::parse("+5"), Ok(ShowDays::Days(5)));
    assert_eq!(ShowDays::parse("007"), Ok(ShowDays::Days(7)));
}

#[test]
fn show_days_refuses_what_the_machine_word_refuses() {
    for text in [
        "",
        "+",
        "-",
        "-1",
        "-0",
        "++1",
        "1+",
        " 1",
        "1 ",
        "1.0",
        "1e3",
        "alll",
        "al",
        "start",
        "١٢",
        "18446744073709551616",
        "99999999999999999999999999",
        "1844674407370955161x",
    ] {
        assert!(text.parse::<usize>().is_err(), "{}", text);
        assert_eq!(
            ShowDays::parse(text),
            Err(format!("Invalid value for since: '{}'. Use a positive integer or 'start'.", text)),
            "{}",
            text
        );
    }
}

#[test]
fn show_days_as_a_count() {
    assert_eq!(ShowDays::Days(0).to_option(), Some(0));
    assert_eq!(ShowDays::Days(12).to_option(), Some(12));
    assert_eq!(ShowDays::All.to_option(), None);
}

#[test]
fn show_days_picks_the_smallest_view() {
    assert_eq!(ShowDays::Days(0).to_view(), None);
    assert_eq!(ShowDays::Days(1).to_view(), Some(View::TODAY));
    assert_eq!(ShowDays::Days(2).to_view(), Some(View::HistDays90));
    assert_eq!(ShowDays::Days(90).to_view(), Some(View::HistDays90));
    assert_eq!(ShowDays::Days(91).to_view(), Some(View::HistDaysAll));
    assert_eq!(ShowDays::Days(usize::MAX).to_view(), Some(View::HistDaysAll));
    assert_eq!(ShowDays::All.to_view(), Some(View::HistDaysAll));
}

#[test]
fn show_days_are_written_as_they_are_read() {
    assert_eq!(ShowDays::All.to_text(), "all");
    assert_eq!(ShowDays::Days(0).to_text(), "0");
    assert_eq!(ShowDays::Days(7).to_text(), "7");
    assert_eq!(ShowDays::Days(90).to_text(), "90");
    assert_eq!(ShowDays::Days(1234567890).to_text(), "1234567890");
    for days in [ShowDays::All, ShowDays::Days(0), ShowDays::Days(10), ShowDays::Days(usize::MAX)] {
        assert_eq!(ShowDays::parse(&days.to_text()), Ok(days));
    }
}

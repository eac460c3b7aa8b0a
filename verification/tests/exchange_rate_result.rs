use ecb_rates::models::ExchangeRateResult;
use ecb_rates::utils_calc::{filter_currencies, is_listed, keep_currencies};

fn table(time: &str, rates: &[(&str, i64)]) -> ExchangeRateResult<i64> {
    let mut t = ExchangeRateResult::new(time.to_string());
    for (currency, rate) in rates {
        t.insert(currency.to_string(), *rate);
    }
    t
}

fn listed(t: &ExchangeRateResult<i64>) -> Vec<(String, i64)> {
    t.rates().clone()
}

fn pairs(rates: &[(&str, i64)]) -> Vec<(String, i64)> {
    rates.iter().map(|(c, r)| (c.to_string(), *r)).collect()
}

#[test]
fn rates_are_held_one_for_each_currency() {
    let mut t = ExchangeRateResult::new("2025-01-08".to_string());
    assert_eq!(t.time(), "2025-01-08");
    assert!(t.rates().is_empty());
    assert_eq!(t.insert("USD".to_string(), 103), None);
    assert_eq!(t.insert("SEK".to_string(), 1150), None);
    assert_eq!(t.insert("USD".to_string(), 104), Some(103));
    assert_eq!(t.rates().len(), 2);
    assert_eq!(t.get("USD"), Some(&104));
    assert_eq!(t.get("SEK"), Some(&1150));
    assert_eq!(t.get("usd"), None);
    assert_eq!(t.position("SEK"), Some(0));
    assert_eq!(t.position("USD"), Some(1));
    assert_eq!(t.position("NOK"), None);
}

#[test]
fn removing_a_rate_leaves_the_others() {
    let mut t = table("d", &[("USD", 1), ("SEK", 2), ("NOK", 3)]);
    assert_eq!(t.remove("SEK"), Some(2));
    assert_eq!(t.remove("SEK"), None);
    assert_eq!(listed(&t), pairs(&[("USD", 1), ("NOK", 3)]));
    assert_eq!(t.time(), "d");
    let (time, rates) = t.into_parts();
    assert_eq!(time, "d");
    assert_eq!(rates, pairs(&[("USD", 1), ("NOK", 3)]));
}

#[test]
fn tables_are_equal_in_whatever_order() {
    let a = table("d", &[("USD", 1), ("SEK", 2), ("NOK", 3)]);
    let b = table("d", &[("NOK", 3), ("USD", 1), ("SEK", 2)]);
    assert!(a == b);
    assert!(b == a);
    assert!(a == a.clone());
    assert!(a != table("e", &[("USD", 1), ("SEK", 2), ("NOK", 3)]));
    assert!(a != table("d", &[("USD", 1), ("SEK", 2)]));
    assert!(a != table("d", &[("USD", 1), ("SEK", 2), ("NOK", 4)]));
    assert!(a != table("d", &[("USD", 1), ("SEK", 2), ("DKK", 3)]));
    assert!(table("d", &[]) == table("d", &[]));
}

#[test]
fn listed_currencies_are_found() {
    let wanted = vec!["USD".to_string(), "SEK".to_string()];
    assert!(is_listed(&wanted, "USD"));
    assert!(is_listed(&wanted, "SEK"));
    assert!(!is_listed(&wanted, "NOK"));
    assert!(!is_listed(&wanted, "US"));
    assert!(!is_listed(&Vec::new(), "USD"));
}

#[test]
fn filtering_keeps_the_listed_currencies() {
    let mut t = table("d", &[("USD", 1), ("SEK", 2), ("NOK", 3), ("DKK", 4)]);
    keep_currencies(&mut t, &vec!["NOK".to_string(), "USD".to_string(), "JPY".to_string()]);
    assert_eq!(listed(&t), pairs(&[("USD", 1), ("NOK", 3)]));
    assert_eq!(t.time(), "d");

    let mut days = vec![
        table("a", &[("USD", 1), ("SEK", 2)]),
        table("b", &[("SEK", 3)]),
        table("c", &[]),
        table("d", &[("NOK", 5), ("USD", 6)]),
    ];
    filter_currencies(&mut days, &vec!["USD".to_string()]);
    assert_eq!(days.len(), 4);
    assert_eq!(listed(&days[0]), pairs(&[("USD", 1)]));
    assert_eq!(listed(&days[1]), pairs(&[]));
    assert_eq!(listed(&days[2]), pairs(&[]));
    assert_eq!(listed(&days[3]), pairs(&[("USD", 6)]));
    assert_eq!(days[0].time(), "a");
    assert_eq!(days[3].time(), "d");

    filter_currencies(&mut days, &Vec::new());
    assert!(days.iter().all(|d| d.rates().is_empty()));
}

#[test]
fn a_copy_keeps_the_day_and_the_rates_in_their_order() {
    let a = table("2025-01-08", &[("USD", 1), ("SEK", 2), ("NOK", 3)]);
    let b = a.clone();
    assert_eq!(b.time(), "2025-01-08");
    assert_eq!(listed(&b), pairs(&[("USD", 1), ("SEK", 2), ("NOK", 3)]));
    assert_eq!(listed(&table("d", &[]).clone()), pairs(&[]));
}

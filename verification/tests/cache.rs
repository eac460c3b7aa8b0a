use ecb_rates::caching::{Cache, CacheLine, Persisted};
use ecb_rates::View;

fn line(rates: &[&str], at: i64) -> CacheLine<String> {
    CacheLine::with_timestamp(rates.iter().map(|r| r.to_string()).collect(), at)
}

#[test]
fn new_store_is_empty() {
    let cache: Cache<String> = Cache::new();
    assert!(cache.get_cache_line(View::TODAY).is_none());
    assert!(cache.get_cache_line(View::HistDays90).is_none());
    assert!(cache.get_cache_line(View::HistDaysAll).is_none());
    assert!(cache.entries().is_empty());
}

#[test]
fn setting_one_view_leaves_the_others() {
    let mut cache: Cache<String> = Cache::new();
    cache.set_cache_line(View::HistDays90, line(&["a"], 10));
    assert!(cache.get_cache_line(View::TODAY).is_none());
    assert!(cache.get_cache_line(View::HistDaysAll).is_none());
    cache.set_cache_line(View::TODAY, line(&["b"], 20));
    let kept = cache.get_cache_line(View::HistDays90).unwrap();
    assert_eq!(kept.timestamp(), 10);
    assert_eq!(kept.exchange_rate_results, vec!["a".to_string()]);
    cache.set_cache_line(View::TODAY, line(&["c"], 30));
    let replaced = cache.get_cache_line(View::TODAY).unwrap();
    assert_eq!(replaced.timestamp(), 30);
    assert_eq!(replaced.exchange_rate_results, vec!["c".to_string()]);
    assert_eq!(cache.get_cache_line(View::HistDays90).unwrap().timestamp(), 10);
    assert!(cache.get_cache_line(View::HistDaysAll).is_none());
}

#[test]
fn load_degrades_to_an_empty_store() {
    assert!(Cache::<String>::load(Persisted::Unavailable).is_none());
    let missing = Cache::<String>::load(Persisted::Missing).unwrap();
    assert!(missing.entries().is_empty());
    let unreadable = Cache::<String>::load(Persisted::Unreadable).unwrap();
    assert!(unreadable.entries().is_empty());
}

#[test]
fn load_keeps_the_last_entry_of_each_view() {
    let found = vec![
        (View::HistDaysAll, line(&["x"], 1)),
        (View::TODAY, line(&["y"], 2)),
        (View::HistDaysAll, line(&["z"], 3)),
    ];
    let cache = Cache::load(Persisted::Found(found)).unwrap();
    assert_eq!(cache.get_cache_line(View::TODAY).unwrap().timestamp(), 2);
    assert!(cache.get_cache_line(View::HistDays90).is_none());
    let all = cache.get_cache_line(View::HistDaysAll).unwrap();
    assert_eq!(all.timestamp(), 3);
    assert_eq!(all.exchange_rate_results, vec!["z".to_string()]);
}

#[test]
fn listing_and_loading_round_trip() {
    let mut cache: Cache<String> = Cache::new();
    cache.set_cache_line(View::HistDaysAll, line(&["p", "q"], 77));
    cache.set_cache_line(View::TODAY, line(&[], 5));
    let listed: Vec<(View, CacheLine<String>)> = cache
        .entries()
        .into_iter()
        .map(|(v, l)| (v, CacheLine::with_timestamp(l.exchange_rate_results.clone(), l.timestamp())))
        .collect();
    assert_eq!(listed.len(), 2);
    assert_eq!(listed[0].0, View::TODAY);
    assert_eq!(listed[1].0, View::HistDaysAll);
    let again = Cache::load(Persisted::Found(listed)).unwrap();
    for view in [View::TODAY, View::HistDays90, View::HistDaysAll] {
        match (cache.get_cache_line(view), again.get_cache_line(view)) {
            (Some(a), Some(b)) => {
                assert_eq!(a.timestamp(), b.timestamp());
                assert_eq!(a.exchange_rate_results, b.exchange_rate_results);
            }
            (None, None) => {}
            _ => panic!("entries differ"),
        }
    }
}

#[test]
fn fetch_is_recorded_only_where_it_differs() {
    let mut cache: Cache<String> = Cache::new();
    assert!(cache.record_fetch(View::TODAY, vec!["a".to_string()], 100));
    assert_eq!(cache.get_cache_line(View::TODAY).unwrap().timestamp(), 100);
    // The same rates again: nothing changes, not even the timestamp.
    assert!(!cache.record_fetch(View::TODAY, vec!["a".to_string()], 200));
    assert_eq!(cache.get_cache_line(View::TODAY).unwrap().timestamp(), 100);
    // Other rates replace the entry.
    assert!(cache.record_fetch(View::TODAY, vec!["b".to_string()], 300));
    let held = cache.get_cache_line(View::TODAY).unwrap();
    assert_eq!(held.timestamp(), 300);
    assert_eq!(held.exchange_rate_results, vec!["b".to_string()]);
    assert!(cache.get_cache_line(View::HistDays90).is_none());
    assert!(cache.get_cache_line(View::HistDaysAll).is_none());
}

#[test]
fn fresh_line_is_handed_out_only_while_current() {
    // Saved on Wednesday the 8th of January 2025 at 10:00 UTC.
    let saved = 1736330400;
    let mut cache: Cache<String> = Cache::new();
    cache.set_cache_line(View::TODAY, line(&["a"], saved));
    assert!(cache.fresh_line(View::TODAY, saved + 3600).is_some());
    assert_eq!(cache.fresh_line(View::TODAY, saved + 3600).unwrap().timestamp(), saved);
    assert!(cache.fresh_line(View::TODAY, saved + 6 * 3600).is_none());
    assert!(cache.fresh_line(View::TODAY, saved - 1).is_none());
    assert!(cache.fresh_line(View::HistDays90, saved + 3600).is_none());
    assert!(cache.fresh_line(View::TODAY, i64::MAX).is_none());
}

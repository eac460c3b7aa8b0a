//! The store: at most one snapshot for each view.

use crate::caching::cache_line::{is_supported_timestamp, same_rates, still_current, CacheLine};
use crate::view;
use vstd::prelude::*;
use vstd::std_specs::cmp::PartialEqSpec;

verus! {

/// What was found where the store is kept between runs.
pub enum Persisted<T> {
    /// The place cannot be named or made.
    Unavailable,
    /// Nothing has been kept there yet.
    Missing,
    /// What is kept there cannot be read.
    Unreadable,
    /// The snapshots kept there, each under its view.
    Found(Vec<(view::View, CacheLine<T>)>),
}

/// The snapshot that a list of entries holds for `view`: the last one
/// entered under it.
pub open spec fn entry_in<T>(entries: Seq<(view::View, CacheLine<T>)>, view: view::View) -> Option<
    CacheLine<T>,
>
    decreases entries.len(),
{
    if entries.len() == 0 {
        None
    } else if entries.last().0 == view {
        Some(entries.last().1)
    } else {
        entry_in(entries.drop_last(), view)
    }
}

/// One optional snapshot for each view, each kept apart from the others.
#[derive(Debug)]
pub struct Cache<T> {
    today: Option<CacheLine<T>>,
    hist_days_90: Option<CacheLine<T>>,
    hist_days_all: Option<CacheLine<T>>,
}

impl<T> Cache<T> {
    /// The snapshot held for `view`, if any.
    pub closed spec fn entry(&self, view: view::View) -> Option<CacheLine<T>> {
        match view {
            view::View::TODAY => self.today,
            view::View::HistDays90 => self.hist_days_90,
            view::View::HistDaysAll => self.hist_days_all,
        }
    }

    /// Whether no view has a snapshot.
    pub open spec fn is_empty(&self) -> bool {
        forall|view: view::View| self.entry(view) is None
    }

    /// The snapshots held, in the order of the views.
    pub open spec fn listing(&self) -> Seq<(view::View, CacheLine<T>)> {
        let today = match self.entry(view::View::TODAY) {
            Some(line) => seq![(view::View::TODAY, line)],
            None => seq![],
        };
        let hist_days_90 = match self.entry(view::View::HistDays90) {
            Some(line) => seq![(view::View::HistDays90, line)],
            None => seq![],
        };
        let hist_days_all = match self.entry(view::View::HistDaysAll) {
            Some(line) => seq![(view::View::HistDaysAll, line)],
            None => seq![],
        };
        today + hist_days_90 + hist_days_all
    }

    /// A store without snapshots.
    pub fn new() -> (r: Self)
        ensures
            r.is_empty(),
    {
        Self { today: None, hist_days_90: None, hist_days_all: None }
    }

    /// The store that results from what was found: none where the place is
    /// unavailable, an empty one where nothing can be read, and otherwise one
    /// that holds for each view the last snapshot found under it.
    pub fn load(persisted: Persisted<T>) -> (r: Option<Self>)
        ensures
            match persisted {
                Persisted::Unavailable => r is None,
                Persisted::Missing => r is Some && r.unwrap().is_empty(),
                Persisted::Unreadable => r is Some && r.unwrap().is_empty(),
                Persisted::Found(entries) => r is Some && forall|view: view::View|
                    r.unwrap().entry(view) == entry_in(entries@, view),
            },
    {
        match persisted {
            Persisted::Unavailable => None,
            Persisted::Missing => Some(Self::new()),
            Persisted::Unreadable => Some(Self::new()),
            Persisted::Found(entries) => {
                let ghost found = entries@;
                let mut entries = entries;
                let mut cache = Self::new();
                while entries.len() > 0
                    invariant
                        forall|view: view::View|
                            entry_in(found, view) == match #[trigger] cache.entry(view) {
                                Some(line) => Some(line),
                                None => entry_in(entries@, view),
                            },
                    decreases entries.len(),
                {
                    let ghost before = entries@;
                    let (view, line) = entries.pop().unwrap();
                    assert(entries@ == before.drop_last());
                    if cache.get_cache_line(view).is_none() {
                        cache.set_cache_line(view, line);
                    }
                }
                Some(cache)
            },
        }
    }

    /// The snapshot held for `view`, if any.
    pub fn get_cache_line(&self, view: view::View) -> (r: Option<&CacheLine<T>>)
        ensures
            match r {
                Some(line) => self.entry(view) == Some(*line),
                None => self.entry(view) is None,
            },
    {
        match view {
            view::View::TODAY => self.today.as_ref(),
            view::View::HistDays90 => self.hist_days_90.as_ref(),
            view::View::HistDaysAll => self.hist_days_all.as_ref(),
        }
    }

    /// Puts `cache_line` in the place of whatever was held for `view`, and
    /// leaves every other view as it was.
    pub fn set_cache_line(&mut self, view: view::View, cache_line: CacheLine<T>)
        ensures
            final(self).entry(view) == Some(cache_line),
            forall|other: view::View|
                other != view ==> final(self).entry(other) == old(self).entry(other),
    {
        match view {
            view::View::TODAY => {
                self.today = Some(cache_line);
            },
            view::View::HistDays90 => {
                self.hist_days_90 = Some(cache_line);
            },
            view::View::HistDaysAll => {
                self.hist_days_all = Some(cache_line);
            },
        }
    }

    /// The snapshots held, each with its view, in the order of the views.
    pub fn entries(&self) -> (r: Vec<(view::View, &CacheLine<T>)>)
        ensures
            r@.len() == self.listing().len(),
            forall|i: int|
                0 <= i < r@.len() ==> r@[i].0 == self.listing()[i].0 && *r@[i].1
                    == self.listing()[i].1,
    {
        let mut found: Vec<(view::View, &CacheLine<T>)> = Vec::new();
        if let Some(line) = self.today.as_ref() {
            found.push((view::View::TODAY, line));
        }
        if let Some(line) = self.hist_days_90.as_ref() {
            found.push((view::View::HistDays90, line));
        }
        if let Some(line) = self.hist_days_all.as_ref() {
            found.push((view::View::HistDaysAll, line));
        }
        found
    }

    /// The snapshot held for `view` where it is still current at `now`, and
    /// nothing where none is held, where it is stale, or where the bank's
    /// clock shows no date of a supported year.
    pub fn fresh_line(&self, view: view::View, now: i64) -> (r: Option<&CacheLine<T>>)
        ensures
            match self.entry(view) {
                Some(line) => if is_supported_timestamp(line.saved_at()) && is_supported_timestamp(
                    now,
                ) && still_current(line.saved_at() as int, now as int) {
                    r == Some(&line)
                } else {
                    r is None
                },
                None => r is None,
            },
    {
        match self.get_cache_line(view) {
            Some(line) => match line.try_is_valid_at(now) {
                Some(true) => Some(line),
                _ => None,
            },
            None => None,
        }
    }
}

impl<T: PartialEq> Cache<T> {
    /// Takes in rates fetched at `now` for `view`: they replace what is held
    /// for that view where nothing is held or the rates held differ, and
    /// change nothing where the same rates are held already. Tells whether
    /// the store changed and is to be saved.
    pub fn record_fetch(&mut self, view: view::View, fetched: Vec<T>, now: i64) -> (stored: bool)
        ensures
            forall|other: view::View|
                other != view ==> final(self).entry(other) == old(self).entry(other),
            stored ==> final(self).entry(view) is Some && final(self).entry(view).unwrap().saved_at()
                == now && final(self).entry(view).unwrap().payload() == fetched@,
            !stored ==> final(self).entry(view) == old(self).entry(view),
            T::obeys_eq_spec() ==> stored == match old(self).entry(view) {
                Some(line) => !same_rates(line.payload(), fetched@),
                None => true,
            },
    {
        let differs = match self.get_cache_line(view) {
            Some(line) => !(*line == fetched),
            None => true,
        };
        if differs {
            self.set_cache_line(view, CacheLine::with_timestamp(fetched, now));
        }
        differs
    }
}

/// What a store lists of itself, loaded again, is the same store view by view.
pub proof fn lemma_listing_round_trip<T>(cache: Cache<T>, view: view::View)
    ensures
        entry_in(cache.listing(), view) == cache.entry(view),
{
    let listing = cache.listing();
    reveal_with_fuel(entry_in, 4);
    if listing.len() == 3 {
        assert(listing.drop_last().drop_last().drop_last().len() == 0);
    } else if listing.len() == 2 {
        assert(listing.drop_last().drop_last().len() == 0);
    } else if listing.len() == 1 {
        assert(listing.drop_last().len() == 0);
    }
}

} // verus!

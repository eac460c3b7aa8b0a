//! Collecting the rates from the elements of the bank's document.
//!
//! The document nests three kinds of `Cube` elements: the outermost holds
//! everything, one with a `time` attribute opens a day, and one with a
//! `currency` and a `rate` attribute announces one rate of the day that is
//! open.

use crate::models::exchange_rate_result::ExchangeRateResult;
use crate::text::same_text;
use vstd::prelude::*;

verus! {

/// A start tag or an empty element: its local name, and its attributes in
/// the order of the document.
#[derive(Debug)]
pub struct Element {
    pub name: String,
    pub attributes: Vec<(String, String)>,
}

/// The value of the last attribute named `key`, if there is one.
pub open spec fn attribute_of(attributes: Seq<(String, String)>, key: Seq<char>) -> Option<String>
    decreases attributes.len(),
{
    if attributes.len() == 0 {
        None
    } else if attributes.last().0@ == key {
        Some(attributes.last().1)
    } else {
        attribute_of(attributes.drop_last(), key)
    }
}

/// What has been collected so far: the days that are complete, and the day
/// that is open.
#[derive(Debug)]
pub struct CubeParser<R> {
    results: Vec<ExchangeRateResult<R>>,
    current: Option<ExchangeRateResult<R>>,
}

/// The days in `finished`, and after them the day in `current` if there is one.
pub open spec fn with_current<R>(
    finished: Seq<ExchangeRateResult<R>>,
    current: Option<ExchangeRateResult<R>>,
) -> Seq<ExchangeRateResult<R>> {
    match current {
        Some(day) => finished.push(day),
        None => finished,
    }
}

/// Whether an element of this local name is one of the nested `Cube`
/// elements that hold the days and the rates.
pub fn is_cube(name: &str) -> (r: bool)
    ensures
        r == (name@ == "Cube"@),
{
    same_text(name, "Cube")
}

/// The value of the last attribute named `key`, if there is one.
pub fn attribute(attributes: &Vec<(String, String)>, key: &str) -> (r: Option<String>)
    ensures
        r == attribute_of(attributes@, key@),
{
    let mut i: usize = attributes.len();
    assert(attributes@.subrange(0, i as int) == attributes@);
    while i > 0
        invariant
            i <= attributes@.len(),
            attribute_of(attributes@, key@) == attribute_of(attributes@.subrange(0, i as int), key@),
        decreases i,
    {
        let ghost front = attributes@.subrange(0, i as int);
        i -= 1;
        assert(front.drop_last() == attributes@.subrange(0, i as int));
        assert(front.last() == attributes@[i as int]);
        if same_text(attributes[i].0.as_str(), key) {
            return Some(attributes[i].1.clone());
        }
    }
    assert(attributes@.subrange(0, 0).len() == 0);
    None
}

impl<R> CubeParser<R> {
    /// The days that are complete, in the order of the document.
    pub closed spec fn finished(&self) -> Seq<ExchangeRateResult<R>> {
        self.results@
    }

    /// The day that is open, if any.
    pub closed spec fn current(&self) -> Option<ExchangeRateResult<R>> {
        self.current
    }

    /// Nothing collected, no day open.
    pub fn new() -> (r: Self)
        ensures
            r.finished().len() == 0,
            r.current() is None,
    {
        Self { results: Vec::new(), current: None }
    }

    /// Takes in one element. Any element but a `Cube` changes nothing. A
    /// `Cube` with a `time` closes the day that is open and opens one for
    /// that time. A `Cube` with a `currency` and a `rate`, while a day is
    /// open, announces a rate: its currency and the text of its rate are
    /// handed back, to be recorded once the text has been read as a number.
    pub fn handle_cube_element(&mut self, e: &Element) -> (r: Option<(String, String)>)
        ensures
            e.name@ != "Cube"@ ==> {
                &&& final(self).finished() == old(self).finished()
                &&& final(self).current() == old(self).current()
                &&& r is None
            },
            e.name@ == "Cube"@ ==> match attribute_of(e.attributes@, "time"@) {
                Some(time) => final(self).finished() == with_current(
                    old(self).finished(),
                    old(self).current(),
                ) && final(self).current() is Some && final(self).current().unwrap().day() == time
                    && final(self).current().unwrap().entries().len() == 0,
                None => final(self).finished() == old(self).finished() && final(self).current()
                    == old(self).current(),
            },
            e.name@ == "Cube"@ ==> r == match (
                final(self).current(),
                attribute_of(e.attributes@, "currency"@),
                attribute_of(e.attributes@, "rate"@),
            ) {
                (Some(_), Some(currency), Some(rate)) => Some((currency, rate)),
                _ => None,
            },
    {
        if !is_cube(e.name.as_str()) {
            return None;
        }
        let time_attr = attribute(&e.attributes, "time");
        let currency_attr = attribute(&e.attributes, "currency");
        let rate_attr = attribute(&e.attributes, "rate");

        if let Some(t) = time_attr {
            if let Some(previous) = self.current.take() {
                self.results.push(previous);
            }
            self.current = Some(ExchangeRateResult::new(t));
        }
        if self.current.is_some() {
            if let (Some(c), Some(r_str)) = (currency_attr, rate_attr) {
                return Some((c, r_str));
            }
        }
        None
    }

    /// Holds `rate` for `currency` in the day that is open, in the place of
    /// any rate held for it before; does nothing while no day is open.
    pub fn record_rate(&mut self, currency: String, rate: R)
        ensures
            final(self).finished() == old(self).finished(),
            match old(self).current() {
                Some(before) => final(self).current() is Some && final(self).current().unwrap().day()
                    == before.day() && final(self).current().unwrap().rate_of(currency@) == Some(
                    rate,
                ) && forall|other: Seq<char>|
                    other != currency@ ==> final(self).current().unwrap().rate_of(other)
                        == before.rate_of(other),
                None => final(self).current() is None,
            },
    {
        if let Some(mut day) = self.current.take() {
            day.insert(currency, rate);
            self.current = Some(day);
        }
    }

    /// The days collected, the open one last.
    pub fn finish(self) -> (r: Vec<ExchangeRateResult<R>>)
        ensures
            r@ == with_current(self.finished(), self.current()),
    {
        let mut results = self.results;
        if let Some(last) = self.current {
            results.push(last);
        }
        results
    }
}

} // verus!

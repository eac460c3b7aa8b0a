//! The rates of one publishing day.

use crate::text::same_text;
use vstd::prelude::*;
use vstd::std_specs::cmp::{PartialEqSpec, PartialEqSpecImpl};

verus! {

/// The rates published on one day, each under its currency; no currency
/// occurs twice.
#[derive(Debug)]
pub struct ExchangeRateResult<R> {
    time: String,
    rates: Vec<(String, R)>,
}

/// The currencies of a list of rates, in its order.
pub open spec fn currencies_of<R>(rates: Seq<(String, R)>) -> Seq<Seq<char>> {
    rates.map_values(|entry: (String, R)| entry.0@)
}

/// The rate that the list holds for `currency`: that of the first entry
/// under it.
pub open spec fn rate_in<R>(rates: Seq<(String, R)>, currency: Seq<char>) -> Option<R> {
    if currencies_of(rates).contains(currency) {
        Some(rates[currencies_of(rates).index_of(currency)].1)
    } else {
        None
    }
}

impl<R> ExchangeRateResult<R> {
    #[verifier::type_invariant]
    spec fn holds_no_currency_twice(&self) -> bool {
        currencies_of(self.rates@).no_duplicates()
    }

    /// The day of the rates, as the bank writes it.
    pub closed spec fn day(&self) -> String {
        self.time
    }

    /// The rates held, each with its currency.
    pub closed spec fn entries(&self) -> Seq<(String, R)> {
        self.rates@
    }

    /// The currencies for which a rate is held.
    pub open spec fn currencies(&self) -> Seq<Seq<char>> {
        currencies_of(self.entries())
    }

    /// No currency occurs twice. This holds of every value that a program
    /// can hold.
    pub open spec fn is_well_formed(&self) -> bool {
        self.currencies().no_duplicates()
    }

    /// The rate held for `currency`, if any.
    pub open spec fn rate_of(&self, currency: Seq<char>) -> Option<R> {
        rate_in(self.entries(), currency)
    }

    /// A day without rates yet.
    pub fn new(time: String) -> (r: Self)
        ensures
            r.day() == time,
            r.entries().len() == 0,
            r.is_well_formed(),
    {
        Self { time, rates: Vec::new() }
    }

    /// The day of the rates, as the bank writes it.
    pub fn time(&self) -> (r: &String)
        ensures
            *r == self.day(),
    {
        &self.time
    }

    /// The rates held, each with its currency.
    pub fn rates(&self) -> (r: &Vec<(String, R)>)
        ensures
            r@ == self.entries(),
            self.is_well_formed(),
    {
        proof {
            use_type_invariant(self);
        }
        &self.rates
    }

    /// The day and the rates, taken apart.
    pub fn into_parts(self) -> (r: (String, Vec<(String, R)>))
        ensures
            r.0 == self.day(),
            r.1@ == self.entries(),
            self.is_well_formed(),
    {
        proof {
            use_type_invariant(&self);
        }
        (self.time, self.rates)
    }

    /// Where the rate of `currency` stands in the list, if it is held.
    pub fn position(&self, currency: &str) -> (r: Option<usize>)
        ensures
            match r {
                Some(index) => index < self.entries().len() && self.currencies()[index as int]
                    == currency@ && forall|j: int|
                    0 <= j < index ==> self.currencies()[j] != currency@,
                None => !self.currencies().contains(currency@),
            },
    {
        let mut i: usize = 0;
        while i < self.rates.len()
            invariant
                i <= self.rates@.len(),
                forall|j: int| 0 <= j < i ==> self.currencies()[j] != currency@,
            decreases self.rates@.len() - i,
        {
            if same_text(self.rates[i].0.as_str(), currency) {
                return Some(i);
            }
            i += 1;
        }
        None
    }

    /// The rate held for `currency`, if any.
    pub fn get(&self, currency: &str) -> (r: Option<&R>)
        ensures
            match r {
                Some(rate) => self.rate_of(currency@) == Some(*rate),
                None => self.rate_of(currency@) is None,
            },
    {
        match self.position(currency) {
            Some(index) => {
                proof {
                    use_type_invariant(self);
                    lemma_rate_at(self.rates@, index as int);
                }
                Some(&self.rates[index].1)
            },
            None => None,
        }
    }

    /// Holds `rate` for `currency` from now on, and hands back the rate that
    /// was held for it before, if any. Other currencies keep their rates.
    pub fn insert(&mut self, currency: String, rate: R) -> (r: Option<R>)
        ensures
            old(self).is_well_formed(),
            final(self).is_well_formed(),
            final(self).day() == old(self).day(),
            r == old(self).rate_of(currency@),
            final(self).rate_of(currency@) == Some(rate),
            forall|other: Seq<char>|
                other != currency@ ==> final(self).rate_of(other) == old(self).rate_of(other),
            final(self).entries().len() == old(self).entries().len() + if r is Some {
                0int
            } else {
                1int
            },
            r is None ==> final(self).entries() == old(self).entries().push((currency, rate)),
    {
        let before = self.remove(currency.as_str());
        proof {
            use_type_invariant(&*self);
        }
        let ghost without = self.rates@;
        let mut rates: Vec<(String, R)> = Vec::new();
        core::mem::swap(&mut rates, &mut self.rates);
        rates.push((currency, rate));
        proof {
            let with = rates@;
            assert(currencies_of(with) =~= currencies_of(without).push(currency@));
            lemma_rate_at(with, with.len() - 1);
            assert forall|other: Seq<char>| other != currency@ implies rate_in(with, other)
                == rate_in(without, other) by {
                if currencies_of(without).contains(other) {
                    let j = currencies_of(without).index_of(other);
                    lemma_rate_at(with, j);
                } else if currencies_of(with).contains(other) {
                    let j = currencies_of(with).index_of(other);
                    assert(currencies_of(without)[j] == other);
                }
            }
        }
        self.rates = rates;
        before
    }

    /// Holds no rate for `currency` any longer, and hands back the one that
    /// was held, if any. Other currencies keep their rates and their order.
    pub fn remove(&mut self, currency: &str) -> (r: Option<R>)
        ensures
            old(self).is_well_formed(),
            final(self).is_well_formed(),
            final(self).day() == old(self).day(),
            r == old(self).rate_of(currency@),
            final(self).rate_of(currency@) is None,
            forall|other: Seq<char>|
                other != currency@ ==> final(self).rate_of(other) == old(self).rate_of(other),
            final(self).entries().len() == old(self).entries().len() - if r is Some {
                1int
            } else {
                0int
            },
            r is None ==> final(self).entries() == old(self).entries(),
    {
        proof {
            use_type_invariant(&*self);
        }
        match self.position(currency) {
            Some(index) => {
                let ghost before = self.rates@;
                let mut rates: Vec<(String, R)> = Vec::new();
                core::mem::swap(&mut rates, &mut self.rates);
                let entry = rates.remove(index);
                proof {
                    let after = rates@;
                    lemma_rate_at(before, index as int);
                    assert(currencies_of(after) =~= currencies_of(before).remove(index as int));
                    assert forall|other: Seq<char>| other != currency@ implies rate_in(after, other)
                        == rate_in(before, other) by {
                        if currencies_of(before).contains(other) {
                            let j = currencies_of(before).index_of(other);
                            if j < index {
                                lemma_rate_at(after, j);
                            } else {
                                lemma_rate_at(after, j - 1);
                            }
                        } else if currencies_of(after).contains(other) {
                            let j = currencies_of(after).index_of(other);
                            if j < index {
                                assert(currencies_of(before)[j] == other);
                            } else {
                                assert(currencies_of(before)[j + 1] == other);
                            }
                        }
                    }
                    if currencies_of(after).contains(currency@) {
                        let j = currencies_of(after).index_of(currency@);
                        if j < index {
                            assert(currencies_of(before)[j] == currency@);
                        } else {
                            assert(currencies_of(before)[j + 1] == currency@);
                        }
                    }
                }
                self.rates = rates;
                Some(entry.1)
            },
            None => None,
        }
    }
}

impl<R: Clone> Clone for ExchangeRateResult<R> {
    /// The same day with a copy of each rate, under the same currencies in
    /// the same order.
    fn clone(&self) -> (r: Self)
        ensures
            r.day() == self.day(),
            r.entries().len() == self.entries().len(),
            forall|j: int|
                0 <= j < self.entries().len() ==> (#[trigger] r.entries()[j]).0
                    == self.entries()[j].0 && cloned(self.entries()[j].1, r.entries()[j].1),
    {
        proof {
            use_type_invariant(self);
        }
        let mut copy = ExchangeRateResult::new(self.time.clone());
        let mut i: usize = 0;
        while i < self.rates.len()
            invariant
                i <= self.rates@.len(),
                currencies_of(self.rates@).no_duplicates(),
                copy.day() == self.time,
                copy.entries().len() == i,
                forall|j: int|
                    0 <= j < i ==> (#[trigger] copy.entries()[j]).0 == self.rates@[j].0 && cloned(
                        self.rates@[j].1,
                        copy.entries()[j].1,
                    ),
            decreases self.rates@.len() - i,
        {
            let ghost before = copy.entries();
            let currency = self.rates[i].0.clone();
            let rate = self.rates[i].1.clone();
            proof {
                if currencies_of(before).contains(currency@) {
                    let k = currencies_of(before).index_of(currency@);
                    assert(before[k].0 == self.rates@[k].0);
                    assert(currencies_of(self.rates@)[k] == currencies_of(self.rates@)[i as int]);
                }
            }
            let held = copy.insert(currency, rate);
            assert(held is None);
            i += 1;
        }
        copy
    }
}

impl<R: PartialEq> PartialEq for ExchangeRateResult<R> {
    /// Whether both are of the same day and hold equal rates for the same
    /// currencies, in whatever order.
    fn eq(&self, other: &Self) -> (r: bool) {
        if !(self.time == other.time) || self.rates.len() != other.rates.len() {
            return false;
        }
        let mut i: usize = 0;
        while i < self.rates.len()
            invariant
                i <= self.rates@.len(),
                R::obeys_eq_spec() ==> forall|j: int|
                    0 <= j < i ==> match other.rate_of(#[trigger] self.entries()[j].0@) {
                        Some(rate) => self.entries()[j].1.eq_spec(&rate),
                        None => false,
                    },
            decreases self.rates@.len() - i,
        {
            match other.get(self.rates[i].0.as_str()) {
                Some(rate) => {
                    if !(self.rates[i].1 == *rate) {
                        return false;
                    }
                },
                None => {
                    return false;
                },
            }
            i += 1;
        }
        true
    }
}

impl<R: PartialEq> PartialEqSpecImpl for ExchangeRateResult<R> {
    open spec fn obeys_eq_spec() -> bool {
        R::obeys_eq_spec()
    }

    open spec fn eq_spec(&self, other: &Self) -> bool {
        &&& self.day()@ == other.day()@
        &&& self.entries().len() == other.entries().len()
        &&& forall|j: int|
            0 <= j < self.entries().len() ==> match other.rate_of(#[trigger] self.entries()[j].0@) {
                Some(rate) => self.entries()[j].1.eq_spec(&rate),
                None => false,
            }
    }
}

/// Where no currency occurs twice, the rate held for the currency of an
/// entry is the rate of that entry.
pub proof fn lemma_rate_at<R>(rates: Seq<(String, R)>, index: int)
    requires
        currencies_of(rates).no_duplicates(),
        0 <= index < rates.len(),
    ensures
        rate_in(rates, rates[index].0@) == Some(rates[index].1),
{
    let currencies = currencies_of(rates);
    assert(currencies[index] == rates[index].0@);
    let found = currencies.index_of(rates[index].0@);
    assert(found == index);
}

} // verus!

//! Narrowing the rates down to the currencies that were asked for.

use crate::models::exchange_rate_result::{currencies_of, ExchangeRateResult};
use crate::text::{same_text, texts};
use vstd::prelude::*;

verus! {

/// What is left of a day's rates when only the currencies in `wanted` are
/// kept.
pub open spec fn is_narrowed_to<R>(
    after: ExchangeRateResult<R>,
    before: ExchangeRateResult<R>,
    wanted: Seq<Seq<char>>,
) -> bool {
    &&& after.day() == before.day()
    &&& after.is_well_formed()
    &&& forall|currency: Seq<char>|
        after.rate_of(currency) == if wanted.contains(currency) {
            before.rate_of(currency)
        } else {
            None
        }
}

/// Whether `currency` is one of `currencies`.
pub fn is_listed(currencies: &Vec<String>, currency: &str) -> (r: bool)
    ensures
        r == texts(currencies@).contains(currency@),
{
    let mut i: usize = 0;
    while i < currencies.len()
        invariant
            i <= currencies@.len(),
            forall|j: int| 0 <= j < i ==> texts(currencies@)[j] != currency@,
        decreases currencies@.len() - i,
    {
        if same_text(currencies[i].as_str(), currency) {
            assert(texts(currencies@)[i as int] == currency@);
            return true;
        }
        i += 1;
    }
    false
}

/// The currencies of `rates` that are not among `currencies`.
fn unlisted<R>(rates: &ExchangeRateResult<R>, currencies: &Vec<String>) -> (r: Vec<String>)
    ensures
        rates.is_well_formed(),
        forall|j: int|
            0 <= j < r@.len() ==> !texts(currencies@).contains(#[trigger] texts(r@)[j]),
        forall|j: int|
            0 <= j < rates.entries().len() && !texts(currencies@).contains(
                #[trigger] rates.currencies()[j],
            ) ==> texts(r@).contains(rates.currencies()[j]),
{
    let mut keys_to_remove: Vec<String> = Vec::new();
    let held = rates.rates();
    let mut i: usize = 0;
    while i < held.len()
        invariant
            held@ == rates.entries(),
            i <= held@.len(),
            forall|j: int|
                0 <= j < keys_to_remove@.len() ==> !texts(currencies@).contains(
                    #[trigger] texts(keys_to_remove@)[j],
                ),
            forall|j: int|
                0 <= j < i && !texts(currencies@).contains(#[trigger] rates.currencies()[j])
                    ==> texts(keys_to_remove@).contains(rates.currencies()[j]),
        decreases held@.len() - i,
    {
        if !is_listed(currencies, held[i].0.as_str()) {
            let ghost before = keys_to_remove@;
            keys_to_remove.push(held[i].0.clone());
            proof {
                let after = keys_to_remove@;
                assert(texts(after) =~= texts(before).push(rates.currencies()[i as int]));
                assert(texts(after)[before.len() as int] == rates.currencies()[i as int]);
                assert forall|j: int|
                    0 <= j < i && !texts(currencies@).contains(
                        #[trigger] rates.currencies()[j],
                    ) implies texts(after).contains(rates.currencies()[j]) by {
                    let k = texts(before).index_of(rates.currencies()[j]);
                    assert(texts(after)[k] == rates.currencies()[j]);
                }
            }
        }
        i += 1;
    }
    keys_to_remove
}

/// Keeps of one day's rates those of the currencies in `currencies`: first
/// the others are listed, then they are removed.
pub fn keep_currencies<R>(rates: &mut ExchangeRateResult<R>, currencies: &Vec<String>)
    ensures
        is_narrowed_to(*final(rates), *old(rates), texts(currencies@)),
{
    let keys_to_remove = unlisted(rates, currencies);
    let ghost before = *rates;
    let mut i: usize = 0;
    while i < keys_to_remove.len()
        invariant
            i <= keys_to_remove@.len(),
            rates.is_well_formed(),
            rates.day() == before.day(),
            forall|currency: Seq<char>|
                rates.rate_of(currency) == if texts(keys_to_remove@).subrange(0, i as int).contains(
                    currency,
                ) {
                    None
                } else {
                    before.rate_of(currency)
                },
        decreases keys_to_remove@.len() - i,
    {
        let ghost removed = texts(keys_to_remove@).subrange(0, i as int);
        let ghost key = keys_to_remove@[i as int]@;
        rates.remove(keys_to_remove[i].as_str());
        proof {
            let longer = texts(keys_to_remove@).subrange(0, i + 1);
            assert(longer =~= removed.push(key));
            assert forall|currency: Seq<char>|
                rates.rate_of(currency) == if longer.contains(currency) {
                    None
                } else {
                    before.rate_of(currency)
                } by {
                if currency == key {
                    assert(longer[i as int] == key);
                } else if removed.contains(currency) {
                    let k = removed.index_of(currency);
                    assert(longer[k] == currency);
                } else if longer.contains(currency) {
                    let k = longer.index_of(currency);
                    assert(removed[k] == currency);
                }
            }
        }
        i += 1;
    }
    proof {
        let all = texts(keys_to_remove@);
        assert(all.subrange(0, i as int) =~= all);
        assert forall|currency: Seq<char>|
            rates.rate_of(currency) == if texts(currencies@).contains(currency) {
                before.rate_of(currency)
            } else {
                None
            } by {
            if texts(currencies@).contains(currency) {
                if all.contains(currency) {
                    let k = all.index_of(currency);
                }
            } else if before.currencies().contains(currency) {
                let j = before.currencies().index_of(currency);
                assert(currencies_of(before.entries())[j] == currency);
            }
        }
    }
}

/// Keeps of every day's rates those of the currencies in `currencies`.
pub fn filter_currencies<R>(
    exchange_rate_results: &mut Vec<ExchangeRateResult<R>>,
    currencies: &Vec<String>,
)
    ensures
        final(exchange_rate_results)@.len() == old(exchange_rate_results)@.len(),
        forall|i: int|
            0 <= i < old(exchange_rate_results)@.len() ==> is_narrowed_to(
                #[trigger] final(exchange_rate_results)@[i],
                old(exchange_rate_results)@[i],
                texts(currencies@),
            ),
{
    let ghost before = exchange_rate_results@;
    let mut i: usize = 0;
    while i < exchange_rate_results.len()
        invariant
            i <= exchange_rate_results@.len(),
            exchange_rate_results@.len() == before.len(),
            forall|j: int|
                0 <= j < i ==> is_narrowed_to(
                    #[trigger] exchange_rate_results@[j],
                    before[j],
                    texts(currencies@),
                ),
            forall|j: int| i <= j < before.len() ==> exchange_rate_results@[j] == before[j],
        decreases exchange_rate_results@.len() - i,
    {
        assert(exchange_rate_results@[i as int] == before[i as int]);
        let mut exchange_rate = exchange_rate_results.remove(i);
        keep_currencies(&mut exchange_rate, currencies);
        exchange_rate_results.insert(i, exchange_rate);
        i += 1;
    }
}

} // verus!

//! Exchange rates, and the reduction of a sum to one currency.

use crate::amount::quotient;
use crate::amount::Amount;
use crate::money::Currency;
use crate::money::Money;
use std::collections::HashMap;
use vstd::prelude::*;

verus! {

broadcast use vstd::std_specs::hash::group_hash_axioms;

/// No pair of currencies has a rate in both directions, and no currency has
/// a rate to itself.
pub open spec fn one_direction(rates: Map<(Currency, Currency), int>) -> bool {
    forall|a: Currency, b: Currency|
        !(#[trigger] rates.contains_key((a, b)) && #[trigger] rates.contains_key((b, a)))
}

/// The rate table after `rate` was offered for the pair `from`, `to`: the
/// first rate of a pair stays, in whichever direction it was given.
pub open spec fn registered(
    rates: Map<(Currency, Currency), int>,
    from: Currency,
    to: Currency,
    rate: int,
) -> Map<(Currency, Currency), int> {
    if from == to || rates.contains_key((from, to)) || rates.contains_key((to, from)) {
        rates
    } else {
        rates.insert((from, to), rate)
    }
}

/// What `amount` of `from` is worth in `to`, if the table can tell.
pub open spec fn exchanged(
    rates: Map<(Currency, Currency), int>,
    amount: int,
    from: Currency,
    to: Currency,
) -> Option<int> {
    if from == to {
        Some(amount)
    } else if rates.contains_key((from, to)) {
        Some(quotient(amount, rates[(from, to)]))
    } else if rates.contains_key((to, from)) {
        Some(amount * rates[(to, from)])
    } else {
        None
    }
}

/// Whether the exchange can be computed in amounts of type `T`: no division
/// by zero, and a result that the type can hold.
pub open spec fn computable<T: Amount>(
    rates: Map<(Currency, Currency), int>,
    amount: int,
    from: Currency,
    to: Currency,
) -> bool {
    if from == to {
        true
    } else if rates.contains_key((from, to)) {
        rates[(from, to)] != 0 && T::holds(quotient(amount, rates[(from, to)]))
    } else if rates.contains_key((to, from)) {
        T::holds(amount * rates[(to, from)])
    } else {
        true
    }
}

/// What one entry adds to a sum in `to`.
pub open spec fn worth(
    rates: Map<(Currency, Currency), int>,
    entry: (Currency, int),
    to: Currency,
) -> int {
    match exchanged(rates, entry.1, entry.0, to) {
        Some(value) => value,
        None => 0,
    }
}

/// The entries' worth in `to`, added up from the first to the last.
pub open spec fn total(
    rates: Map<(Currency, Currency), int>,
    entries: Seq<(Currency, int)>,
    to: Currency,
) -> int
    decreases entries.len(),
{
    if entries.len() == 0 {
        0
    } else {
        total(rates, entries.drop_last(), to) + worth(rates, entries.last(), to)
    }
}

/// The entries of a sum reduced to `to`: one entry, the total.
pub open spec fn reduced(
    rates: Map<(Currency, Currency), int>,
    entries: Seq<(Currency, int)>,
    to: Currency,
) -> Seq<(Currency, int)> {
    seq![(to, total(rates, entries, to))]
}

/// Whether the sum can be reduced to `to`: every entry has a rate, every
/// exchange can be computed, and the type can hold the running total
/// after every entry.
pub open spec fn reducible<T: Amount>(
    rates: Map<(Currency, Currency), int>,
    entries: Seq<(Currency, int)>,
    to: Currency,
) -> bool {
    &&& forall|i: int|
        0 <= i < entries.len() ==> {
            &&& exchanged(rates, (#[trigger] entries[i]).1, entries[i].0, to) is Some
            &&& computable::<T>(rates, entries[i].1, entries[i].0, to)
        }
    &&& forall|k: int|
        1 <= k <= entries.len() ==> T::holds(total(rates, #[trigger] entries.take(k), to))
}

/// The number under which a currency is filed.
spec fn code(currency: Currency) -> u64 {
    match currency {
        Currency::Doller => 0,
        Currency::Franc => 1,
    }
}

/// The key under which the rate of an ordered pair is filed.
spec fn pair_key(from: Currency, to: Currency) -> u64 {
    (2 * code(from) + code(to)) as u64
}

/// Computes the key of an ordered pair.
fn key_of(from: Currency, to: Currency) -> (key: u64)
    ensures
        key == pair_key(from, to),
{
    let high: u64 = match from {
        Currency::Doller => 0,
        Currency::Franc => 2,
    };
    let low: u64 = match to {
        Currency::Doller => 0,
        Currency::Franc => 1,
    };
    high + low
}

/// A table of exchange rates. A rate filed for `(from, to)` divides an
/// amount of `from` into `to`, and multiplies one of `to` into `from`.
pub struct Bank<T> {
    rates: HashMap<u64, T>,
}

impl<T: Amount> View for Bank<T> {
    type V = Map<(Currency, Currency), int>;

    closed spec fn view(&self) -> Map<(Currency, Currency), int> {
        Map::new(
            |pair: (Currency, Currency)|
                pair.0 != pair.1 && self.rates@.contains_key(pair_key(pair.0, pair.1)),
            |pair: (Currency, Currency)| self.rates@[pair_key(pair.0, pair.1)].value(),
        )
    }
}

impl<T: Amount> Bank<T> {
    /// The invariant of a bank: a pair of currencies has at most one rate.
    pub open spec fn wf(&self) -> bool {
        one_direction(self@)
    }

    /// A bank without rates.
    pub fn new() -> (bank: Bank<T>)
        ensures
            bank@ == Map::<(Currency, Currency), int>::empty(),
            bank.wf(),
    {
        let bank = Bank { rates: HashMap::new() };
        assert(bank@ =~= Map::<(Currency, Currency), int>::empty());
        bank
    }

    /// Files `rate` for the pair unless the pair has a rate already, in
    /// either direction.
    pub fn add_rate(&mut self, from: Currency, to: Currency, rate: T)
        requires
            old(self).wf(),
        ensures
            final(self)@ == registered(old(self)@, from, to, rate.value()),
            final(self).wf(),
    {
        if from != to {
            let key = key_of(from, to);
            let back = key_of(to, from);
            if self.rates.get(&key).is_none() && self.rates.get(&back).is_none() {
                self.rates.insert(key, rate);
                assert(self@ =~= old(self)@.insert((from, to), rate.value()));
            }
        }
    }

    /// What `amount` of `from` is worth in `to`; `None` where no rate
    /// joins the two currencies.
    pub fn exchange(&self, amount: T, from: Currency, to: Currency) -> (value: Option<T>)
        requires
            computable::<T>(self@, amount.value(), from, to),
        ensures
            match value {
                Some(v) => exchanged(self@, amount.value(), from, to) == Some(v.value()),
                None => exchanged(self@, amount.value(), from, to) is None,
            },
    {
        if from == to {
            return Some(amount);
        }
        let key = key_of(from, to);
        if let Some(rate) = self.rates.get(&key) {
            assert(self@[(from, to)] == rate.value());
            return Some(amount.over(*rate));
        }
        let back = key_of(to, from);
        if let Some(rate) = self.rates.get(&back) {
            assert(self@[(to, from)] == rate.value());
            return Some(amount.times(*rate));
        }
        None
    }

    /// The whole sum as one amount in `to`: every entry exchanged, and the
    /// results added up from zero in the order of the entries.
    pub fn reduce(&self, money: Money<T>, to: Currency) -> (sum: Money<T>)
        requires
            reducible::<T>(self@, money@, to),
        ensures
            sum@ == reduced(self@, money@, to),
    {
        let count = money.len();
        let mut acc = T::zero();
        let mut i: usize = 0;
        while i < count
            invariant
                count == money@.len(),
                i <= count,
                reducible::<T>(self@, money@, to),
                acc.value() == total(self@, money@.take(i as int), to),
            decreases count - i,
        {
            let entry = money.entry(i);
            assert(money@[i as int] == (entry.0, entry.1.value()));
            let value = match self.exchange(entry.1, entry.0, to) {
                Some(value) => value,
                None => unreached(),
            };
            proof {
                let next = money@.take(i + 1);
                assert(next.drop_last() =~= money@.take(i as int));
                assert(next.last() == money@[i as int]);
                assert(T::holds(total(self@, next, to)));
            }
            acc = acc.plus(value);
            i += 1;
        }
        assert(money@.take(count as int) =~= money@);
        match to {
            Currency::Doller => Money::doller(acc),
            Currency::Franc => Money::franc(acc),
        }
    }
}

} // verus!

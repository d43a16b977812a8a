//! What holds of sums, rates and reduction in general.

use crate::amount::quotient;
use crate::amount::Amount;
use crate::bank::one_direction;
use crate::bank::reduced;
use crate::bank::reducible;
use crate::bank::registered;
use crate::bank::total;
use crate::bank::worth;
use crate::money::scaled;
use crate::money::Currency;
use vstd::prelude::*;

verus! {

/// A sum of one entry is worth what that entry is worth.
pub proof fn lemma_total_of_one(
    rates: Map<(Currency, Currency), int>,
    entry: (Currency, int),
    to: Currency,
)
    ensures
        total(rates, seq![entry], to) == worth(rates, entry, to),
{
    reveal_with_fuel(total, 2);
    assert(seq![entry].drop_last().len() == 0);
    assert(seq![entry].last() == entry);
}

/// The worth of two sums joined is the worth of the first plus the worth of
/// the second: reduction does not depend on how the sum was put together.
pub proof fn lemma_total_of_joined(
    rates: Map<(Currency, Currency), int>,
    left: Seq<(Currency, int)>,
    right: Seq<(Currency, int)>,
    to: Currency,
)
    ensures
        total(rates, left + right, to) == total(rates, left, to) + total(rates, right, to),
    decreases right.len(),
{
    if right.len() == 0 {
        assert(left + right =~= left);
    } else {
        lemma_total_of_joined(rates, left, right.drop_last(), to);
        assert((left + right).drop_last() =~= left + right.drop_last());
        assert((left + right).last() == right.last());
    }
}

/// Reduction does not depend on which of two sums was added to which.
pub proof fn lemma_reduced_of_swapped(
    rates: Map<(Currency, Currency), int>,
    left: Seq<(Currency, int)>,
    right: Seq<(Currency, int)>,
    to: Currency,
)
    ensures
        reduced(rates, left + right, to) == reduced(rates, right + left, to),
{
    lemma_total_of_joined(rates, left, right, to);
    lemma_total_of_joined(rates, right, left, to);
}

/// Reducing an amount to its own currency gives the amount back, whatever
/// rates the bank holds, and the reduction is always possible.
pub proof fn lemma_reduce_to_own_currency<T: Amount>(
    rates: Map<(Currency, Currency), int>,
    currency: Currency,
    amount: int,
)
    ensures
        reduced(rates, seq![(currency, amount)], currency) == seq![(currency, amount)],
        T::holds(amount) ==> reducible::<T>(rates, seq![(currency, amount)], currency),
{
    let entries = seq![(currency, amount)];
    lemma_total_of_one(rates, (currency, amount), currency);
    if T::holds(amount) {
        assert(entries.take(1) =~= entries);
    }
}

/// One amount times a factor is the one amount of the product, in the same
/// currency.
pub proof fn lemma_times_of_one(currency: Currency, amount: int, factor: int)
    ensures
        scaled(seq![(currency, amount)], factor) == seq![(currency, amount * factor)],
{
    assert(scaled(seq![(currency, amount)], factor) =~= seq![(currency, amount * factor)]);
}

/// Two amounts of one currency, added and reduced to that currency, give
/// the sum of the two, whatever rates the bank holds; the reduction is
/// possible where the type can hold the first amount and the sum.
pub proof fn lemma_reduce_two_of_one_currency<T: Amount>(
    rates: Map<(Currency, Currency), int>,
    currency: Currency,
    a: int,
    b: int,
)
    ensures
        reduced(rates, seq![(currency, a)] + seq![(currency, b)], currency) == seq![
            (currency, a + b),
        ],
        T::holds(a) && T::holds(a + b) ==> reducible::<T>(
            rates,
            seq![(currency, a)] + seq![(currency, b)],
            currency,
        ),
{
    let first = seq![(currency, a)];
    let second = seq![(currency, b)];
    let entries = first + second;
    lemma_total_of_joined(rates, first, second, currency);
    lemma_total_of_one(rates, (currency, a), currency);
    lemma_total_of_one(rates, (currency, b), currency);
    if T::holds(a) && T::holds(a + b) {
        assert(entries.take(1) =~= first);
        assert(entries.take(2) =~= entries);
    }
}

/// With a rate filed for `(from, to)`, an amount of `from` reduced to `to`
/// is the amount divided by the rate, rounded towards zero, and an amount of
/// `to` reduced to `from` is the amount times the rate.
pub proof fn lemma_reduce_across(
    rates: Map<(Currency, Currency), int>,
    from: Currency,
    to: Currency,
    rate: int,
    x: int,
    y: int,
)
    requires
        one_direction(rates),
        rates.contains_key((from, to)),
        rates[(from, to)] == rate,
    ensures
        reduced(rates, seq![(from, x)], to) == seq![(to, quotient(x, rate))],
        reduced(rates, seq![(to, y)], from) == seq![(from, y * rate)],
{
    assert(!rates.contains_key((to, from)));
    assert(from != to);
    lemma_total_of_one(rates, (from, x), to);
    lemma_total_of_one(rates, (to, y), from);
}

/// The first rate offered for a pair without one is filed as offered.
pub proof fn lemma_first_rate_is_filed(
    rates: Map<(Currency, Currency), int>,
    from: Currency,
    to: Currency,
    rate: int,
)
    requires
        from != to,
        !rates.contains_key((from, to)),
        !rates.contains_key((to, from)),
    ensures
        registered(rates, from, to, rate).contains_key((from, to)),
        registered(rates, from, to, rate)[(from, to)] == rate,
{
}

/// A second rate offered for a pair changes nothing, whatever its value and
/// in whichever direction it is offered: the table stays as the first offer
/// left it, and where the pair had no rate before, the first rate is the one
/// in effect.
pub proof fn lemma_second_rate_is_dropped(
    rates: Map<(Currency, Currency), int>,
    from: Currency,
    to: Currency,
    first: int,
    second: int,
)
    ensures
        registered(registered(rates, from, to, first), from, to, second) == registered(
            rates,
            from,
            to,
            first,
        ),
        registered(registered(rates, from, to, first), to, from, second) == registered(
            rates,
            from,
            to,
            first,
        ),
        from != to && !rates.contains_key((from, to)) && !rates.contains_key((to, from)) ==> {
            let twice = registered(registered(rates, from, to, first), from, to, second);
            let swapped = registered(registered(rates, from, to, first), to, from, second);
            &&& twice.contains_key((from, to)) && twice[(from, to)] == first
            &&& swapped.contains_key((from, to)) && swapped[(from, to)] == first
            &&& !swapped.contains_key((to, from))
        },
{
}

/// Offering a rate keeps a table in which no pair has two rates that way.
pub proof fn lemma_registered_keeps_one_direction(
    rates: Map<(Currency, Currency), int>,
    from: Currency,
    to: Currency,
    rate: int,
)
    requires
        one_direction(rates),
    ensures
        one_direction(registered(rates, from, to, rate)),
{
}

} // verus!

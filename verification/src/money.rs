//! Amounts of money and unreduced sums of them.

use crate::amount::Amount;
use vstd::prelude::*;
use vstd::std_specs::cmp::PartialEqSpecImpl;
use vstd::std_specs::ops::AddSpecImpl;

verus! {

/// The currencies that the library knows.
#[derive(Debug, Clone, Copy, PartialEq, Eq, Hash, Structural)]
pub enum Currency {
    Doller,
    Franc,
}

/// The entries of a sum, each amount multiplied by `factor`.
pub open spec fn scaled(entries: Seq<(Currency, int)>, factor: int) -> Seq<(Currency, int)> {
    Seq::new(entries.len(), |i: int| (entries[i].0, entries[i].1 * factor))
}

/// A sum of amounts, each in its own currency, kept in the order in which
/// they were added. Nothing is converted or merged until a bank reduces it.
#[derive(Debug)]
pub struct Money<T> {
    entries: Vec<(Currency, T)>,
}

impl<T: Amount> View for Money<T> {
    type V = Seq<(Currency, int)>;

    closed spec fn view(&self) -> Seq<(Currency, int)> {
        Seq::new(self.entries@.len(), |i: int| (self.entries@[i].0, self.entries@[i].1.value()))
    }
}

impl<T: Amount> Money<T> {
    /// A single amount in dollars.
    pub fn doller(amount: T) -> (m: Money<T>)
        ensures
            m@ == seq![(Currency::Doller, amount.value())],
    {
        let m = Money { entries: vec![(Currency::Doller, amount)] };
        assert(m@ =~= seq![(Currency::Doller, amount.value())]);
        m
    }

    /// A single amount in francs.
    pub fn franc(amount: T) -> (m: Money<T>)
        ensures
            m@ == seq![(Currency::Franc, amount.value())],
    {
        let m = Money { entries: vec![(Currency::Franc, amount)] };
        assert(m@ =~= seq![(Currency::Franc, amount.value())]);
        m
    }

    /// Every entry multiplied by `factor`, currencies and order kept.
    pub fn times(&self, factor: T) -> (m: Money<T>)
        requires
            forall|i: int|
                0 <= i < self@.len() ==> T::holds((#[trigger] self@[i]).1 * factor.value()),
        ensures
            m@ == scaled(self@, factor.value()),
    {
        let mut entries: Vec<(Currency, T)> = Vec::new();
        let mut i: usize = 0;
        while i < self.entries.len()
            invariant
                0 <= i <= self.entries@.len(),
                entries@.len() == i,
                forall|j: int|
                    0 <= j < self@.len() ==> T::holds((#[trigger] self@[j]).1 * factor.value()),
                forall|j: int|
                    0 <= j < i ==> {
                        &&& (#[trigger] entries@[j]).0 == self.entries@[j].0
                        &&& entries@[j].1.value() == self.entries@[j].1.value() * factor.value()
                    },
            decreases self.entries@.len() - i,
        {
            let entry = self.entries[i];
            assert(self@[i as int].1 == entry.1.value());
            entries.push((entry.0, entry.1.times(factor)));
            i += 1;
        }
        let m = Money { entries };
        assert(m@ =~= scaled(self@, factor.value()));
        m
    }

    /// How many entries the sum has.
    pub(crate) fn len(&self) -> (n: usize)
        ensures
            n == self@.len(),
    {
        self.entries.len()
    }

    /// The entry at `index`.
    pub(crate) fn entry(&self, index: usize) -> (e: (Currency, T))
        requires
            index < self@.len(),
        ensures
            (e.0, e.1.value()) == self@[index as int],
    {
        self.entries[index]
    }
}

impl<T: Amount> core::ops::Add for Money<T> {
    type Output = Money<T>;

    /// The entries of `self` followed by those of `rhs`.
    fn add(self, rhs: Money<T>) -> (m: Money<T>)
        ensures
            m@ == self@ + rhs@,
    {
        let mut sum = self;
        let mut tail = rhs;
        sum.entries.append(&mut tail.entries);
        assert(sum@ =~= self@ + rhs@);
        sum
    }
}

/// What `+` gives is stated by `add` itself, over the entries: two sums
/// with the same entries need not be the same value, so no value is named
/// here, and addition asks nothing of its operands.
impl<T: Amount> AddSpecImpl for Money<T> {
    open spec fn obeys_add_spec() -> bool {
        false
    }

    open spec fn add_req(self, rhs: Money<T>) -> bool {
        true
    }

    open spec fn add_spec(self, rhs: Money<T>) -> Money<T> {
        arbitrary()
    }
}

impl<T: Amount> PartialEq for Money<T> {
    /// Whether the two sums hold the same entries in the same order.
    fn eq(&self, other: &Money<T>) -> (same: bool) {
        if self.entries.len() != other.entries.len() {
            assert(self@.len() != other@.len());
            return false;
        }
        let mut i: usize = 0;
        while i < self.entries.len()
            invariant
                0 <= i <= self.entries@.len(),
                self.entries@.len() == other.entries@.len(),
                forall|j: int| 0 <= j < i ==> self@[j] == other@[j],
            decreases self.entries@.len() - i,
        {
            let a = self.entries[i];
            let b = other.entries[i];
            if a.0 != b.0 || !a.1.equals(b.1) {
                assert(self@[i as int] != other@[i as int]);
                return false;
            }
            i += 1;
        }
        assert(self@ =~= other@);
        true
    }
}

impl<T: Amount> PartialEqSpecImpl for Money<T> {
    open spec fn obeys_eq_spec() -> bool {
        true
    }

    open spec fn eq_spec(&self, other: &Money<T>) -> bool {
        self@ == other@
    }
}

} // verus!

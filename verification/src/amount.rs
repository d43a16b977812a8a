//! The numbers that amounts and rates are made of.

use vstd::prelude::*;

verus! {

/// `amount` divided by `rate`, rounded towards zero.
pub open spec fn quotient(amount: int, rate: int) -> int {
    if amount >= 0 {
        amount / rate
    } else {
        -((-amount) / rate)
    }
}

/// Dividing by minus one changes the sign.
pub proof fn lemma_quotient_by_minus_one(amount: int)
    ensures
        quotient(amount, -1) == -amount,
{
    assert(amount / (-1int) == -amount) by (nonlinear_arith);
    assert((-amount) / (-1int) == amount) by (nonlinear_arith);
}

/// A machine number that can serve as an amount of money or as a rate: it
/// stands for an integer, starts from zero, and can be added, multiplied and
/// divided as long as the result can be held. The library implements it for
/// `i32`, `i64`, `u32` and `u64`.
pub trait Amount: Copy {
    /// The integer that the number stands for.
    spec fn value(self) -> int;

    /// Whether the type can hold `number`.
    spec fn holds(number: int) -> bool;

    /// The number zero, from which a total starts.
    fn zero() -> (z: Self)
        ensures
            z.value() == 0,
    ;

    /// The sum of the two numbers.
    fn plus(self, other: Self) -> (r: Self)
        requires
            Self::holds(self.value() + other.value()),
        ensures
            r.value() == self.value() + other.value(),
    ;

    /// The product of the two numbers.
    fn times(self, other: Self) -> (r: Self)
        requires
            Self::holds(self.value() * other.value()),
        ensures
            r.value() == self.value() * other.value(),
    ;

    /// The number divided by `other`, rounded towards zero.
    fn over(self, other: Self) -> (r: Self)
        requires
            other.value() != 0,
            Self::holds(quotient(self.value(), other.value())),
        ensures
            r.value() == quotient(self.value(), other.value()),
    ;

    /// Whether the two numbers stand for the same integer.
    fn equals(self, other: Self) -> (same: bool)
        ensures
            same == (self.value() == other.value()),
    ;
}

impl Amount for i32 {
    open spec fn value(self) -> int {
        self as int
    }

    open spec fn holds(number: int) -> bool {
        i32::MIN <= number <= i32::MAX
    }

    fn zero() -> (z: i32) {
        0
    }

    fn plus(self, other: i32) -> (r: i32) {
        self + other
    }

    fn times(self, other: i32) -> (r: i32) {
        self * other
    }

    fn over(self, other: i32) -> (r: i32) {
        proof {
            lemma_quotient_by_minus_one(self as int);
        }
        self / other
    }

    fn equals(self, other: i32) -> (same: bool) {
        self == other
    }
}

impl Amount for i64 {
    open spec fn value(self) -> int {
        self as int
    }

    open spec fn holds(number: int) -> bool {
        i64::MIN <= number <= i64::MAX
    }

    fn zero() -> (z: i64) {
        0
    }

    fn plus(self, other: i64) -> (r: i64) {
        self + other
    }

    fn times(self, other: i64) -> (r: i64) {
        self * other
    }

    fn over(self, other: i64) -> (r: i64) {
        proof {
            lemma_quotient_by_minus_one(self as int);
        }
        self / other
    }

    fn equals(self, other: i64) -> (same: bool) {
        self == other
    }
}

impl Amount for u32 {
    open spec fn value(self) -> int {
        self as int
    }

    open spec fn holds(number: int) -> bool {
        u32::MIN <= number <= u32::MAX
    }

    fn zero() -> (z: u32) {
        0
    }

    fn plus(self, other: u32) -> (r: u32) {
        self + other
    }

    fn times(self, other: u32) -> (r: u32) {
        self * other
    }

    fn over(self, other: u32) -> (r: u32) {
        self / other
    }

    fn equals(self, other: u32) -> (same: bool) {
        self == other
    }
}

impl Amount for u64 {
    open spec fn value(self) -> int {
        self as int
    }

    open spec fn holds(number: int) -> bool {
        u64::MIN <= number <= u64::MAX
    }

    fn zero() -> (z: u64) {
        0
    }

    fn plus(self, other: u64) -> (r: u64) {
        self + other
    }

    fn times(self, other: u64) -> (r: u64) {
        self * other
    }

    fn over(self, other: u64) -> (r: u64) {
        self / other
    }

    fn equals(self, other: u64) -> (same: bool) {
        self == other
    }
}

} // verus!

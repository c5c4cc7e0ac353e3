//! The arithmetic that the solver needs from the numbers stored in a field.
//!
//! The solver is written once, for any number type that offers the operations
//! of [`Scalar`]. Every operation is paired with a specification function that
//! names its result, so that the solver's contracts can say exactly which
//! operations are applied to which cells, in which order, without fixing how a
//! particular number type rounds.

use vstd::prelude::*;

verus! {

/// A number that a field can hold.
///
/// Each executable operation returns exactly what its specification
/// counterpart names; nothing else is asked of an implementation. In
/// particular no algebraic law (associativity, exactness of rounding, absence
/// of exceptional values) is assumed by the solver itself: the bounds of every
/// index it computes hold whatever the operations return.
///
/// An implementation in code that is not verified gives each counterpart the
/// body of its operation; the contracts then ask only that an operation
/// returns the same result whenever it is given the same arguments.
pub trait Scalar: Copy {
    /// The additive identity.
    spec fn zero_value() -> Self;

    /// The multiplicative identity.
    spec fn one_value() -> Self;

    /// One half.
    spec fn half_value() -> Self;

    /// The number that stands for the count `n`.
    spec fn count_value(n: usize) -> Self;

    /// `self + rhs`.
    spec fn sum(self, rhs: Self) -> Self;

    /// `self - rhs`.
    spec fn difference(self, rhs: Self) -> Self;

    /// `self * rhs`.
    spec fn product(self, rhs: Self) -> Self;

    /// `self / rhs`.
    spec fn quotient(self, rhs: Self) -> Self;

    /// `-self`.
    spec fn negation(self) -> Self;

    /// `self <= rhs`.
    spec fn not_above(self, rhs: Self) -> bool;

    /// The integer part of `self`, saturated to the range of `usize`.
    spec fn whole_part(self) -> usize;

    /// Whether `self` is an ordinary number (neither infinite nor undefined).
    spec fn finite(self) -> bool;

    fn zero() -> (r: Self)
        ensures
            r == Self::zero_value(),
    ;

    fn one() -> (r: Self)
        ensures
            r == Self::one_value(),
    ;

    fn half() -> (r: Self)
        ensures
            r == Self::half_value(),
    ;

    fn from_count(n: usize) -> (r: Self)
        ensures
            r == Self::count_value(n),
    ;

    fn plus(self, rhs: Self) -> (r: Self)
        ensures
            r == self.sum(rhs),
    ;

    fn minus(self, rhs: Self) -> (r: Self)
        ensures
            r == self.difference(rhs),
    ;

    fn times(self, rhs: Self) -> (r: Self)
        ensures
            r == self.product(rhs),
    ;

    fn over(self, rhs: Self) -> (r: Self)
        ensures
            r == self.quotient(rhs),
    ;

    fn negated(self) -> (r: Self)
        ensures
            r == self.negation(),
    ;

    fn at_most(self, rhs: Self) -> (r: bool)
        ensures
            r == self.not_above(rhs),
    ;

    fn to_count(self) -> (r: usize)
        ensures
            r == self.whole_part(),
    ;

    fn is_finite(self) -> (r: bool)
        ensures
            r == self.finite(),
    ;
}

/// A scalar whose arithmetic is exact where zero, one and small counts are
/// involved. The laws of the solver that speak of fields at rest and of fluid
/// that stands still are proved for such scalars.
pub trait ExactScalar: Scalar {
    /// The largest count that the scalar holds exactly.
    spec fn largest_count() -> usize;

    /// Zero added to a number leaves it as it is.
    proof fn lemma_sum_zero(a: Self)
        ensures
            a.sum(Self::zero_value()) == a,
    ;

    /// Zero taken from a number leaves it as it is.
    proof fn lemma_difference_zero(a: Self)
        ensures
            a.difference(Self::zero_value()) == a,
    ;

    /// A number less itself is zero.
    proof fn lemma_difference_self(a: Self)
        ensures
            a.difference(a) == Self::zero_value(),
    ;

    /// A product with zero is zero.
    proof fn lemma_product_zero(a: Self)
        ensures
            a.product(Self::zero_value()) == Self::zero_value(),
            Self::zero_value().product(a) == Self::zero_value(),
    ;

    /// One times a number is that number.
    proof fn lemma_product_one(a: Self)
        ensures
            Self::one_value().product(a) == a,
    ;

    /// Zero divided by any number is zero.
    proof fn lemma_quotient_zero(c: Self)
        ensures
            Self::zero_value().quotient(c) == Self::zero_value(),
    ;

    /// Minus zero is zero.
    proof fn lemma_negation_zero()
        ensures
            Self::zero_value().negation() == Self::zero_value(),
    ;

    /// A count of at least one is not below one half, and a count is not
    /// above a larger count less one half.
    proof fn lemma_count_order(i: usize, n: usize)
        requires
            1 <= i < n <= Self::largest_count(),
        ensures
            Self::half_value().not_above(Self::count_value(i)),
            Self::count_value(i).not_above(Self::count_value(n).difference(Self::half_value())),
    ;

    /// The whole part of a count is the count.
    proof fn lemma_count_whole(i: usize)
        requires
            i <= Self::largest_count(),
        ensures
            Self::count_value(i).whole_part() == i,
    ;
}

} // verus!

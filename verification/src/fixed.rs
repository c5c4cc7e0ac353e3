//! A signed fixed-point number with 32 fractional bits and saturating
//! arithmetic: a [`Scalar`] whose every operation is defined over the
//! integers, so that a simulation on it is reproducible bit for bit.

use vstd::prelude::*;
use crate::scalar::ExactScalar;
use crate::scalar::Scalar;

verus! {

/// The raw value of the number one.
pub const UNIT: i64 = 0x1_0000_0000;

/// The raw value of the number one half.
pub const HALF: i64 = 0x8000_0000;

/// A fixed-point number: `raw / UNIT`.
#[derive(Clone, Copy, Debug, PartialEq, Eq, Structural)]
pub struct Fixed {
    pub raw: i64,
}

/// `v`, brought into the range of `i64`.
pub open spec fn saturated(v: int) -> i64 {
    if v > i64::MAX {
        i64::MAX
    } else if v < i64::MIN {
        i64::MIN
    } else {
        v as i64
    }
}

/// The absolute value of `v`.
pub open spec fn magnitude(v: int) -> int {
    if v < 0 {
        -v
    } else {
        v
    }
}

/// `n / d`, rounded toward zero (`d` is not zero).
pub open spec fn toward_zero(n: int, d: int) -> int {
    let q = magnitude(n) / magnitude(d);
    if (n < 0) != (d < 0) {
        -q
    } else {
        q
    }
}

/// The absolute value of `v`.
fn magnitude_of(v: i64) -> (m: u128)
    ensures
        m == magnitude(v as int),
        m <= 0x8000_0000_0000_0000,
{
    if v < 0 {
        (-(v as i128)) as u128
    } else {
        v as u128
    }
}

/// The magnitude `q` with the sign given, brought into the range of `i64`.
fn with_sign(negative: bool, q: u128) -> (r: i64)
    ensures
        r == saturated(if negative { -(q as int) } else { q as int }),
{
    if negative {
        if q >= 0x8000_0000_0000_0000 {
            i64::MIN
        } else {
            (-(q as i128)) as i64
        }
    } else {
        if q > 0x7fff_ffff_ffff_ffff {
            i64::MAX
        } else {
            q as i64
        }
    }
}

/// `v`, brought into the range of `i64`.
fn saturate(v: i128) -> (r: i64)
    ensures
        r == saturated(v as int),
{
    if v > i64::MAX as i128 {
        i64::MAX
    } else if v < i64::MIN as i128 {
        i64::MIN
    } else {
        v as i64
    }
}

/// The magnitude of a product is the product of the magnitudes, and its sign
/// follows from the signs of the factors.
proof fn lemma_magnitude_of_product(a: int, b: int)
    ensures
        magnitude(a * b) == magnitude(a) * magnitude(b),
        (a * b < 0) ==> ((a < 0) != (b < 0)),
        (a != 0 && b != 0 && ((a < 0) != (b < 0))) ==> a * b < 0,
        (a == 0 || b == 0) ==> a * b == 0,
{
    assert(magnitude(a * b) == magnitude(a) * magnitude(b)) by (nonlinear_arith)
        requires
            magnitude(a) == (if a < 0 { -a } else { a }),
            magnitude(b) == (if b < 0 { -b } else { b }),
            magnitude(a * b) == (if a * b < 0 { -(a * b) } else { a * b }),
    ;
    assert((a * b < 0) ==> ((a < 0) != (b < 0))) by (nonlinear_arith);
    assert((a != 0 && b != 0 && ((a < 0) != (b < 0))) ==> a * b < 0) by (nonlinear_arith);
    assert((a == 0 || b == 0) ==> a * b == 0) by (nonlinear_arith);
}

/// Sums, differences and negations saturate; products and quotients are
/// rounded toward zero and then saturate; a quotient by zero is zero; the
/// whole part of a negative number is zero; every number is finite.
impl Scalar for Fixed {
    open spec fn zero_value() -> Self {
        Fixed { raw: 0 }
    }

    open spec fn one_value() -> Self {
        Fixed { raw: UNIT }
    }

    open spec fn half_value() -> Self {
        Fixed { raw: HALF }
    }

    open spec fn count_value(n: usize) -> Self {
        Fixed { raw: saturated(n * UNIT) }
    }

    open spec fn sum(self, rhs: Self) -> Self {
        Fixed { raw: saturated(self.raw + rhs.raw) }
    }

    open spec fn difference(self, rhs: Self) -> Self {
        Fixed { raw: saturated(self.raw - rhs.raw) }
    }

    open spec fn product(self, rhs: Self) -> Self {
        Fixed { raw: saturated(toward_zero(self.raw * rhs.raw, UNIT as int)) }
    }

    open spec fn quotient(self, rhs: Self) -> Self {
        if rhs.raw == 0 {
            Fixed { raw: 0 }
        } else {
            Fixed { raw: saturated(toward_zero(self.raw * UNIT, rhs.raw as int)) }
        }
    }

    open spec fn negation(self) -> Self {
        Fixed { raw: saturated(-self.raw) }
    }

    open spec fn not_above(self, rhs: Self) -> bool {
        self.raw <= rhs.raw
    }

    open spec fn whole_part(self) -> usize {
        if self.raw < 0 {
            0
        } else if self.raw / UNIT > usize::MAX {
            usize::MAX
        } else {
            (self.raw / UNIT) as usize
        }
    }

    open spec fn finite(self) -> bool {
        true
    }

    fn zero() -> (r: Self) {
        Fixed { raw: 0 }
    }

    fn one() -> (r: Self) {
        Fixed { raw: UNIT }
    }

    fn half() -> (r: Self) {
        Fixed { raw: HALF }
    }

    fn from_count(n: usize) -> (r: Self) {
        assert(n * UNIT <= 0xffff_ffff_ffff_ffff * 0x1_0000_0000) by (nonlinear_arith)
            requires
                0 <= n <= 0xffff_ffff_ffff_ffff,
                UNIT == 0x1_0000_0000,
        ;
        let wide: i128 = (n as i128) * (UNIT as i128);
        Fixed { raw: saturate(wide) }
    }

    fn plus(self, rhs: Self) -> (r: Self) {
        Fixed { raw: saturate(self.raw as i128 + rhs.raw as i128) }
    }

    fn minus(self, rhs: Self) -> (r: Self) {
        Fixed { raw: saturate(self.raw as i128 - rhs.raw as i128) }
    }

    fn times(self, rhs: Self) -> (r: Self) {
        let a: u128 = magnitude_of(self.raw);
        let b: u128 = magnitude_of(rhs.raw);
        proof {
            lemma_magnitude_of_product(self.raw as int, rhs.raw as int);
            assert(a * b <= 0x8000_0000_0000_0000 * 0x8000_0000_0000_0000) by (nonlinear_arith)
                requires
                    0 <= a <= 0x8000_0000_0000_0000,
                    0 <= b <= 0x8000_0000_0000_0000,
            ;
        }
        let q: u128 = (a * b) / (UNIT as u128);
        let negative: bool = (self.raw < 0) != (rhs.raw < 0);
        Fixed { raw: with_sign(negative && q != 0, q) }
    }

    fn over(self, rhs: Self) -> (r: Self) {
        if rhs.raw == 0 {
            return Fixed { raw: 0 };
        }
        let a: u128 = magnitude_of(self.raw);
        let b: u128 = magnitude_of(rhs.raw);
        proof {
            lemma_magnitude_of_product(self.raw as int, UNIT as int);
            assert(a * 0x1_0000_0000 <= 0x8000_0000_0000_0000 * 0x1_0000_0000) by (nonlinear_arith)
                requires
                    0 <= a <= 0x8000_0000_0000_0000,
            ;
        }
        let q: u128 = (a * (UNIT as u128)) / b;
        let negative: bool = (self.raw < 0) != (rhs.raw < 0);
        Fixed { raw: with_sign(negative && q != 0, q) }
    }

    fn negated(self) -> (r: Self) {
        Fixed { raw: saturate(-(self.raw as i128)) }
    }

    fn at_most(self, rhs: Self) -> (r: bool) {
        self.raw <= rhs.raw
    }

    fn to_count(self) -> (r: usize) {
        if self.raw < 0 {
            0
        } else {
            let whole: u64 = (self.raw / UNIT) as u64;
            if whole > usize::MAX as u64 {
                usize::MAX
            } else {
                whole as usize
            }
        }
    }

    fn is_finite(self) -> (r: bool) {
        true
    }
}

/// Counts up to `2^31 - 1` are held exactly.
impl ExactScalar for Fixed {
    open spec fn largest_count() -> usize {
        0x7fff_ffff
    }

    proof fn lemma_sum_zero(a: Self) {
    }

    proof fn lemma_difference_zero(a: Self) {
    }

    proof fn lemma_difference_self(a: Self) {
    }

    proof fn lemma_product_zero(a: Self) {
        assert(a.raw * 0 == 0 && 0 * a.raw == 0) by (nonlinear_arith);
    }

    proof fn lemma_product_one(a: Self) {
        let m = magnitude(a.raw as int);
        lemma_magnitude_of_product(UNIT as int, a.raw as int);
        assert((UNIT * m) / (UNIT as int) == m) by (nonlinear_arith)
            requires
                UNIT == 0x1_0000_0000,
        ;
    }

    proof fn lemma_quotient_zero(c: Self) {
        assert(0 * UNIT == 0) by (nonlinear_arith);
        if c.raw != 0 {
            assert(0int / magnitude(c.raw as int) == 0) by (nonlinear_arith)
                requires
                    magnitude(c.raw as int) > 0,
            ;
        }
    }

    proof fn lemma_negation_zero() {
    }

    proof fn lemma_count_order(i: usize, n: usize) {
        assert(UNIT <= i * UNIT && i * UNIT + UNIT <= n * UNIT && n * UNIT <= 0x7fff_ffff
            * 0x1_0000_0000) by (nonlinear_arith)
            requires
                1 <= i < n <= 0x7fff_ffff,
                UNIT == 0x1_0000_0000,
        ;
    }

    proof fn lemma_count_whole(i: usize) {
        assert(0 <= i * UNIT <= 0x7fff_ffff * 0x1_0000_0000 && (i * UNIT) / (UNIT as int) == i)
            by (nonlinear_arith)
            requires
                0 <= i <= 0x7fff_ffff,
                UNIT == 0x1_0000_0000,
        ;
    }
}

} // verus!

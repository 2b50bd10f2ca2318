//! IEEE 754 binary64 values held as their 64-bit encodings.
//!
//! Classification, ordering, `max`, `min` and clamping are computed on the
//! encoding and proved against the definitions below. The four rounded
//! operations and the conversion from an integer are delegated to
//! `rustc_apfloat`; their results are named, not defined, so a contract that
//! mentions them says which operations were applied to which operands and
//! nothing about the digits that come out.

use vstd::prelude::*;
use rustc_apfloat::ieee::Double;
use rustc_apfloat::Float;

verus! {

/// The sign bit of an encoding.
pub const SIGN_BIT: u64 = 0x8000_0000_0000_0000;

/// The encoding of positive infinity. Larger magnitudes encode NaNs.
pub const INFINITY_BITS: u64 = 0x7FF0_0000_0000_0000;

/// The encoding of `0.0`.
pub const ZERO_BITS: u64 = 0;

/// The encoding of `0.01`, rounded to nearest.
pub const HUNDREDTH_BITS: u64 = 0x3F84_7AE1_47AE_147B;

/// The encoding of `0.1`, rounded to nearest.
pub const TENTH_BITS: u64 = 0x3FB9_9999_9999_999A;

/// The encoding of `1.0`.
pub const ONE_BITS: u64 = 0x3FF0_0000_0000_0000;

/// The encoding of `2.0`.
pub const TWO_BITS: u64 = 0x4000_0000_0000_0000;

/// The encoding of `3.0`.
pub const THREE_BITS: u64 = 0x4008_0000_0000_0000;

/// The encoding of `10.0`.
pub const TEN_BITS: u64 = 0x4024_0000_0000_0000;

/// The encoding of `100.0`.
pub const HUNDRED_BITS: u64 = 0x4059_0000_0000_0000;

/// The encoding of `1000.0`.
pub const THOUSAND_BITS: u64 = 0x408F_4000_0000_0000;

/// The encoding of `10000.0`.
pub const TEN_THOUSAND_BITS: u64 = 0x40C3_8800_0000_0000;

/// The encoding of `a + b`, rounded to nearest with ties to even.
pub uninterp spec fn binary64_add(a: u64, b: u64) -> u64;

/// The encoding of `a - b`, rounded to nearest with ties to even.
pub uninterp spec fn binary64_sub(a: u64, b: u64) -> u64;

/// The encoding of `a * b`, rounded to nearest with ties to even.
pub uninterp spec fn binary64_mul(a: u64, b: u64) -> u64;

/// The encoding of `a / b`, rounded to nearest with ties to even.
pub uninterp spec fn binary64_div(a: u64, b: u64) -> u64;

/// The encoding of the binary64 value nearest to the integer `n`.
pub uninterp spec fn binary64_from_u64(n: u64) -> u64;

/// An IEEE 754 binary64 value, identified with its encoding.
///
/// `==` on this type compares encodings: the two zeros differ, and a NaN
/// equals itself. Numeric comparison is [`Binary64::lt`] and [`Binary64::le`].
#[derive(Clone, Copy, Debug, PartialEq, Eq, Structural)]
pub struct Binary64 {
    pub bits: u64,
}

/// The value encoded by `bits`.
pub open spec fn binary64(bits: u64) -> Binary64 {
    Binary64 { bits }
}

impl Binary64 {
    /// The encoding without its sign bit.
    pub open spec fn magnitude(self) -> int {
        if self.bits >= SIGN_BIT {
            self.bits - SIGN_BIT
        } else {
            self.bits as int
        }
    }

    /// Whether the sign bit is set. This holds of `-0.0` and of some NaNs too.
    pub open spec fn spec_is_negative(self) -> bool {
        self.bits >= SIGN_BIT
    }

    /// Whether the value is a NaN: the exponent is all ones and the fraction
    /// is not zero.
    pub open spec fn spec_is_nan(self) -> bool {
        self.magnitude() > INFINITY_BITS
    }

    /// An integer that orders the values other than NaN as IEEE 754 does.
    /// Among values of one sign a larger magnitude is further from zero, and
    /// both zeros have rank 0.
    pub open spec fn rank(self) -> int {
        if self.spec_is_negative() {
            -self.magnitude()
        } else {
            self.magnitude()
        }
    }

    /// Numeric `<`. False whenever a NaN is involved.
    pub open spec fn spec_lt(self, other: Binary64) -> bool {
        !self.spec_is_nan() && !other.spec_is_nan() && self.rank() < other.rank()
    }

    /// Numeric `<=`. False whenever a NaN is involved.
    pub open spec fn spec_le(self, other: Binary64) -> bool {
        !self.spec_is_nan() && !other.spec_is_nan() && self.rank() <= other.rank()
    }

    /// The larger of two values. A NaN loses against anything else, and of
    /// two values that compare equal the receiver is kept.
    pub open spec fn spec_max(self, other: Binary64) -> Binary64 {
        if self.spec_is_nan() {
            other
        } else if other.spec_is_nan() {
            self
        } else if self.spec_lt(other) {
            other
        } else {
            self
        }
    }

    /// The smaller of two values. A NaN loses against anything else, and of
    /// two values that compare equal the receiver is kept.
    pub open spec fn spec_min(self, other: Binary64) -> Binary64 {
        if self.spec_is_nan() {
            other
        } else if other.spec_is_nan() {
            self
        } else if other.spec_lt(self) {
            other
        } else {
            self
        }
    }

    /// The value raised to at least `low` and then lowered to at most `high`.
    pub open spec fn spec_clamp(self, low: Binary64, high: Binary64) -> Binary64 {
        self.spec_max(low).spec_min(high)
    }

    /// Whether the value lies in the closed interval from `low` to `high`.
    pub open spec fn within(self, low: Binary64, high: Binary64) -> bool {
        low.spec_le(self) && self.spec_le(high)
    }

    /// `self + rhs`.
    pub open spec fn sum(self, rhs: Binary64) -> Binary64 {
        binary64(binary64_add(self.bits, rhs.bits))
    }

    /// `self - rhs`.
    pub open spec fn difference(self, rhs: Binary64) -> Binary64 {
        binary64(binary64_sub(self.bits, rhs.bits))
    }

    /// `self * rhs`.
    pub open spec fn product(self, rhs: Binary64) -> Binary64 {
        binary64(binary64_mul(self.bits, rhs.bits))
    }

    /// `self / rhs`.
    pub open spec fn quotient(self, rhs: Binary64) -> Binary64 {
        binary64(binary64_div(self.bits, rhs.bits))
    }

    /// The value nearest to the integer `n`.
    pub open spec fn of_u64(n: u64) -> Binary64 {
        binary64(binary64_from_u64(n))
    }

    /// The value with the given encoding.
    pub fn from_bits(bits: u64) -> (r: Binary64)
        ensures
            r == binary64(bits),
    {
        Binary64 { bits }
    }

    /// The encoding of the value.
    pub fn to_bits(self) -> (r: u64)
        ensures
            r == self.bits,
    {
        self.bits
    }

    /// Whether the sign bit is set.
    #[verifier::when_used_as_spec(spec_is_negative)]
    pub fn is_negative(self) -> (r: bool)
        ensures
            r == self.spec_is_negative(),
    {
        self.bits >= SIGN_BIT
    }

    /// Whether the value is a NaN.
    #[verifier::when_used_as_spec(spec_is_nan)]
    pub fn is_nan(self) -> (r: bool)
        ensures
            r == self.spec_is_nan(),
    {
        let magnitude: u64 = if self.bits >= SIGN_BIT {
            self.bits - SIGN_BIT
        } else {
            self.bits
        };
        magnitude > INFINITY_BITS
    }

    /// Numeric `<`: false whenever a NaN is involved, and between the two
    /// zeros.
    #[verifier::when_used_as_spec(spec_lt)]
    pub fn lt(self, other: Binary64) -> (r: bool)
        ensures
            r == self.spec_lt(other),
    {
        if self.is_nan() || other.is_nan() {
            return false;
        }
        let a: u64 = if self.bits >= SIGN_BIT {
            self.bits - SIGN_BIT
        } else {
            self.bits
        };
        let b: u64 = if other.bits >= SIGN_BIT {
            other.bits - SIGN_BIT
        } else {
            other.bits
        };
        if self.is_negative() {
            if other.is_negative() {
                b < a
            } else {
                a != 0 || b != 0
            }
        } else {
            !other.is_negative() && a < b
        }
    }

    /// Numeric `<=`: false whenever a NaN is involved, true between the two
    /// zeros.
    #[verifier::when_used_as_spec(spec_le)]
    pub fn le(self, other: Binary64) -> (r: bool)
        ensures
            r == self.spec_le(other),
    {
        if self.is_nan() || other.is_nan() {
            return false;
        }
        !other.lt(self)
    }

    /// The larger of two values; the other one where one is a NaN.
    #[verifier::when_used_as_spec(spec_max)]
    pub fn max(self, other: Binary64) -> (r: Binary64)
        ensures
            r == self.spec_max(other),
    {
        if self.is_nan() {
            other
        } else if other.is_nan() {
            self
        } else if self.lt(other) {
            other
        } else {
            self
        }
    }

    /// The smaller of two values; the other one where one is a NaN.
    #[verifier::when_used_as_spec(spec_min)]
    pub fn min(self, other: Binary64) -> (r: Binary64)
        ensures
            r == self.spec_min(other),
    {
        if self.is_nan() {
            other
        } else if other.is_nan() {
            self
        } else if other.lt(self) {
            other
        } else {
            self
        }
    }

    /// The value raised to at least `low` and then lowered to at most
    /// `high`. A NaN becomes `low`.
    #[verifier::when_used_as_spec(spec_clamp)]
    pub fn clamp(self, low: Binary64, high: Binary64) -> (r: Binary64)
        ensures
            r == self.spec_clamp(low, high),
    {
        self.max(low).min(high)
    }

    /// `self + rhs`, rounded to nearest with ties to even.
    pub fn plus(self, rhs: Binary64) -> (r: Binary64)
        ensures
            r == self.sum(rhs),
    {
        Binary64 { bits: add_bits(self.bits, rhs.bits) }
    }

    /// `self - rhs`, rounded to nearest with ties to even.
    pub fn minus(self, rhs: Binary64) -> (r: Binary64)
        ensures
            r == self.difference(rhs),
    {
        Binary64 { bits: sub_bits(self.bits, rhs.bits) }
    }

    /// `self * rhs`, rounded to nearest with ties to even.
    pub fn times(self, rhs: Binary64) -> (r: Binary64)
        ensures
            r == self.product(rhs),
    {
        Binary64 { bits: mul_bits(self.bits, rhs.bits) }
    }

    /// `self / rhs`, rounded to nearest with ties to even. Division by zero
    /// gives an infinity or a NaN.
    pub fn over(self, rhs: Binary64) -> (r: Binary64)
        ensures
            r == self.quotient(rhs),
    {
        Binary64 { bits: div_bits(self.bits, rhs.bits) }
    }

    /// The value nearest to the integer `n`, ties to even.
    pub fn from_u64(n: u64) -> (r: Binary64)
        ensures
            r == Binary64::of_u64(n),
    {
        Binary64 { bits: u64_to_bits(n) }
    }
}

/// `Add::add` on `rustc_apfloat::ieee::Double`, between `Double::from_bits`
/// and `Double::to_bits`: the encoding of the sum of the two encoded values,
/// rounded to nearest with ties to even. The contract gives the result its
/// name and claims no more than that equal operands give equal results.
#[verifier::external_body]
fn add_bits(a: u64, b: u64) -> (r: u64)
    ensures
        r == binary64_add(a, b),
{
    (Double::from_bits(a as u128) + Double::from_bits(b as u128)).value.to_bits() as u64
}

/// `Sub::sub` on `rustc_apfloat::ieee::Double`, between `Double::from_bits`
/// and `Double::to_bits`: the encoding of the difference of the two encoded
/// values, rounded to nearest with ties to even. The contract gives the
/// result its name and claims no more than that equal operands give equal
/// results.
#[verifier::external_body]
fn sub_bits(a: u64, b: u64) -> (r: u64)
    ensures
        r == binary64_sub(a, b),
{
    (Double::from_bits(a as u128) - Double::from_bits(b as u128)).value.to_bits() as u64
}

/// `Mul::mul` on `rustc_apfloat::ieee::Double`, between `Double::from_bits`
/// and `Double::to_bits`: the encoding of the product of the two encoded
/// values, rounded to nearest with ties to even. The contract gives the
/// result its name and claims no more than that equal operands give equal
/// results.
#[verifier::external_body]
fn mul_bits(a: u64, b: u64) -> (r: u64)
    ensures
        r == binary64_mul(a, b),
{
    (Double::from_bits(a as u128) * Double::from_bits(b as u128)).value.to_bits() as u64
}

/// `Div::div` on `rustc_apfloat::ieee::Double`, between `Double::from_bits`
/// and `Double::to_bits`: the encoding of the quotient of the two encoded
/// values, rounded to nearest with ties to even; a zero divisor gives an
/// infinity or a NaN, not a failure. The contract gives the result its name
/// and claims no more than that equal operands give equal results.
#[verifier::external_body]
fn div_bits(a: u64, b: u64) -> (r: u64)
    ensures
        r == binary64_div(a, b),
{
    (Double::from_bits(a as u128) / Double::from_bits(b as u128)).value.to_bits() as u64
}

/// `Float::from_u128` on `rustc_apfloat::ieee::Double`, followed by
/// `Double::to_bits`: the encoding of the value nearest to the integer, ties
/// to even. The contract gives the result its name and claims no more than
/// that equal integers give equal results.
#[verifier::external_body]
fn u64_to_bits(n: u64) -> (r: u64)
    ensures
        r == binary64_from_u64(n),
{
    Double::from_u128(n as u128).value.to_bits() as u64
}

/// `max` yields a number whenever one of the operands is one, and that number
/// is at least as large as every operand that is a number.
pub proof fn lemma_max_bounds(a: Binary64, b: Binary64)
    ensures
        !a.spec_is_nan() || !b.spec_is_nan() ==> !a.spec_max(b).spec_is_nan(),
        !a.spec_is_nan() ==> a.spec_le(a.spec_max(b)),
        !b.spec_is_nan() ==> b.spec_le(a.spec_max(b)),
        a.spec_max(b) == a || a.spec_max(b) == b,
{
}

/// `min` yields a number whenever one of the operands is one, and that number
/// is at most as large as every operand that is a number.
pub proof fn lemma_min_bounds(a: Binary64, b: Binary64)
    ensures
        !a.spec_is_nan() || !b.spec_is_nan() ==> !a.spec_min(b).spec_is_nan(),
        !a.spec_is_nan() ==> a.spec_min(b).spec_le(a),
        !b.spec_is_nan() ==> a.spec_min(b).spec_le(b),
        a.spec_min(b) == a || a.spec_min(b) == b,
{
}

/// Clamping to an interval with numeric, ordered bounds lands in the
/// interval, whatever is clamped: a NaN becomes the lower bound. A value that
/// already lies in the interval is returned as it is.
pub proof fn lemma_clamp_within(x: Binary64, low: Binary64, high: Binary64)
    requires
        low.spec_le(high),
    ensures
        x.spec_clamp(low, high).within(low, high),
        x.within(low, high) ==> x.spec_clamp(low, high) == x,
{
}

} // verus!

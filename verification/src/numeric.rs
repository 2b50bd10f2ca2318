//! What the encodings mean as numbers, and why the order on encodings is
//! the order of those numbers.
//!
//! Every finite binary64 value is an integer multiple of 2^-1074, so the
//! value times 2^1074 is an integer. This module defines that integer and
//! proves that [`Binary64::spec_lt`] and [`Binary64::spec_le`] compare it.

use vstd::prelude::*;
use vstd::arithmetic::mul::{lemma_mul_inequality, lemma_mul_strict_inequality};
use vstd::arithmetic::power2::{
    lemma2_to64, lemma2_to64_rest, lemma_pow2_adds, lemma_pow2_pos, lemma_pow2_strictly_increases,
    lemma_pow2_unfold, pow2,
};
use crate::binary64::{
    binary64, Binary64, HUNDREDTH_BITS, HUNDRED_BITS, ONE_BITS, TENTH_BITS, TEN_BITS,
    TEN_THOUSAND_BITS, THOUSAND_BITS, THREE_BITS, TWO_BITS, ZERO_BITS,
};

verus! {

/// The number of values that the fraction field can take: 2^52.
pub const FRACTION_RANGE: u64 = 0x10_0000_0000_0000;

impl Binary64 {
    /// The biased exponent: the eleven bits below the sign bit.
    pub open spec fn exponent_field(self) -> int {
        self.magnitude() / (FRACTION_RANGE as int)
    }

    /// The fraction: the lowest 52 bits.
    pub open spec fn fraction_field(self) -> int {
        self.magnitude() % (FRACTION_RANGE as int)
    }

    /// The absolute value times 2^1074. With a zero exponent field the value
    /// is subnormal and the fraction counts units of 2^-1074; otherwise the
    /// significand has its leading one and is scaled by the exponent. The
    /// same formula puts an infinity at 2^2098, beyond every finite value.
    pub open spec fn scaled_magnitude(self) -> int {
        if self.exponent_field() == 0 {
            self.fraction_field()
        } else {
            (FRACTION_RANGE + self.fraction_field()) * pow2((self.exponent_field() - 1) as nat)
        }
    }

    /// The value times 2^1074, for every encoding that is not a NaN.
    pub open spec fn scaled(self) -> int {
        if self.spec_is_negative() {
            -self.scaled_magnitude()
        } else {
            self.scaled_magnitude()
        }
    }
}

/// A larger magnitude of the encoding is a larger absolute value.
pub proof fn lemma_scaled_magnitude_increases(a: Binary64, b: Binary64)
    requires
        a.magnitude() < b.magnitude(),
    ensures
        0 <= a.scaled_magnitude() < b.scaled_magnitude(),
{
    let range = FRACTION_RANGE as int;
    let ea = a.exponent_field();
    let fa = a.fraction_field();
    let eb = b.exponent_field();
    let fb = b.fraction_field();
    assert(ea <= eb);
    if eb == 0 {
    } else {
        let pb = pow2((eb - 1) as nat);
        lemma_pow2_pos((eb - 1) as nat);
        lemma_mul_inequality(1, pb as int, range + fb);
        assert(b.scaled_magnitude() == (range + fb) * pb);
        assert(pb * (range + fb) == (range + fb) * pb) by (nonlinear_arith);
        assert(range <= b.scaled_magnitude());
        if ea == 0 {
        } else {
            let pa = pow2((ea - 1) as nat);
            lemma_pow2_pos((ea - 1) as nat);
            assert(a.scaled_magnitude() == (range + fa) * pa);
            assert(0 <= (range + fa) * pa) by (nonlinear_arith)
                requires
                    0 <= range + fa,
                    0 < pa,
            ;
            if ea == eb {
                lemma_mul_strict_inequality(range + fa, range + fb, pa as int);
            } else {
                lemma_mul_strict_inequality(range + fa, 2 * range, pa as int);
                lemma_pow2_unfold(ea as nat);
                assert((2 * range) * pa == range * pow2(ea as nat)) by (nonlinear_arith)
                    requires
                        pow2(ea as nat) == 2 * pa,
                ;
                if ea < eb - 1 {
                    lemma_pow2_strictly_increases(ea as nat, (eb - 1) as nat);
                }
                assert(pow2(ea as nat) <= pb);
                assert(range * pow2(ea as nat) <= range * pb) by (nonlinear_arith)
                    requires
                        pow2(ea as nat) <= pb,
                        0 <= range,
                ;
                lemma_mul_inequality(range, range + fb, pb as int);
            }
        }
    }
}

/// Among encodings that are not NaNs, `spec_lt` and `spec_le` are `<` and
/// `<=` of the values, and the two zeros are the only distinct encodings of
/// one value.
pub proof fn lemma_order_is_numeric(a: Binary64, b: Binary64)
    requires
        !a.spec_is_nan(),
        !b.spec_is_nan(),
    ensures
        a.spec_lt(b) <==> a.scaled() < b.scaled(),
        a.spec_le(b) <==> a.scaled() <= b.scaled(),
        a.scaled() == b.scaled() <==> a == b || (a.magnitude() == 0 && b.magnitude() == 0),
{
    if a.magnitude() < b.magnitude() {
        lemma_scaled_magnitude_increases(a, b);
    } else if b.magnitude() < a.magnitude() {
        lemma_scaled_magnitude_increases(b, a);
    }
    if a.magnitude() > 0 {
        lemma_scaled_magnitude_increases(binary64(ZERO_BITS), a);
    }
    if b.magnitude() > 0 {
        lemma_scaled_magnitude_increases(binary64(ZERO_BITS), b);
    }
}

/// The values of the constants that the organism's update uses. Zero, one,
/// two, three, ten, a hundred, a thousand and ten thousand are exact; the
/// tenth and the hundredth are the nearest values that binary64 has, a
/// little above a tenth and a hundredth.
pub proof fn lemma_constants()
    ensures
        binary64(ZERO_BITS).scaled() == 0,
        binary64(ONE_BITS).scaled() == pow2(1074),
        binary64(TWO_BITS).scaled() == 2 * pow2(1074),
        binary64(THREE_BITS).scaled() == 3 * pow2(1074),
        binary64(TEN_BITS).scaled() == 10 * pow2(1074),
        binary64(HUNDRED_BITS).scaled() == 100 * pow2(1074),
        binary64(THOUSAND_BITS).scaled() == 1000 * pow2(1074),
        binary64(TEN_THOUSAND_BITS).scaled() == 10000 * pow2(1074),
        10 * binary64(TENTH_BITS).scaled() == pow2(1074) + 4 * pow2(1018),
        100 * binary64(HUNDREDTH_BITS).scaled() == pow2(1074) + 12 * pow2(1015),
{
    lemma2_to64();
    lemma2_to64_rest();
    assert(binary64(ONE_BITS).scaled() == pow2(1074)) by {
        assert(binary64(ONE_BITS).exponent_field() == 1023);
        assert(binary64(ONE_BITS).fraction_field() == 0);
        lemma_pow2_adds(52, 1022);
    }
    assert(binary64(TWO_BITS).scaled() == 2 * pow2(1074)) by {
        assert(binary64(TWO_BITS).exponent_field() == 1024);
        assert(binary64(TWO_BITS).fraction_field() == 0);
        lemma_pow2_adds(52, 1023);
        lemma_pow2_adds(1, 1074);
    }
    assert(binary64(THREE_BITS).scaled() == 3 * pow2(1074)) by {
        assert(binary64(THREE_BITS).exponent_field() == 1024);
        assert(binary64(THREE_BITS).fraction_field() == 0x8_0000_0000_0000);
        lemma_pow2_adds(51, 1023);
    }
    assert(binary64(TEN_BITS).scaled() == 10 * pow2(1074)) by {
        assert(binary64(TEN_BITS).exponent_field() == 1026);
        assert(binary64(TEN_BITS).fraction_field() == 0x4_0000_0000_0000);
        lemma_pow2_adds(50, 1025);
        lemma_pow2_adds(1, 1074);
    }
    assert(binary64(HUNDRED_BITS).scaled() == 100 * pow2(1074)) by {
        assert(binary64(HUNDRED_BITS).exponent_field() == 1029);
        assert(binary64(HUNDRED_BITS).fraction_field() == 0x9_0000_0000_0000);
        lemma_pow2_adds(48, 1028);
        lemma_pow2_adds(2, 1074);
    }
    assert(binary64(THOUSAND_BITS).scaled() == 1000 * pow2(1074)) by {
        assert(binary64(THOUSAND_BITS).exponent_field() == 1032);
        assert(binary64(THOUSAND_BITS).fraction_field() == 0xF_4000_0000_0000);
        lemma_pow2_adds(44, 1031);
        lemma_pow2_adds(1, 1074);
    }
    assert(binary64(TEN_THOUSAND_BITS).scaled() == 10000 * pow2(1074)) by {
        assert(binary64(TEN_THOUSAND_BITS).exponent_field() == 1036);
        assert(binary64(TEN_THOUSAND_BITS).fraction_field() == 0x3_8800_0000_0000);
        lemma_pow2_adds(40, 1035);
        lemma_pow2_adds(1, 1074);
    }
    assert(10 * binary64(TENTH_BITS).scaled() == pow2(1074) + 4 * pow2(1018)) by {
        assert(binary64(TENTH_BITS).exponent_field() == 1019);
        assert(binary64(TENTH_BITS).fraction_field() == 0x9_9999_9999_999A);
        lemma_pow2_adds(56, 1018);
    }
    assert(100 * binary64(HUNDREDTH_BITS).scaled() == pow2(1074) + 12 * pow2(1015)) by {
        assert(binary64(HUNDREDTH_BITS).exponent_field() == 1016);
        assert(binary64(HUNDREDTH_BITS).fraction_field() == 0x4_7AE1_47AE_147B);
        lemma_pow2_adds(59, 1015);
    }
}

/// What the bounds that the organism keeps mean as numbers: a value that is
/// at least one in the order of encodings is at least 1, and a value within
/// the interval from `0.0` to `high` lies between 0 and the value of `high`.
pub proof fn lemma_bounds_are_numeric(x: Binary64, high: Binary64)
    ensures
        binary64(ONE_BITS).spec_le(x) ==> x.scaled() >= pow2(1074),
        x.within(binary64(ZERO_BITS), high) ==> 0 <= x.scaled() <= high.scaled(),
{
    lemma_constants();
    if binary64(ONE_BITS).spec_le(x) {
        lemma_order_is_numeric(binary64(ONE_BITS), x);
    }
    if x.within(binary64(ZERO_BITS), high) {
        lemma_order_is_numeric(binary64(ZERO_BITS), x);
        lemma_order_is_numeric(x, high);
    }
}

} // verus!

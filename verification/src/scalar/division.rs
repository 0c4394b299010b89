//! Division.

use vstd::prelude::*;
use vstd::arithmetic::power2::{pow2, lemma_pow2_pos, lemma_pow2_adds, lemma2_to64, lemma2_to64_rest};
use crate::scalar::format::{Scalar, Value, HIDDEN_BIT};
use crate::scalar::power::{bit_length, bit_length_u128, pow2_u128, lemma_bit_length_bounds, lemma_pow2_monotonic};
use crate::scalar::rounding::round_pack;

verus! {

/// How far a nonzero mantissa is shifted up to fill 53 bits.
pub open spec fn normal_shift(m: nat) -> int {
    53 - bit_length(m)
}

/// A nonzero mantissa shifted up to exactly 53 bits.
pub open spec fn normal_mantissa(m: nat) -> nat {
    m * pow2(normal_shift(m) as nat)
}

pub proof fn lemma_normal_mantissa(m: nat)
    requires
        0 < m < pow2(53),
    ensures
        0 <= normal_shift(m) <= 52,
        pow2(52) <= normal_mantissa(m) < pow2(53),
{
    let len = bit_length(m);
    lemma_bit_length_bounds(m);
    if len > 53 {
        lemma_pow2_monotonic(53, (len - 1) as nat);
    }
    let up = (53 - len) as nat;
    lemma_pow2_adds((len - 1) as nat, up);
    lemma_pow2_adds(len, up);
    lemma_pow2_pos(up);
    assert(pow2((len - 1) as nat) * pow2(up) <= m * pow2(up)) by (nonlinear_arith)
        requires
            pow2((len - 1) as nat) <= m,
    ;
    assert(m * pow2(up) < pow2(len) * pow2(up)) by (nonlinear_arith)
        requires
            m < pow2(len),
            pow2(up) > 0,
    ;
}

/// The mantissa shifted up to 53 bits, and the shift.
pub(crate) fn normalize(m: u64) -> (r: (u64, i64))
    requires
        0 < m < 2 * HIDDEN_BIT,
    ensures
        r.0 == normal_mantissa(m as nat),
        r.1 == normal_shift(m as nat),
        HIDDEN_BIT <= r.0 < 2 * HIDDEN_BIT,
        0 <= r.1 <= 52,
{
    proof {
        lemma2_to64();
        lemma2_to64_rest();
        lemma_normal_mantissa(m as nat);
    }
    let len = bit_length_u128(m as u128);
    let shift = 53 - len;
    let scale = pow2_u128(shift);
    ((m as u128 * scale) as u64, shift as i64)
}

/// What division rounds: with `n` the dividend's normalized mantissa times
/// `2^64` and `d` the divisor's, the quotient `n / d` has 64 bits or 65, and
/// the true ratio lies from it up to the next integer, on it exactly where
/// nothing is left over.
pub proof fn lemma_quotient_bracket(ma: nat, mb: nat)
    requires
        0 < ma < pow2(53),
        0 < mb < pow2(53),
    ensures
        ({
            let n = normal_mantissa(ma) * pow2(64);
            let d = normal_mantissa(mb);
            &&& d > 0
            &&& (n / d) * d <= n < (n / d + 1) * d
            &&& n % d == 0 <==> (n / d) * d == n
            &&& pow2(63) < n / d < pow2(65)
        }),
{
    let n = normal_mantissa(ma) * pow2(64);
    let d = normal_mantissa(mb);
    let q = n / d;
    lemma_normal_mantissa(ma);
    lemma_normal_mantissa(mb);
    lemma2_to64();
    lemma2_to64_rest();
    lemma_pow2_adds(64, 1);
    vstd::arithmetic::div_mod::lemma_fundamental_div_mod(n as int, d as int);
    vstd::arithmetic::div_mod::lemma_mod_bound(n as int, d as int);
    assert(d * q == q * d) by (nonlinear_arith);
    assert((q + 1) * d == q * d + d) by (nonlinear_arith);
    assert(n >= pow2(52) * pow2(64)) by (nonlinear_arith)
        requires
            n == normal_mantissa(ma) * pow2(64),
            normal_mantissa(ma) >= pow2(52),
    ;
    assert(n < pow2(53) * pow2(64)) by (nonlinear_arith)
        requires
            n == normal_mantissa(ma) * pow2(64),
            normal_mantissa(ma) < pow2(53),
            pow2(64) > 0,
    ;
    if q <= pow2(63) {
        assert((q + 1) * d <= (pow2(63) + 1) * d) by (nonlinear_arith)
            requires
                q <= pow2(63),
                d > 0,
        ;
        assert((pow2(63) + 1) * d <= pow2(52) * pow2(64)) by (nonlinear_arith)
            requires
                d <= 0x1f_ffff_ffff_ffff,
                pow2(52) == 0x10_0000_0000_0000,
                pow2(63) == 0x8000_0000_0000_0000,
                pow2(64) == 0x1_0000_0000_0000_0000,
        ;
        assert(false);
    }
    if q >= pow2(65) {
        assert(q * d >= pow2(65) * pow2(52)) by (nonlinear_arith)
            requires
                q >= pow2(65),
                d >= pow2(52),
        ;
        assert(pow2(65) * pow2(52) == pow2(53) * pow2(64)) by (nonlinear_arith)
            requires
                pow2(65) == 2 * pow2(64),
                pow2(53) == 2 * pow2(52),
        ;
        assert(false);
    }
}

impl Scalar {
    /// The quotient, correctly rounded: the first 64 bits and more of the
    /// ratio of the two normalized mantissas, with what is left of the
    /// division as the sticky bit. Zero by zero and infinity by infinity
    /// are no number; a nonzero value by zero is an infinity.
    #[verifier::opaque]
    pub open spec fn spec_div(self, rhs: Scalar) -> Scalar {
        let negative = self.spec_is_negative() != rhs.spec_is_negative();
        if self.spec_is_nan() || rhs.spec_is_nan() {
            Scalar::spec_nan()
        } else if self.spec_is_infinite() {
            if rhs.spec_is_infinite() {
                Scalar::spec_nan()
            } else {
                Scalar::spec_infinity(negative)
            }
        } else if rhs.spec_is_infinite() {
            Scalar::spec_zero(negative)
        } else if rhs.spec_is_zero() {
            if self.spec_is_zero() {
                Scalar::spec_nan()
            } else {
                Scalar::spec_infinity(negative)
            }
        } else if self.spec_is_zero() {
            Scalar::spec_zero(negative)
        } else {
            let ma = self.spec_mantissa();
            let mb = rhs.spec_mantissa();
            let numerator = normal_mantissa(ma) * pow2(64);
            let denominator = normal_mantissa(mb);
            Scalar::spec_rounded(
                negative,
                numerator / denominator,
                numerator % denominator != 0,
                (self.spec_exponent() - normal_shift(ma)) - (rhs.spec_exponent() - normal_shift(
                    mb,
                )) - 64,
            )
        }
    }

    /// One over the value.
    pub open spec fn spec_recip(self) -> Scalar {
        Scalar::spec_one().spec_div(self)
    }

    /// The number one.
    pub open spec fn spec_one() -> Scalar {
        Scalar { bits: 0x3ff0_0000_0000_0000 }
    }

    /// The number one half.
    pub open spec fn spec_half() -> Scalar {
        Scalar { bits: 0x3fe0_0000_0000_0000 }
    }

    /// The number one.
    pub fn one() -> (r: Scalar)
        ensures
            r == Scalar::spec_one(),
            r@ == (Value::Number { negative: false, mantissa: 0x10_0000_0000_0000, exponent: -52 }),
    {
        Scalar { bits: 0x3ff0_0000_0000_0000 }
    }

    /// The number one half.
    pub fn half() -> (r: Scalar)
        ensures
            r == Scalar::spec_half(),
            r@ == (Value::Number { negative: false, mantissa: 0x10_0000_0000_0000, exponent: -53 }),
    {
        Scalar { bits: 0x3fe0_0000_0000_0000 }
    }

    /// The quotient, correctly rounded.
    pub fn div(self, rhs: Scalar) -> (r: Scalar)
        ensures
            r == self.spec_div(rhs),
    {
        proof {
            reveal(Scalar::spec_div);
        }
        let negative = self.is_negative() != rhs.is_negative();
        if self.is_nan() || rhs.is_nan() {
            Scalar::nan()
        } else if self.is_infinite() {
            if rhs.is_infinite() {
                Scalar::nan()
            } else {
                Scalar::infinity(negative)
            }
        } else if rhs.is_infinite() {
            Scalar::zero(negative)
        } else if rhs.is_zero() {
            if self.is_zero() {
                Scalar::nan()
            } else {
                Scalar::infinity(negative)
            }
        } else if self.is_zero() {
            Scalar::zero(negative)
        } else {
            let (a, shift_a) = normalize(self.mantissa());
            let (b, shift_b) = normalize(rhs.mantissa());
            proof {
                lemma2_to64();
                lemma2_to64_rest();
                lemma_pow2_adds(53, 64);
                lemma_pow2_monotonic(117, 120);
            }
            let numerator: u128 = a as u128 * 0x1_0000_0000_0000_0000u128;
            let quotient = numerator / (b as u128);
            let exact = numerator % (b as u128) == 0;
            assert(quotient <= numerator) by (nonlinear_arith)
                requires
                    quotient == numerator / (b as u128),
                    b >= 1,
            ;
            round_pack(
                negative,
                quotient,
                !exact,
                (self.exponent() - shift_a) - (rhs.exponent() - shift_b) - 64,
            )
        }
    }

    /// One over the value, correctly rounded.
    pub fn recip(self) -> (r: Scalar)
        ensures
            r == self.spec_recip(),
    {
        Scalar::one().div(self)
    }
}

} // verus!

//! Negation, addition, subtraction and multiplication.

use vstd::prelude::*;
use vstd::arithmetic::power2::{pow2, lemma_pow2_pos, lemma_pow2_adds, lemma2_to64, lemma2_to64_rest};
use crate::scalar::format::{Scalar, HIDDEN_BIT};
use crate::scalar::power::{pow2_u128, lemma_pow2_monotonic};
use crate::scalar::rounding::{round_pack, lemma_round_scaled, lemma_rounded_parts};

verus! {

/// The sum of two finite magnitudes with their signs, the first at the
/// higher exponent: `+-ma * 2^ea +- mb * 2^eb`, rounded. A sum that is
/// exactly zero is negative only where both terms are.
pub open spec fn sum_rounded(na: bool, ma: nat, ea: int, nb: bool, mb: nat, eb: int) -> Scalar
    recommends
        ea >= eb,
{
    let high = ma * pow2((ea - eb) as nat);
    let sum = (if na { -(high as int) } else { high as int })
        + (if nb { -(mb as int) } else { mb as int });
    if sum == 0 {
        Scalar::spec_zero(na && nb)
    } else if sum < 0 {
        Scalar::spec_rounded(true, (-sum) as nat, false, eb)
    } else {
        Scalar::spec_rounded(false, sum as nat, false, eb)
    }
}

impl Scalar {
    /// The same magnitude with the other sign.
    pub open spec fn spec_neg(self) -> Scalar {
        Scalar::spec_from_parts(!self.spec_is_negative(), self.spec_magnitude())
    }

    /// The same magnitude with the sign cleared.
    pub open spec fn spec_abs(self) -> Scalar {
        Scalar::spec_from_parts(false, self.spec_magnitude())
    }

    /// The product, correctly rounded. Infinity times zero is not a number.
    #[verifier::opaque]
    pub open spec fn spec_mul(self, rhs: Scalar) -> Scalar {
        let negative = self.spec_is_negative() != rhs.spec_is_negative();
        if self.spec_is_nan() || rhs.spec_is_nan() {
            Scalar::spec_nan()
        } else if self.spec_is_infinite() || rhs.spec_is_infinite() {
            if self.spec_is_zero() || rhs.spec_is_zero() {
                Scalar::spec_nan()
            } else {
                Scalar::spec_infinity(negative)
            }
        } else {
            Scalar::spec_rounded(
                negative,
                self.spec_mantissa() * rhs.spec_mantissa(),
                false,
                self.spec_exponent() + rhs.spec_exponent(),
            )
        }
    }

    /// The sum, correctly rounded. Infinities of opposite sign add up to
    /// no number; a sum that is exactly zero is negative only where both
    /// terms are.
    #[verifier::opaque]
    pub open spec fn spec_add(self, rhs: Scalar) -> Scalar {
        if self.spec_is_nan() || rhs.spec_is_nan() {
            Scalar::spec_nan()
        } else if self.spec_is_infinite() {
            if rhs.spec_is_infinite() && self.spec_is_negative() != rhs.spec_is_negative() {
                Scalar::spec_nan()
            } else {
                self
            }
        } else if rhs.spec_is_infinite() {
            rhs
        } else if self.spec_exponent() >= rhs.spec_exponent() {
            sum_rounded(
                self.spec_is_negative(),
                self.spec_mantissa(),
                self.spec_exponent(),
                rhs.spec_is_negative(),
                rhs.spec_mantissa(),
                rhs.spec_exponent(),
            )
        } else {
            sum_rounded(
                rhs.spec_is_negative(),
                rhs.spec_mantissa(),
                rhs.spec_exponent(),
                self.spec_is_negative(),
                self.spec_mantissa(),
                self.spec_exponent(),
            )
        }
    }

    /// The difference: the sum with the negated subtrahend.
    pub open spec fn spec_sub(self, rhs: Scalar) -> Scalar {
        self.spec_add(rhs.spec_neg())
    }

    /// The value of a count; every `u32` is a binary64 number.
    pub open spec fn spec_from_u32(count: u32) -> Scalar {
        Scalar::spec_rounded(false, count as nat, false, 0)
    }

    /// The value of a count.
    pub fn from_u32(count: u32) -> (r: Scalar)
        ensures
            r == Scalar::spec_from_u32(count),
    {
        proof {
            lemma2_to64();
            lemma_pow2_monotonic(32, 120);
        }
        round_pack(false, count as u128, false, 0)
    }

    /// The negated value.
    pub fn neg(self) -> (r: Scalar)
        ensures
            r == self.spec_neg(),
    {
        Scalar::from_parts(!self.is_negative(), self.magnitude_bits())
    }

    /// The absolute value.
    pub fn abs(self) -> (r: Scalar)
        ensures
            r == self.spec_abs(),
    {
        Scalar::from_parts(false, self.magnitude_bits())
    }

    /// The product, correctly rounded.
    pub fn mul(self, rhs: Scalar) -> (r: Scalar)
        ensures
            r == self.spec_mul(rhs),
    {
        proof {
            reveal(Scalar::spec_mul);
        }
        let negative = self.is_negative() != rhs.is_negative();
        if self.is_nan() || rhs.is_nan() {
            Scalar::nan()
        } else if self.is_infinite() || rhs.is_infinite() {
            if self.is_zero() || rhs.is_zero() {
                Scalar::nan()
            } else {
                Scalar::infinity(negative)
            }
        } else {
            let ma = self.mantissa() as u128;
            let mb = rhs.mantissa() as u128;
            proof {
                lemma2_to64();
                lemma2_to64_rest();
                lemma_pow2_adds(53, 53);
                lemma_pow2_monotonic(106, 120);
                assert(ma * mb < pow2(53) * pow2(53)) by (nonlinear_arith)
                    requires
                        ma < pow2(53),
                        mb < pow2(53),
                ;
            }
            round_pack(negative, ma * mb, false, self.exponent() + rhs.exponent())
        }
    }

    /// The sum, correctly rounded.
    pub fn add(self, rhs: Scalar) -> (r: Scalar)
        ensures
            r == self.spec_add(rhs),
    {
        proof {
            reveal(Scalar::spec_add);
        }
        if self.is_nan() || rhs.is_nan() {
            Scalar::nan()
        } else if self.is_infinite() {
            if rhs.is_infinite() && self.is_negative() != rhs.is_negative() {
                Scalar::nan()
            } else {
                self
            }
        } else if rhs.is_infinite() {
            rhs
        } else if self.exponent() >= rhs.exponent() {
            add_ordered(self, rhs)
        } else {
            add_ordered(rhs, self)
        }
    }

    /// The difference, correctly rounded.
    pub fn sub(self, rhs: Scalar) -> (r: Scalar)
        ensures
            r == self.spec_sub(rhs),
    {
        self.add(rhs.neg())
    }
}

/// The sum of two finite values, the first at the higher exponent.
fn add_ordered(a: Scalar, b: Scalar) -> (r: Scalar)
    requires
        a.spec_is_finite(),
        b.spec_is_finite(),
        a.spec_exponent() >= b.spec_exponent(),
    ensures
        r == sum_rounded(
            a.spec_is_negative(),
            a.spec_mantissa(),
            a.spec_exponent(),
            b.spec_is_negative(),
            b.spec_mantissa(),
            b.spec_exponent(),
        ),
{
    let ea = a.exponent();
    let eb = b.exponent();
    if ea - eb <= 64 {
        add_near(a.is_negative(), a.mantissa(), ea, b.is_negative(), b.mantissa(), eb)
    } else {
        add_far(a.is_negative(), a.mantissa(), ea, b.is_negative(), b.mantissa(), eb)
    }
}

/// The sum of two terms whose exponents are at most 64 apart: the higher
/// term is shifted down to the lower exponent, and the sum is exact.
fn add_near(na: bool, ma: u64, ea: i64, nb: bool, mb: u64, eb: i64) -> (r: Scalar)
    requires
        ma < 2 * HIDDEN_BIT,
        mb < 2 * HIDDEN_BIT,
        -1074 <= eb <= ea <= 972,
        ea - eb <= 64,
    ensures
        r == sum_rounded(na, ma as nat, ea as int, nb, mb as nat, eb as int),
{
    let gap = ea - eb;
    let scale = pow2_u128(gap as u32);
    proof {
        lemma_rounded_parts(na, 0, false, eb as int);
        lemma2_to64();
        lemma2_to64_rest();
        lemma_pow2_monotonic(gap as nat, 64);
        lemma_pow2_adds(53, 64);
        lemma_pow2_monotonic(117, 119);
        lemma_pow2_monotonic(119, 120);
        lemma_pow2_adds(119, 1);
        assert(ma * scale < pow2(53) * pow2(64)) by (nonlinear_arith)
            requires
                ma < pow2(53),
                scale <= pow2(64),
                pow2(64) > 0,
        ;
    }
    let high = ma as u128 * scale;
    let low = mb as u128;
    if na == nb {
        round_pack(na, high + low, false, eb)
    } else if high > low {
        round_pack(na, high - low, false, eb)
    } else if high < low {
        round_pack(nb, low - high, false, eb)
    } else {
        Scalar::zero(false)
    }
}

/// The sum of two terms whose exponents are more than 64 apart. The lower
/// term is below a quarter of the last place that `ma * 8` holds: it only
/// says on which side of `ma * 8` the sum lies.
fn add_far(na: bool, ma: u64, ea: i64, nb: bool, mb: u64, eb: i64) -> (r: Scalar)
    requires
        HIDDEN_BIT <= ma < 2 * HIDDEN_BIT,
        mb < 2 * HIDDEN_BIT,
        -1074 <= eb <= ea <= 972,
        ea - eb > 64,
    ensures
        r == sum_rounded(na, ma as nat, ea as int, nb, mb as nat, eb as int),
{
    let ghost gap = (ea - eb) as nat;
    let ghost cut = (gap - 3) as nat;
    let eight = ma as u128 * 8;
    proof {
        lemma2_to64();
        lemma2_to64_rest();
        lemma_pow2_pos(cut);
        lemma_pow2_adds(3, cut);
        lemma_pow2_monotonic(53, cut);
        lemma_pow2_monotonic(56, 120);
        assert(ma * pow2(gap) == eight * pow2(cut)) by (nonlinear_arith)
            requires
                eight == ma * 8,
                pow2(gap) == 8 * pow2(cut),
        ;
    }
    if mb == 0 || na == nb {
        proof {
            lemma_round_scaled(eight as nat, cut, mb as nat, eb as int);
            assert(eight * pow2(cut) + mb > 0) by (nonlinear_arith)
                requires
                    eight > 0,
                    pow2(cut) > 0,
            ;
        }
        round_pack(na, eight, mb != 0, ea - 3)
    } else {
        proof {
            let low = (pow2(cut) - mb) as nat;
            lemma_round_scaled((eight - 1) as nat, cut, low, eb as int);
            assert((eight - 1) * pow2(cut) + low == eight * pow2(cut) - mb) by (nonlinear_arith)
                requires
                    low == pow2(cut) - mb,
            ;
            assert(eight * pow2(cut) - mb > 0) by (nonlinear_arith)
                requires
                    eight >= 1,
                    mb < pow2(cut),
            ;
        }
        round_pack(na, eight - 1, true, ea - 3)
    }
}

} // verus!

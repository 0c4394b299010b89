//! Square roots.

use vstd::prelude::*;
use vstd::arithmetic::power2::{pow2, lemma_pow2_pos, lemma_pow2_adds, lemma_pow2_unfold, lemma2_to64, lemma2_to64_rest};
use crate::scalar::format::Scalar;
use crate::scalar::power::lemma_pow2_monotonic;
use crate::scalar::division::{normalize, normal_mantissa, normal_shift};
use crate::scalar::rounding::round_pack;

verus! {

/// `r` is the square root of `n`, rounded down.
pub open spec fn is_integer_sqrt(n: nat, r: nat) -> bool {
    r * r <= n < (r + 1) * (r + 1)
}

/// The square root of `n`, rounded down.
pub open spec fn integer_sqrt(n: nat) -> nat {
    choose|r: nat| is_integer_sqrt(n, r)
}

/// No number has two rounded-down roots.
pub proof fn lemma_integer_sqrt_unique(n: nat, r: nat)
    requires
        is_integer_sqrt(n, r),
    ensures
        integer_sqrt(n) == r,
{
    let s = integer_sqrt(n);
    assert(is_integer_sqrt(n, s));
    if s < r {
        assert((s + 1) * (s + 1) <= r * r) by (nonlinear_arith)
            requires
                s + 1 <= r,
        ;
    } else if r < s {
        assert((r + 1) * (r + 1) <= s * s) by (nonlinear_arith)
            requires
                r + 1 <= s,
        ;
    }
}

/// Every number has a rounded-down root, so `integer_sqrt` is it.
pub proof fn lemma_integer_sqrt(n: nat)
    ensures
        is_integer_sqrt(n, integer_sqrt(n)),
    decreases n,
{
    if n == 0 {
        assert(is_integer_sqrt(0, 0)) by (nonlinear_arith);
    } else {
        lemma_integer_sqrt(n / 4);
        let h = integer_sqrt(n / 4);
        let low = 2 * h;
        assert(low * low <= n && n < (low + 2) * (low + 2)) by (nonlinear_arith)
            requires
                h * h <= n / 4,
                n / 4 < (h + 1) * (h + 1),
                low == 2 * h,
        ;
        if (low + 1) * (low + 1) <= n {
            assert(is_integer_sqrt(n, low + 1));
        } else {
            assert(is_integer_sqrt(n, low));
        }
    }
}

/// The square root of `n`, rounded down, found bit by bit from the top.
pub(crate) fn integer_sqrt_u128(n: u128) -> (r: u128)
    requires
        n < pow2(114),
    ensures
        r == integer_sqrt(n as nat),
        is_integer_sqrt(n as nat, r as nat),
        r < pow2(57),
{
    let mut r: u128 = 0;
    let mut span: u128 = 0x200_0000_0000_0000;
    let mut steps: u32 = 57;
    proof {
        lemma2_to64();
        lemma2_to64_rest();
        lemma_pow2_adds(57, 57);
    }
    while steps > 0
        invariant
            steps <= 57,
            span == pow2(steps as nat),
            r + span <= pow2(57),
            pow2(57) == 0x200_0000_0000_0000,
            r * r <= n,
            n < (r + span) * (r + span),
        decreases steps,
    {
        proof {
            lemma_pow2_unfold(steps as nat);
            lemma_pow2_pos((steps - 1) as nat);
        }
        let bit = span / 2;
        let candidate = r + bit;
        assert(candidate * candidate <= 0x200_0000_0000_0000 * 0x200_0000_0000_0000)
            by (nonlinear_arith)
            requires
                candidate <= 0x200_0000_0000_0000,
        ;
        if candidate * candidate <= n {
            r = candidate;
        }
        span = bit;
        steps = steps - 1;
    }
    proof {
        lemma_integer_sqrt_unique(n as nat, r as nat);
    }
    r
}

impl Scalar {
    /// The square root, correctly rounded: the root of the normalized
    /// mantissa, scaled to carry 56 bits and rounded down, with "not a
    /// perfect square" as the sticky bit. A zero keeps its sign, and no
    /// other negative value has a root.
    #[verifier::opaque]
    pub open spec fn spec_sqrt(self) -> Scalar {
        if self.spec_is_nan() {
            Scalar::spec_nan()
        } else if self.spec_is_zero() {
            self
        } else if self.spec_is_negative() {
            Scalar::spec_nan()
        } else if self.spec_is_infinite() {
            self
        } else {
            let m = self.spec_mantissa();
            let e = self.spec_exponent() - normal_shift(m);
            let odd = e % 2 != 0;
            let radicand = normal_mantissa(m) * (if odd {
                2 * pow2(58)
            } else {
                pow2(58)
            });
            let root = integer_sqrt(radicand);
            Scalar::spec_rounded(
                false,
                root,
                root * root != radicand,
                ((if odd {
                    e - 1
                } else {
                    e
                }) - 58) / 2,
            )
        }
    }

    /// The square root, correctly rounded.
    pub fn sqrt(self) -> (r: Scalar)
        ensures
            r == self.spec_sqrt(),
    {
        proof {
            reveal(Scalar::spec_sqrt);
        }
        if self.is_nan() {
            Scalar::nan()
        } else if self.is_zero() {
            self
        } else if self.is_negative() {
            Scalar::nan()
        } else if self.is_infinite() {
            self
        } else {
            let (a, shift) = normalize(self.mantissa());
            let e = self.exponent() - shift;
            // 1200 is even and lifts every exponent above zero.
            let lifted = (e + 1200) as u64;
            let odd = lifted % 2 != 0;
            proof {
                lemma2_to64();
                lemma2_to64_rest();
                lemma_pow2_adds(54, 58);
                lemma_pow2_monotonic(112, 114);
                lemma_pow2_monotonic(57, 120);
                assert(a as u128 * 0x800_0000_0000_0000u128 < 0x20_0000_0000_0000 * 0x800_0000_0000_0000)
                    by (nonlinear_arith)
                    requires
                        a < 0x20_0000_0000_0000,
                ;
            }
            let radicand: u128 = if odd {
                a as u128 * 0x800_0000_0000_0000u128
            } else {
                a as u128 * 0x400_0000_0000_0000u128
            };
            let root = integer_sqrt_u128(radicand);
            let sticky = root * root != radicand;
            let halved = ((if odd {
                lifted - 1
            } else {
                lifted
            }) / 2) as i64 - 629;
            round_pack(false, root, sticky, halved)
        }
    }
}

} // verus!

//! Rounding to nearest, ties to even, of a magnitude `q * 2^e`.

use vstd::prelude::*;
use vstd::arithmetic::power2::{pow2, lemma_pow2_pos, lemma_pow2_adds, lemma_pow2_unfold, lemma2_to64, lemma2_to64_rest};
use vstd::arithmetic::div_mod::{lemma_basic_div, lemma_small_mod, lemma_breakdown, lemma_div_denominator, lemma_fundamental_div_mod_converse};
use crate::scalar::format::{Scalar, HIDDEN_BIT, INFINITY_BITS};
use crate::scalar::power::{bit_length, bit_length_u128, pow2_u128, lemma_bit_length_bounds, lemma_bit_length_scaled, lemma_pow2_monotonic, lemma_pow2_128};

verus! {

/// `q / 2^shift` rounded to the nearest integer, ties to the even one.
/// `sticky` says that the magnitude in hand lies strictly between `q` and
/// `q + 1`, so that no tie is a real tie and half is more than half.
pub open spec fn rounded_mantissa(q: nat, sticky: bool, shift: nat) -> nat
    recommends
        shift >= 1,
{
    let kept = q / pow2(shift);
    let rest = q % pow2(shift);
    let half = pow2((shift - 1) as nat);
    if rest > half || (rest == half && (sticky || kept % 2 == 1)) {
        kept + 1
    } else {
        kept
    }
}

/// The exponent at which `q * 2^e` is written with 53 bits, or the least
/// exponent of the format where that one is lower.
pub open spec fn target_exponent(q: nat, e: int) -> int {
    let natural = e + bit_length(q) - 53;
    if natural < -1074 {
        -1074
    } else {
        natural
    }
}

/// The mantissa of `q * 2^e` at its target exponent: the magnitude itself
/// where that exponent is not above `e`, else the nearest integer to it.
pub open spec fn mantissa_at_target(q: nat, sticky: bool, e: int) -> nat {
    let target = target_exponent(q, e);
    if target <= e {
        q * pow2((e - target) as nat)
    } else {
        rounded_mantissa(q, sticky, (target - e) as nat)
    }
}

/// The magnitude bits of `m * 2^exponent`, for a mantissa that has 53 bits
/// or has fewer at the least exponent. A mantissa of `2^53`, which rounding
/// up can give, carries into the exponent by itself. Where the exponent is
/// too large for the format, the bits of infinity.
pub open spec fn packed(m: nat, exponent: int) -> nat {
    let bits = (exponent + 1074) * HIDDEN_BIT + m;
    if bits >= INFINITY_BITS {
        INFINITY_BITS as nat
    } else {
        bits as nat
    }
}

/// The magnitude bits of the binary64 value nearest to `q * 2^e` (to a
/// magnitude strictly between `q * 2^e` and `(q + 1) * 2^e` where `sticky`
/// is set), ties to even; the bits of infinity where that value is too
/// large for the format.
#[verifier::opaque]
pub open spec fn round_magnitude(q: nat, sticky: bool, e: int) -> nat
    recommends
        sticky ==> q >= pow2(54),
{
    if q == 0 {
        0
    } else {
        packed(mantissa_at_target(q, sticky, e), target_exponent(q, e))
    }
}

impl Scalar {
    /// The value nearest to `q * 2^e`, with the given sign.
    pub open spec fn spec_rounded(negative: bool, q: nat, sticky: bool, e: int) -> Scalar {
        Scalar::spec_from_parts(negative, round_magnitude(q, sticky, e))
    }
}

/// A rounded value has the sign it was given and the magnitude that
/// rounding gives, which is at most that of infinity: it is a number.
pub broadcast proof fn lemma_rounded_parts(negative: bool, q: nat, sticky: bool, e: int)
    ensures
        #![trigger Scalar::spec_rounded(negative, q, sticky, e)]
        round_magnitude(q, sticky, e) <= INFINITY_BITS,
        Scalar::spec_rounded(negative, q, sticky, e).spec_magnitude() == round_magnitude(
            q,
            sticky,
            e,
        ),
        Scalar::spec_rounded(negative, q, sticky, e).spec_is_negative() == negative,
        !Scalar::spec_rounded(negative, q, sticky, e).spec_is_nan(),
        q == 0 ==> Scalar::spec_rounded(negative, q, sticky, e) == Scalar::spec_zero(negative),
{
    reveal(round_magnitude);
}

/// Where the target exponent is at or below `e`, the scaled mantissa has at
/// most 53 bits.
proof fn lemma_scaled_up_bound(q: nat, e: int)
    requires
        q > 0,
        target_exponent(q, e) <= e,
    ensures
        e - target_exponent(q, e) <= 52,
        q * pow2((e - target_exponent(q, e)) as nat) < pow2(53),
{
    let len = bit_length(q);
    let up = (e - target_exponent(q, e)) as nat;
    lemma_bit_length_bounds(q);
    assert(up + len <= 53);
    lemma_pow2_adds(len, up);
    lemma_pow2_monotonic(len + up, 53);
    lemma_pow2_pos(up);
    assert(q * pow2(up) < pow2(len) * pow2(up)) by (nonlinear_arith)
        requires
            q < pow2(len),
            pow2(up) > 0,
    ;
}

/// The low `k` bits of a magnitude can be cut off before it is rounded, if
/// `sticky` remembers whether any of them was set, and if, where one was,
/// at least 55 bits are left: two more than the format keeps.
pub proof fn lemma_round_scaled(q: nat, k: nat, t: nat, e: int)
    requires
        q > 0,
        t < pow2(k),
        t > 0 ==> q >= pow2(54),
    ensures
        round_magnitude(q * pow2(k) + t, false, e) == round_magnitude(q, t > 0, e + k),
{
    reveal(round_magnitude);
    let n = q * pow2(k) + t;
    let len = bit_length(q);
    lemma_pow2_pos(k);
    lemma_bit_length_scaled(q, k, t);
    lemma_bit_length_bounds(q);
    assert(n > 0) by (nonlinear_arith)
        requires
            n == q * pow2(k) + t,
            q > 0,
            pow2(k) > 0,
    ;
    if t > 0 && len < 55 {
        lemma_pow2_monotonic(len, 54);
    }
    let target = target_exponent(q, e + k);
    assert(target == target_exponent(n, e));
    assert(n / pow2(k) == q && n % pow2(k) == t) by {
        lemma_fundamental_div_mod_converse(n as int, pow2(k) as int, q as int, t as int);
    }
    if target <= e + k {
        assert(t == 0);
        let up = (e + k - target) as nat;
        if target <= e {
            lemma_pow2_adds(k, (e - target) as nat);
            assert(q * pow2(k) * pow2((e - target) as nat) == q * (pow2(k) * pow2((e - target) as nat)))
                by (nonlinear_arith);
        } else {
            let down = (target - e) as nat;
            lemma_pow2_adds(up, down);
            lemma_pow2_pos(down);
            lemma_pow2_pos(up);
            assert(n == (q * pow2(up)) * pow2(down)) by (nonlinear_arith)
                requires
                    n == q * pow2(k),
                    pow2(k) == pow2(up) * pow2(down),
            ;
            lemma_fundamental_div_mod_converse(n as int, pow2(down) as int, (q * pow2(up)) as int, 0);
            lemma_pow2_pos((down - 1) as nat);
        }
    } else {
        let down = (target - e - k) as nat;
        lemma_pow2_pos(down);
        lemma_pow2_adds(k, down);
        lemma_pow2_adds(k, (down - 1) as nat);
        lemma_div_denominator(n as int, pow2(k) as int, pow2(down) as int);
        lemma_breakdown(n as int, pow2(k) as int, pow2(down) as int);
        let rest = q % pow2(down);
        let half = pow2((down - 1) as nat);
        assert(n % pow2(k + down) == pow2(k) * rest + t);
        assert(pow2(k + (down - 1) as nat) == pow2(k) * half);
        assert(pow2(k) * rest + t > pow2(k) * half <==> rest > half || (rest == half && t > 0))
            by (nonlinear_arith)
            requires
                t < pow2(k),
        ;
        assert(pow2(k) * rest + t == pow2(k) * half <==> rest == half && t == 0)
            by (nonlinear_arith)
            requires
                t < pow2(k),
        ;
        assert((k + down - 1) as nat == k + (down - 1) as nat);
    }
}

/// Packs the value nearest to `q * 2^e` into its bits.
pub(crate) fn round_pack(negative: bool, q: u128, sticky: bool, e: i64) -> (r: Scalar)
    requires
        q < pow2(120),
        -5000 <= e <= 5000,
    ensures
        r == Scalar::spec_rounded(negative, q as nat, sticky, e as int),
        r.spec_is_negative() == negative,
        !r.spec_is_nan(),
{
    proof {
        reveal(round_magnitude);
    }
    if q == 0 {
        return Scalar::from_parts(negative, 0);
    }
    let len = bit_length_u128(q);
    proof {
        lemma_bit_length_bounds(q as nat);
        if len > 120 {
            lemma_pow2_monotonic(120, (len - 1) as nat);
        }
        lemma2_to64();
        lemma2_to64_rest();
        lemma_pow2_128();
        lemma_pow2_monotonic(120, 127);
        lemma_pow2_monotonic(53, 120);
    }
    let natural: i64 = e + len as i64 - 53;
    let target: i64 = if natural < -1074 {
        -1074
    } else {
        natural
    };
    assert(target == target_exponent(q as nat, e as int));
    let m: u128 = if target <= e {
        proof {
            lemma_scaled_up_bound(q as nat, e as int);
        }
        let up = pow2_u128((e - target) as u32);
        q * up
    } else {
        let shift = target - e;
        if shift > 127 {
            proof {
                let s = shift as nat;
                lemma_pow2_128();
                lemma_pow2_monotonic(127, (s - 1) as nat);
                lemma_pow2_monotonic(120, 127);
                lemma_pow2_monotonic(127, s);
                lemma_basic_div(q as int, pow2(s) as int);
                lemma_small_mod(q as nat, pow2(s));
            }
            0
        } else {
            let p = pow2_u128(shift as u32);
            let kept = q / p;
            let rest = q % p;
            let half = p / 2;
            proof {
                lemma_pow2_unfold(shift as nat);
                assert(q / p <= q) by (nonlinear_arith)
                    requires
                        p >= 1,
                ;
            }
            if rest > half || (rest == half && (sticky || kept % 2 == 1)) {
                kept + 1
            } else {
                kept
            }
        }
    };
    assert(m == mantissa_at_target(q as nat, sticky, e as int));
    assert(m <= pow2(120));
    let biased = (target + 1074) as u128;
    assert(biased * HIDDEN_BIT <= 7000 * 0x10_0000_0000_0000) by (nonlinear_arith)
        requires
            biased <= 7000,
            HIDDEN_BIT == 0x10_0000_0000_0000,
    ;
    let packed: u128 = biased * (HIDDEN_BIT as u128) + m;
    if packed >= INFINITY_BITS as u128 {
        Scalar::from_parts(negative, INFINITY_BITS)
    } else {
        Scalar::from_parts(negative, packed as u64)
    }
}

} // verus!

//! What rounding gives: the value it returns is a whole number of units in
//! the last place, within half a unit of the magnitude it was given.

use vstd::prelude::*;
use vstd::arithmetic::power2::{pow2, lemma_pow2_pos, lemma_pow2_adds, lemma_pow2_unfold, lemma2_to64, lemma2_to64_rest};
use vstd::arithmetic::div_mod::{lemma_fundamental_div_mod, lemma_mod_bound};
use crate::scalar::format::{Scalar, HIDDEN_BIT, INFINITY_BITS};
use crate::scalar::power::{bit_length, lemma_bit_length_bounds, lemma_pow2_monotonic};
use crate::scalar::rounding::{mantissa_at_target, packed, rounded_mantissa, round_magnitude, target_exponent};

verus! {

/// Rounding to the nearest integer errs by half at most, and on a tie
/// gives the even one. With `sticky` set the whole of `q..q + 1` is within
/// half of what it gives.
pub proof fn lemma_rounded_mantissa_error(q: nat, sticky: bool, shift: nat)
    requires
        shift >= 1,
    ensures
        ({
            let m = rounded_mantissa(q, sticky, shift);
            let unit = pow2(shift);
            let half = pow2((shift - 1) as nat);
            &&& unit == 2 * half
            &&& m * unit - half <= q <= m * unit + half
            &&& sticky ==> q + 1 <= m * unit + half
            &&& !sticky && (q == m * unit - half || q == m * unit + half) ==> m % 2 == 0
        }),
{
    let unit = pow2(shift);
    let half = pow2((shift - 1) as nat);
    let kept = q / unit;
    let rest = q % unit;
    lemma_pow2_unfold(shift);
    lemma_pow2_pos(shift);
    lemma_fundamental_div_mod(q as int, unit as int);
    lemma_mod_bound(q as int, unit as int);
    assert((kept + 1) * unit == kept * unit + unit) by (nonlinear_arith);
    assert(unit * kept == kept * unit) by (nonlinear_arith);
}

/// The mantissa at the target exponent has 53 bits at most, counting the
/// `2^53` that rounding up can give, and has all 53 where the target
/// exponent is not the least one.
pub proof fn lemma_mantissa_at_target_bounds(q: nat, sticky: bool, e: int)
    requires
        q > 0,
    ensures
        mantissa_at_target(q, sticky, e) <= pow2(53),
        target_exponent(q, e) > -1074 ==> mantissa_at_target(q, sticky, e) >= pow2(52),
{
    let len = bit_length(q);
    let target = target_exponent(q, e);
    lemma_bit_length_bounds(q);
    if target <= e {
        let up = (e - target) as nat;
        lemma_pow2_pos(up);
        lemma_pow2_adds(len, up);
        lemma_pow2_monotonic(len + up, 53);
        assert(q * pow2(up) < pow2(len) * pow2(up)) by (nonlinear_arith)
            requires
                q < pow2(len),
                pow2(up) > 0,
        ;
        if target > -1074 {
            lemma_pow2_adds((len - 1) as nat, up);
            assert(pow2((len - 1) as nat) * pow2(up) <= q * pow2(up)) by (nonlinear_arith)
                requires
                    pow2((len - 1) as nat) <= q,
            ;
        }
    } else {
        let down = (target - e) as nat;
        let unit = pow2(down);
        let kept = q / unit;
        lemma_pow2_pos(down);
        lemma_fundamental_div_mod(q as int, unit as int);
        lemma_mod_bound(q as int, unit as int);
        assert(unit * kept == kept * unit) by (nonlinear_arith);
        if len >= down {
            let top = (len - down) as nat;
            lemma_pow2_adds(top, down);
            lemma_pow2_monotonic(top, 53);
            assert(kept < pow2(top)) by (nonlinear_arith)
                requires
                    kept * unit <= q,
                    q < pow2(top) * unit,
                    unit > 0,
            ;
        } else {
            lemma_pow2_monotonic(len, down);
            lemma_pow2_pos(53);
            assert(kept == 0) by (nonlinear_arith)
                requires
                    kept * unit <= q,
                    q < unit,
            ;
        }
        if target > -1074 {
            assert(len - down == 53);
            lemma_pow2_adds(52, down);
            if kept < pow2(52) {
                assert((kept + 1) * unit <= pow2(52) * unit) by (nonlinear_arith)
                    requires
                        kept + 1 <= pow2(52),
                        unit > 0,
                ;
                assert((kept + 1) * unit == kept * unit + unit) by (nonlinear_arith);
                assert(false);
            }
        }
    }
}

/// What the packed bits hold: the mantissa and exponent that were packed,
/// or, for the mantissa `2^53`, the same magnitude as `2^52` at the next
/// exponent.
pub proof fn lemma_packed_value(negative: bool, m: nat, exponent: int)
    requires
        m <= pow2(53),
        exponent >= -1074,
        exponent > -1074 ==> m >= pow2(52),
    ensures
        ({
            let r = Scalar::spec_from_parts(negative, packed(m, exponent));
            &&& r.spec_is_negative() == negative
            &&& r.spec_is_infinite() <==> exponent > 971 || (exponent == 971 && m == pow2(53))
            &&& !r.spec_is_nan()
            &&& r.spec_is_finite() && m < pow2(53) ==> r.spec_mantissa() == m && r.spec_exponent()
                == exponent
            &&& r.spec_is_finite() && m == pow2(53) ==> r.spec_mantissa() == pow2(52)
                && r.spec_exponent() == exponent + 1
        }),
{
    lemma2_to64();
    lemma2_to64_rest();
    let bits = (exponent + 1074) * HIDDEN_BIT + m;
    if bits < INFINITY_BITS {
        let r = Scalar::spec_from_parts(negative, bits as nat);
        assert(r.spec_magnitude() == bits);
        if m < pow2(52) {
            assert(exponent == -1074);
            assert(bits == m);
        } else if m < pow2(53) {
            let field = exponent + 1075;
            assert(bits == field * HIDDEN_BIT + (m - HIDDEN_BIT));
            assert(r.spec_biased_exponent() == field && r.spec_fraction() == m - HIDDEN_BIT) by {
                vstd::arithmetic::div_mod::lemma_fundamental_div_mod_converse(
                    bits,
                    HIDDEN_BIT as int,
                    field,
                    m - HIDDEN_BIT,
                );
            }
        } else {
            let field = exponent + 1076;
            assert(bits == field * HIDDEN_BIT);
            assert(r.spec_biased_exponent() == field && r.spec_fraction() == 0) by {
                vstd::arithmetic::div_mod::lemma_fundamental_div_mod_converse(
                    bits,
                    HIDDEN_BIT as int,
                    field,
                    0,
                );
            }
        }
    }
}

/// The value that rounding returns for a magnitude `q * 2^e`. Unless it is
/// an infinity, its mantissa and exponent are the mantissa at the target
/// exponent and that exponent, which is within half a unit in the last
/// place of the magnitude, and even on a tie.
pub proof fn lemma_rounded_value(negative: bool, q: nat, sticky: bool, e: int)
    requires
        q > 0,
    ensures
        ({
            let r = Scalar::spec_rounded(negative, q, sticky, e);
            let m = mantissa_at_target(q, sticky, e);
            let target = target_exponent(q, e);
            &&& r.spec_is_negative() == negative
            &&& !r.spec_is_nan()
            &&& r.spec_is_infinite() <==> target > 971 || (target == 971 && m == pow2(53))
            &&& r.spec_is_finite() && m < pow2(53) ==> r.spec_mantissa() == m && r.spec_exponent()
                == target
            &&& r.spec_is_finite() && m == pow2(53) ==> r.spec_mantissa() == pow2(52)
                && r.spec_exponent() == target + 1
            &&& target <= e ==> m == q * pow2((e - target) as nat)
            &&& target > e ==> {
                let unit = pow2((target - e) as nat);
                let half = pow2((target - e - 1) as nat);
                &&& unit == 2 * half
                &&& m * unit - half <= q <= m * unit + half
                &&& sticky ==> q + 1 <= m * unit + half
                &&& !sticky && (q == m * unit - half || q == m * unit + half) ==> m % 2 == 0
            }
        }),
{
    reveal(round_magnitude);
    let target = target_exponent(q, e);
    lemma_mantissa_at_target_bounds(q, sticky, e);
    lemma_packed_value(negative, mantissa_at_target(q, sticky, e), target);
    if target > e {
        lemma_rounded_mantissa_error(q, sticky, (target - e) as nat);
    }
}

/// A count becomes the number it is: `mantissa * 2^exponent` with an
/// exponent below zero by which the mantissa is scaled up.
pub proof fn lemma_from_u32_exact(count: u32)
    requires
        count > 0,
    ensures
        ({
            let r = Scalar::spec_from_u32(count);
            &&& r.spec_is_finite()
            &&& !r.spec_is_negative()
            &&& r.spec_exponent() < 0
            &&& r.spec_mantissa() == count * pow2((-r.spec_exponent()) as nat)
        }),
{
    let q = count as nat;
    lemma2_to64();
    lemma2_to64_rest();
    lemma_bit_length_bounds(q);
    let len = bit_length(q);
    if len > 32 {
        lemma_pow2_monotonic(32, (len - 1) as nat);
    }
    lemma_rounded_value(false, q, false, 0);
    lemma_mantissa_at_target_bounds(q, false, 0);
    let up = (53 - len) as nat;
    lemma_pow2_adds(len, up);
    lemma_pow2_pos(up);
    assert(q * pow2(up) < pow2(len) * pow2(up)) by (nonlinear_arith)
        requires
            q < pow2(len),
            pow2(up) > 0,
    ;
}

/// A finite value rounds to itself.
pub proof fn lemma_round_trip(a: Scalar)
    requires
        a.spec_is_finite(),
    ensures
        Scalar::spec_rounded(a.spec_is_negative(), a.spec_mantissa(), false, a.spec_exponent())
            == a,
{
    reveal(round_magnitude);
    lemma2_to64();
    lemma2_to64_rest();
    let m = a.spec_mantissa();
    let e = a.spec_exponent();
    if m > 0 {
        lemma_bit_length_bounds(m);
        let len = bit_length(m);
        if len > 53 {
            lemma_pow2_monotonic(53, (len - 1) as nat);
        }
        if a.spec_biased_exponent() > 0 && len < 53 {
            lemma_pow2_monotonic(len, 52);
        }
        assert(target_exponent(m, e) == e);
        assert(m * pow2(0) == m);
        let field = a.spec_biased_exponent();
        lemma_fundamental_div_mod(a.spec_magnitude() as int, HIDDEN_BIT as int);
    }
}

} // verus!

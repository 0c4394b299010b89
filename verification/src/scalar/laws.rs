//! What holds of the arithmetic whatever the operands: how the operations
//! treat signs, and that they take the same values to the same value.

use vstd::prelude::*;
use vstd::arithmetic::power2::{pow2, lemma2_to64, lemma_pow2_pos};
use crate::scalar::format::Scalar;
use crate::scalar::nearest::lemma_round_trip;
use crate::scalar::rounding::{lemma_round_scaled, lemma_rounded_parts};
use crate::scalar::arith::sum_rounded;
use crate::scalar::division::{normal_mantissa, normal_shift};

verus! {

/// Two values that are the same and not zero have the same bits, unless
/// neither is a number.
pub proof fn lemma_same_bits(a: Scalar, b: Scalar)
    requires
        a.spec_same(b),
        !a.spec_is_nan(),
        !a.spec_is_zero(),
    ensures
        a == b,
{
}

/// Negation changes the sign and nothing else.
pub proof fn lemma_neg_parts(a: Scalar)
    ensures
        a.spec_neg().spec_magnitude() == a.spec_magnitude(),
        a.spec_neg().spec_is_negative() == !a.spec_is_negative(),
        a.spec_neg().spec_neg() == a,
{
}

/// The order of the factors does not matter.
pub proof fn lemma_mul_commutative(a: Scalar, b: Scalar)
    ensures
        a.spec_mul(b) == b.spec_mul(a),
{
    broadcast use lemma_rounded_parts;

    reveal(Scalar::spec_mul);
    assert(a.spec_mantissa() * b.spec_mantissa() == b.spec_mantissa() * a.spec_mantissa())
        by (nonlinear_arith);
}

/// The product of the same values is the same value.
pub proof fn lemma_mul_same(a: Scalar, a2: Scalar, b: Scalar, b2: Scalar)
    requires
        a.spec_same(a2),
        b.spec_same(b2),
    ensures
        a.spec_mul(b).spec_same(a2.spec_mul(b2)),
{
    broadcast use lemma_rounded_parts;

    reveal(Scalar::spec_mul);
    if a.spec_is_nan() || b.spec_is_nan() {
    } else if a.spec_is_zero() || b.spec_is_zero() {
        assert(a.spec_mantissa() * b.spec_mantissa() == 0) by (nonlinear_arith)
            requires
                a.spec_mantissa() == 0 || b.spec_mantissa() == 0,
        ;
        assert(a2.spec_mantissa() * b2.spec_mantissa() == 0) by (nonlinear_arith)
            requires
                a2.spec_mantissa() == 0 || b2.spec_mantissa() == 0,
        ;
    } else {
        lemma_same_bits(a, a2);
        lemma_same_bits(b, b2);
    }
}

/// Negating a factor negates the product.
pub proof fn lemma_mul_neg(a: Scalar, b: Scalar)
    ensures
        a.spec_neg().spec_mul(b).spec_same(a.spec_mul(b).spec_neg()),
{
    broadcast use lemma_rounded_parts;

    reveal(Scalar::spec_mul);
    lemma_neg_parts(a);
}

/// The square of a value is the square of its negation, bit for bit.
pub proof fn lemma_square_neg(a: Scalar)
    ensures
        a.spec_neg().spec_mul(a.spec_neg()) == a.spec_mul(a),
{
    broadcast use lemma_rounded_parts;

    reveal(Scalar::spec_mul);
    lemma_neg_parts(a);
}

/// The quotient of the same values is the same value, where the divisor
/// is not zero: a zero's sign decides the sign of the infinity it gives.
pub proof fn lemma_div_same(a: Scalar, a2: Scalar, b: Scalar, b2: Scalar)
    requires
        a.spec_same(a2),
        b.spec_same(b2),
        !b.spec_is_zero(),
    ensures
        a.spec_div(b).spec_same(a2.spec_div(b2)),
{
    broadcast use lemma_rounded_parts;

    reveal(Scalar::spec_div);
    if a.spec_is_nan() || b.spec_is_nan() {
    } else {
        lemma_same_bits(b, b2);
        if !a.spec_is_zero() {
            lemma_same_bits(a, a2);
        }
    }
}

/// The quotient of the same dividends by one divisor is the same value.
pub proof fn lemma_div_same_dividend(a: Scalar, a2: Scalar, b: Scalar)
    requires
        a.spec_same(a2),
    ensures
        a.spec_div(b).spec_same(a2.spec_div(b)),
{
    broadcast use lemma_rounded_parts;

    reveal(Scalar::spec_div);
    if !a.spec_is_nan() && !a.spec_is_zero() {
        lemma_same_bits(a, a2);
    }
}

/// A rounded value with the other sign is the negated rounded value.
pub proof fn lemma_rounded_neg(negative: bool, q: nat, sticky: bool, e: int)
    ensures
        Scalar::spec_rounded(!negative, q, sticky, e) == Scalar::spec_rounded(
            negative,
            q,
            sticky,
            e,
        ).spec_neg(),
{
    broadcast use lemma_rounded_parts;

}

/// Negating the dividend negates the quotient.
pub proof fn lemma_div_neg(a: Scalar, b: Scalar)
    ensures
        a.spec_neg().spec_div(b).spec_same(a.spec_div(b).spec_neg()),
{
    broadcast use lemma_rounded_parts;

    reveal(Scalar::spec_div);
    lemma_neg_parts(a);
    let n = a.spec_neg();
    let negative = a.spec_is_negative() != b.spec_is_negative();
    if a.spec_is_nan() || b.spec_is_nan() {
    } else if a.spec_is_infinite() || b.spec_is_infinite() {
    } else if a.spec_is_zero() || b.spec_is_zero() {
    } else {
        assert(n.spec_mantissa() == a.spec_mantissa());
        assert(n.spec_exponent() == a.spec_exponent());
        let ma = a.spec_mantissa();
        let mb = b.spec_mantissa();
        let numerator = normal_mantissa(ma) * pow2(64);
        let denominator = normal_mantissa(mb);
        let e = (a.spec_exponent() - normal_shift(ma)) - (b.spec_exponent() - normal_shift(mb))
            - 64;
        lemma_rounded_neg(negative, numerator / denominator, numerator % denominator != 0, e);
    }
}

/// Two terms at one exponent can change places.
proof fn lemma_sum_rounded_symmetric(na: bool, ma: nat, nb: bool, mb: nat, e: int)
    ensures
        sum_rounded(na, ma, e, nb, mb, e) == sum_rounded(nb, mb, e, na, ma, e),
{
    broadcast use lemma_rounded_parts;

    lemma2_to64();
    assert(ma * pow2(0) == ma);
    assert(mb * pow2(0) == mb);
}

/// The sum of the negated terms is the negated sum, but for the sign of a
/// zero.
proof fn lemma_sum_rounded_neg(na: bool, ma: nat, ea: int, nb: bool, mb: nat, eb: int)
    ensures
        sum_rounded(!na, ma, ea, !nb, mb, eb).spec_same(
            sum_rounded(na, ma, ea, nb, mb, eb).spec_neg(),
        ),
{
    broadcast use lemma_rounded_parts;

    let high = ma * pow2((ea - eb) as nat);
    let sum = (if na {
        -(high as int)
    } else {
        high as int
    }) + (if nb {
        -(mb as int)
    } else {
        mb as int
    });
    if sum < 0 {
        lemma_rounded_neg(true, (-sum) as nat, false, eb);
    } else if sum > 0 {
        lemma_rounded_neg(false, sum as nat, false, eb);
    }
}

/// The order of the terms does not matter.
pub proof fn lemma_add_commutative(a: Scalar, b: Scalar)
    ensures
        a.spec_add(b) == b.spec_add(a),
{
    broadcast use lemma_rounded_parts;

    reveal(Scalar::spec_add);
    if a.spec_is_finite() && b.spec_is_finite() && a.spec_exponent() == b.spec_exponent() {
        lemma_sum_rounded_symmetric(
            a.spec_is_negative(),
            a.spec_mantissa(),
            b.spec_is_negative(),
            b.spec_mantissa(),
            a.spec_exponent(),
        );
    }
}

/// A zero term leaves the sum to the other term, whatever the zero's sign.
proof fn lemma_sum_rounded_zero_term(na: bool, ma: nat, ea: int, nb: bool, mb: nat, eb: int)
    requires
        ea >= eb,
    ensures
        ma == 0 && mb != 0 ==> sum_rounded(na, ma, ea, nb, mb, eb) == sum_rounded(
            !na,
            ma,
            ea,
            nb,
            mb,
            eb,
        ),
        ma != 0 && mb == 0 ==> sum_rounded(na, ma, ea, nb, mb, eb) == sum_rounded(
            na,
            ma,
            ea,
            !nb,
            mb,
            eb,
        ),
        ma == 0 && mb == 0 ==> sum_rounded(na, ma, ea, nb, mb, eb).spec_is_zero(),
{
    broadcast use lemma_rounded_parts;

    let scale = pow2((ea - eb) as nat);
    lemma_pow2_pos((ea - eb) as nat);
    if ma == 0 {
        assert(ma * scale == 0) by (nonlinear_arith)
            requires
                ma == 0,
        ;
    } else {
        assert(ma * scale > 0) by (nonlinear_arith)
            requires
                ma > 0,
                scale > 0,
        ;
    }
}

/// The sum of the same values is the same value.
pub proof fn lemma_add_same(a: Scalar, a2: Scalar, b: Scalar, b2: Scalar)
    requires
        a.spec_same(a2),
        b.spec_same(b2),
    ensures
        a.spec_add(b).spec_same(a2.spec_add(b2)),
{
    broadcast use lemma_rounded_parts;

    reveal(Scalar::spec_add);
    if a.spec_is_nan() || b.spec_is_nan() {
    } else if !a.spec_is_zero() && !b.spec_is_zero() {
        lemma_same_bits(a, a2);
        lemma_same_bits(b, b2);
    } else if !a.spec_is_zero() {
        lemma_same_bits(a, a2);
        if a.spec_is_finite() {
            assert(b.spec_mantissa() == 0 && b2.spec_mantissa() == 0);
            assert(b.spec_exponent() == b2.spec_exponent());
            lemma_sum_rounded_zero_term(
                a.spec_is_negative(),
                a.spec_mantissa(),
                a.spec_exponent(),
                b.spec_is_negative(),
                b.spec_mantissa(),
                b.spec_exponent(),
            );
            if a.spec_exponent() == b.spec_exponent() {
                lemma_sum_rounded_symmetric(
                    a.spec_is_negative(),
                    a.spec_mantissa(),
                    b.spec_is_negative(),
                    b.spec_mantissa(),
                    a.spec_exponent(),
                );
                lemma_sum_rounded_symmetric(
                    a.spec_is_negative(),
                    a.spec_mantissa(),
                    b2.spec_is_negative(),
                    b.spec_mantissa(),
                    a.spec_exponent(),
                );
            }
        }
    } else if !b.spec_is_zero() {
        lemma_same_bits(b, b2);
        if b.spec_is_finite() {
            assert(a.spec_mantissa() == 0 && a2.spec_mantissa() == 0);
            assert(a.spec_exponent() == a2.spec_exponent());
            lemma_sum_rounded_zero_term(
                b.spec_is_negative(),
                b.spec_mantissa(),
                b.spec_exponent(),
                a.spec_is_negative(),
                a.spec_mantissa(),
                a.spec_exponent(),
            );
            if a.spec_exponent() == b.spec_exponent() {
                lemma_sum_rounded_symmetric(
                    a.spec_is_negative(),
                    a.spec_mantissa(),
                    b.spec_is_negative(),
                    b.spec_mantissa(),
                    a.spec_exponent(),
                );
                lemma_sum_rounded_symmetric(
                    a2.spec_is_negative(),
                    a.spec_mantissa(),
                    b.spec_is_negative(),
                    b.spec_mantissa(),
                    a.spec_exponent(),
                );
            }
        }
    } else {
        assert(a.spec_mantissa() == 0 && a2.spec_mantissa() == 0);
        assert(b.spec_mantissa() == 0 && b2.spec_mantissa() == 0);
        lemma_sum_rounded_zero_term(
            a.spec_is_negative(),
            0,
            a.spec_exponent(),
            b.spec_is_negative(),
            0,
            b.spec_exponent(),
        );
        lemma_sum_rounded_zero_term(
            a2.spec_is_negative(),
            0,
            a2.spec_exponent(),
            b2.spec_is_negative(),
            0,
            b2.spec_exponent(),
        );
    }
}

/// Negation goes through a sum, but for the sign of a zero.
pub proof fn lemma_add_neg(a: Scalar, b: Scalar)
    ensures
        a.spec_neg().spec_add(b.spec_neg()).spec_same(a.spec_add(b).spec_neg()),
{
    broadcast use lemma_rounded_parts;

    reveal(Scalar::spec_add);
    lemma_neg_parts(a);
    lemma_neg_parts(b);
    let x = a.spec_neg();
    let y = b.spec_neg();
    if a.spec_is_finite() && b.spec_is_finite() {
        assert(x.spec_mantissa() == a.spec_mantissa());
        assert(y.spec_mantissa() == b.spec_mantissa());
        assert(x.spec_exponent() == a.spec_exponent());
        assert(y.spec_exponent() == b.spec_exponent());
        if a.spec_exponent() >= b.spec_exponent() {
            lemma_sum_rounded_neg(
                a.spec_is_negative(),
                a.spec_mantissa(),
                a.spec_exponent(),
                b.spec_is_negative(),
                b.spec_mantissa(),
                b.spec_exponent(),
            );
        } else {
            lemma_sum_rounded_neg(
                b.spec_is_negative(),
                b.spec_mantissa(),
                b.spec_exponent(),
                a.spec_is_negative(),
                a.spec_mantissa(),
                a.spec_exponent(),
            );
        }
    }
}

/// Swapping the operands of a difference negates it.
pub proof fn lemma_sub_antisymmetric(a: Scalar, b: Scalar)
    ensures
        b.spec_sub(a).spec_same(a.spec_sub(b).spec_neg()),
{
    lemma_neg_parts(b);
    lemma_add_commutative(b, a.spec_neg());
    lemma_add_neg(a, b.spec_neg());
}

/// The root of the same value is the same value.
pub proof fn lemma_sqrt_same(a: Scalar, a2: Scalar)
    requires
        a.spec_same(a2),
    ensures
        a.spec_sqrt().spec_same(a2.spec_sqrt()),
{
    broadcast use lemma_rounded_parts;

    reveal(Scalar::spec_sqrt);
    if !a.spec_is_nan() && !a.spec_is_zero() {
        lemma_same_bits(a, a2);
    }
}

/// A finite value less itself is the positive zero.
pub proof fn lemma_sub_self(a: Scalar)
    requires
        a.spec_is_finite(),
    ensures
        a.spec_sub(a) == Scalar::spec_zero(false),
{
    broadcast use lemma_rounded_parts;

    reveal(Scalar::spec_add);
    lemma2_to64();
    lemma_neg_parts(a);
    let b = a.spec_neg();
    assert(b.spec_mantissa() == a.spec_mantissa());
    assert(b.spec_exponent() == a.spec_exponent());
    assert(a.spec_mantissa() * pow2(0) == a.spec_mantissa());
}

/// The magnitude of a product is decided by the magnitudes of the factors,
/// and its sign by their signs; so is whether it is a number.
pub proof fn lemma_mul_magnitude(a: Scalar, b: Scalar, a2: Scalar, b2: Scalar)
    requires
        a.spec_magnitude() == a2.spec_magnitude(),
        b.spec_magnitude() == b2.spec_magnitude(),
    ensures
        a.spec_mul(b).spec_magnitude() == a2.spec_mul(b2).spec_magnitude(),
        (a.spec_is_negative() != b.spec_is_negative()) == (a2.spec_is_negative()
            != b2.spec_is_negative()) ==> a.spec_mul(b).spec_same(a2.spec_mul(b2)),
        !a.spec_mul(b).spec_is_nan() ==> a.spec_mul(b).spec_is_negative() == (a.spec_is_negative()
            != b.spec_is_negative()),
        a.spec_is_nan() || b.spec_is_nan() ==> a.spec_mul(b).spec_is_nan(),
{
    broadcast use lemma_rounded_parts;

    reveal(Scalar::spec_mul);
    assert(a.spec_mantissa() == a2.spec_mantissa());
    assert(b.spec_mantissa() == b2.spec_mantissa());
    assert(a.spec_exponent() == a2.spec_exponent());
    assert(b.spec_exponent() == b2.spec_exponent());
}

/// A quotient that is a number is negative exactly where one of dividend
/// and divisor is.
pub proof fn lemma_div_sign(a: Scalar, b: Scalar)
    ensures
        !a.spec_div(b).spec_is_nan() ==> a.spec_div(b).spec_is_negative() == (a.spec_is_negative()
            != b.spec_is_negative()),
        a.spec_is_nan() || b.spec_is_nan() ==> a.spec_div(b).spec_is_nan(),
{
    broadcast use lemma_rounded_parts;

    reveal(Scalar::spec_div);
    let negative = a.spec_is_negative() != b.spec_is_negative();
    assert(Scalar::spec_infinity(negative).spec_is_negative() == negative);
    assert(Scalar::spec_zero(negative).spec_is_negative() == negative);
    assert(!Scalar::spec_infinity(negative).spec_is_nan());
    assert(!Scalar::spec_zero(negative).spec_is_nan());
    if a.spec_is_finite() && b.spec_is_finite() && !a.spec_is_zero() && !b.spec_is_zero() {
        let ma = a.spec_mantissa();
        let mb = b.spec_mantissa();
        let numerator = normal_mantissa(ma) * pow2(64);
        let denominator = normal_mantissa(mb);
        lemma_rounded_parts(
            negative,
            numerator / denominator,
            numerator % denominator != 0,
            (a.spec_exponent() - normal_shift(ma)) - (b.spec_exponent() - normal_shift(mb)) - 64,
        );
    }
}

/// A product that is a number is negative exactly where one of the factors
/// is.
pub proof fn lemma_mul_sign(a: Scalar, b: Scalar)
    ensures
        !a.spec_mul(b).spec_is_nan() ==> a.spec_mul(b).spec_is_negative() == (a.spec_is_negative()
            != b.spec_is_negative()),
        a.spec_is_nan() || b.spec_is_nan() ==> a.spec_mul(b).spec_is_nan(),
{
    broadcast use lemma_rounded_parts;

    reveal(Scalar::spec_mul);
}

/// Zero times a finite value is zero, with the sign of the product.
pub proof fn lemma_mul_zero(a: Scalar, b: Scalar)
    requires
        a.spec_is_zero(),
        b.spec_is_finite(),
    ensures
        a.spec_mul(b).spec_is_zero(),
        a.spec_mul(b).spec_is_negative() == (a.spec_is_negative() != b.spec_is_negative()),
{
    broadcast use lemma_rounded_parts;

    reveal(Scalar::spec_mul);
    assert(a.spec_mantissa() * b.spec_mantissa() == 0) by (nonlinear_arith)
        requires
            a.spec_mantissa() == 0,
    ;
}

/// Adding a zero changes no value.
pub proof fn lemma_add_zero(a: Scalar, zero: Scalar)
    requires
        zero.spec_is_zero(),
    ensures
        a.spec_add(zero).spec_same(a),
        zero.spec_add(a).spec_same(a),
{
    lemma_add_commutative(a, zero);
    lemma_add_same(a, a, zero, Scalar::spec_zero(false));
    let plain = Scalar::spec_zero(false);
    reveal(Scalar::spec_add);
    lemma2_to64();
    if a.spec_is_finite() {
        assert(plain.spec_mantissa() == 0);
        assert(plain.spec_exponent() == -1074);
        lemma_sum_rounded_zero_term(
            a.spec_is_negative(),
            a.spec_mantissa(),
            a.spec_exponent(),
            false,
            0,
            -1074,
        );
        if a.spec_mantissa() > 0 {
            let scale = pow2((a.spec_exponent() + 1074) as nat);
            lemma_pow2_pos((a.spec_exponent() + 1074) as nat);
            lemma_round_trip(a);
            lemma_round_scaled(a.spec_mantissa(), (a.spec_exponent() + 1074) as nat, 0, -1074);
            assert(a.spec_mantissa() * scale > 0) by (nonlinear_arith)
                requires
                    a.spec_mantissa() > 0,
                    scale > 0,
            ;
        }
    }
}

/// Zero over a value that is a number and not zero is zero.
pub proof fn lemma_div_zero(zero: Scalar, b: Scalar)
    requires
        zero.spec_is_zero(),
        !b.spec_is_zero(),
        !b.spec_is_nan(),
    ensures
        zero.spec_div(b).spec_is_zero(),
{
    reveal(Scalar::spec_div);
}

/// Zero plus zero is zero, negative only where both are.
pub proof fn lemma_add_zeros(a: Scalar, b: Scalar)
    requires
        a.spec_is_zero(),
        b.spec_is_zero(),
    ensures
        a.spec_add(b) == Scalar::spec_zero(a.spec_is_negative() && b.spec_is_negative()),
{
    broadcast use lemma_rounded_parts;

    reveal(Scalar::spec_add);
    lemma2_to64();
    assert(a.spec_mantissa() == 0 && b.spec_mantissa() == 0);
    assert(0 * pow2(0) == 0);
}

/// Zero times zero, zero plus zero and the root of zero are zero.
pub proof fn lemma_zero_arithmetic()
    ensures
        Scalar::spec_zero(false).spec_mul(Scalar::spec_zero(false)) == Scalar::spec_zero(false),
        Scalar::spec_zero(false).spec_add(Scalar::spec_zero(false)) == Scalar::spec_zero(false),
        Scalar::spec_zero(false).spec_sqrt() == Scalar::spec_zero(false),
{
    broadcast use lemma_rounded_parts;

    reveal(Scalar::spec_mul);
    reveal(Scalar::spec_add);
    reveal(Scalar::spec_sqrt);
    lemma2_to64();
    let zero = Scalar::spec_zero(false);
    assert(zero.bits == 0);
    assert(zero.spec_mantissa() == 0);
    assert(zero.spec_mantissa() * zero.spec_mantissa() == 0);
    assert(0 * pow2(0) == 0);
}

} // verus!

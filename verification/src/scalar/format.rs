//! The binary64 interchange format: sign, biased exponent and fraction.

use vstd::prelude::*;

verus! {

/// The bit that holds the sign.
pub const SIGN_BIT: u64 = 0x8000_0000_0000_0000;

/// The bit just above the fraction: the leading one of a normal mantissa.
pub const HIDDEN_BIT: u64 = 0x0010_0000_0000_0000;

/// The magnitude bits of an infinity: all exponent bits, no fraction bit.
pub const INFINITY_BITS: u64 = 0x7ff0_0000_0000_0000;

/// The one pattern that arithmetic here produces for "not a number".
pub const NAN_BITS: u64 = 0x7ff8_0000_0000_0000;

/// The exponent of the smallest positive value, 2^-1074.
pub const MIN_EXPONENT: i64 = -1074;

/// A binary64 number held as its 64-bit pattern.
///
/// Bit 63 is the sign, bits 62..52 the biased exponent, bits 51..0 the
/// fraction. A finite value is `mantissa * 2^exponent`, negated when the
/// sign bit is set.
#[derive(Clone, Copy, Debug)]
pub struct Scalar {
    pub bits: u64,
}

/// What a pattern stands for.
pub enum Value {
    /// No number: the result of an operation that has none, such as zero
    /// by zero.
    NotANumber,
    /// An infinity: what overflows, and a nonzero number by zero.
    Infinity { negative: bool },
    /// The number `mantissa * 2^exponent`, negated where `negative` is set.
    /// Zero has both signs.
    Number { negative: bool, mantissa: nat, exponent: int },
}

impl View for Scalar {
    type V = Value;

    open spec fn view(&self) -> Value {
        if self.spec_is_nan() {
            Value::NotANumber
        } else if self.spec_is_infinite() {
            Value::Infinity { negative: self.spec_is_negative() }
        } else {
            Value::Number {
                negative: self.spec_is_negative(),
                mantissa: self.spec_mantissa(),
                exponent: self.spec_exponent(),
            }
        }
    }
}

/// Two patterns that stand for one value, which is not "no number", are one
/// pattern.
pub proof fn lemma_value_decides_bits(a: Scalar, b: Scalar)
    requires
        a@ == b@,
        !(a@ is NotANumber),
    ensures
        a == b,
{
    if a.spec_is_finite() {
        vstd::arithmetic::div_mod::lemma_fundamental_div_mod(
            a.spec_magnitude() as int,
            HIDDEN_BIT as int,
        );
        vstd::arithmetic::div_mod::lemma_fundamental_div_mod(
            b.spec_magnitude() as int,
            HIDDEN_BIT as int,
        );
    }
}

impl Scalar {
    /// The pattern without its sign bit.
    pub open spec fn spec_magnitude(self) -> nat {
        (self.bits % SIGN_BIT) as nat
    }

    /// The sign bit is set.
    pub open spec fn spec_is_negative(self) -> bool {
        self.bits >= SIGN_BIT
    }

    /// The exponent field, 0 to 2047.
    pub open spec fn spec_biased_exponent(self) -> nat {
        self.spec_magnitude() / (HIDDEN_BIT as nat)
    }

    /// The fraction field, below `2^52`.
    pub open spec fn spec_fraction(self) -> nat {
        self.spec_magnitude() % (HIDDEN_BIT as nat)
    }

    /// Not a number: all exponent bits and some fraction bit.
    pub open spec fn spec_is_nan(self) -> bool {
        self.spec_magnitude() > INFINITY_BITS
    }

    /// An infinity: all exponent bits and no fraction bit.
    pub open spec fn spec_is_infinite(self) -> bool {
        self.spec_magnitude() == INFINITY_BITS
    }

    /// A number that is no infinity.
    pub open spec fn spec_is_finite(self) -> bool {
        self.spec_magnitude() < INFINITY_BITS
    }

    /// A zero, of either sign.
    pub open spec fn spec_is_zero(self) -> bool {
        self.spec_magnitude() == 0
    }

    /// The integer `m` of a finite value `m * 2^e`: the fraction, with the
    /// hidden bit above it unless the value is zero or subnormal.
    pub open spec fn spec_mantissa(self) -> nat {
        if self.spec_biased_exponent() == 0 {
            self.spec_fraction()
        } else {
            HIDDEN_BIT as nat + self.spec_fraction()
        }
    }

    /// The integer `e` of a finite value `m * 2^e`.
    pub open spec fn spec_exponent(self) -> int {
        if self.spec_biased_exponent() == 0 {
            MIN_EXPONENT as int
        } else {
            self.spec_biased_exponent() - 1075
        }
    }

    /// The value with the given sign and magnitude bits.
    pub open spec fn spec_from_parts(negative: bool, magnitude: nat) -> Scalar
        recommends
            magnitude < SIGN_BIT,
    {
        Scalar {
            bits: if negative {
                (SIGN_BIT + magnitude) as u64
            } else {
                magnitude as u64
            },
        }
    }

    /// The zero of the given sign.
    pub open spec fn spec_zero(negative: bool) -> Scalar {
        Scalar::spec_from_parts(negative, 0)
    }

    /// The infinity of the given sign.
    pub open spec fn spec_infinity(negative: bool) -> Scalar {
        Scalar::spec_from_parts(negative, INFINITY_BITS as nat)
    }

    /// The one "not a number" that arithmetic returns.
    pub open spec fn spec_nan() -> Scalar {
        Scalar { bits: NAN_BITS }
    }

    /// The value with the given pattern.
    pub fn from_bits(bits: u64) -> (r: Scalar)
        ensures
            r.bits == bits,
    {
        Scalar { bits }
    }

    /// The pattern of the value.
    pub fn to_bits(self) -> (r: u64)
        ensures
            r == self.bits,
    {
        self.bits
    }

    /// The pattern without its sign bit.
    pub fn magnitude_bits(self) -> (r: u64)
        ensures
            r == self.spec_magnitude(),
            r < SIGN_BIT,
    {
        self.bits % SIGN_BIT
    }

    /// Whether the sign bit is set, as it is in -0 too.
    #[verifier::when_used_as_spec(spec_is_negative)]
    pub fn is_negative(self) -> (r: bool)
        ensures
            r == self.spec_is_negative(),
    {
        self.bits >= SIGN_BIT
    }

    /// Whether the value is not a number.
    #[verifier::when_used_as_spec(spec_is_nan)]
    pub fn is_nan(self) -> (r: bool)
        ensures
            r == self.spec_is_nan(),
    {
        self.magnitude_bits() > INFINITY_BITS
    }

    /// Whether the value is an infinity.
    #[verifier::when_used_as_spec(spec_is_infinite)]
    pub fn is_infinite(self) -> (r: bool)
        ensures
            r == self.spec_is_infinite(),
    {
        self.magnitude_bits() == INFINITY_BITS
    }

    /// Whether the value is a number and no infinity.
    #[verifier::when_used_as_spec(spec_is_finite)]
    pub fn is_finite(self) -> (r: bool)
        ensures
            r == self.spec_is_finite(),
    {
        self.magnitude_bits() < INFINITY_BITS
    }

    /// Whether the value is a zero, of either sign.
    #[verifier::when_used_as_spec(spec_is_zero)]
    pub fn is_zero(self) -> (r: bool)
        ensures
            r == self.spec_is_zero(),
    {
        self.magnitude_bits() == 0
    }

    /// The mantissa of a finite value.
    pub fn mantissa(self) -> (r: u64)
        ensures
            r == self.spec_mantissa(),
            self.spec_is_finite() ==> r < 2 * HIDDEN_BIT,
    {
        let magnitude = self.magnitude_bits();
        if magnitude / HIDDEN_BIT == 0 {
            magnitude % HIDDEN_BIT
        } else {
            HIDDEN_BIT + magnitude % HIDDEN_BIT
        }
    }

    /// The exponent of a finite value.
    pub fn exponent(self) -> (r: i64)
        ensures
            r == self.spec_exponent(),
            -1074 <= r <= 972,
    {
        let biased = self.magnitude_bits() / HIDDEN_BIT;
        if biased == 0 {
            MIN_EXPONENT
        } else {
            biased as i64 - 1075
        }
    }

    /// The value with the given sign and magnitude bits.
    pub(crate) fn from_parts(negative: bool, magnitude: u64) -> (r: Scalar)
        requires
            magnitude < SIGN_BIT,
        ensures
            r == Scalar::spec_from_parts(negative, magnitude as nat),
            r.spec_magnitude() == magnitude,
            r.spec_is_negative() == negative,
    {
        if negative {
            Scalar { bits: SIGN_BIT + magnitude }
        } else {
            Scalar { bits: magnitude }
        }
    }

    /// The zero of the given sign.
    pub fn zero(negative: bool) -> (r: Scalar)
        ensures
            r == Scalar::spec_zero(negative),
            r@ == (Value::Number { negative, mantissa: 0, exponent: -1074 }),
    {
        Scalar::from_parts(negative, 0)
    }

    /// The infinity of the given sign.
    pub fn infinity(negative: bool) -> (r: Scalar)
        ensures
            r == Scalar::spec_infinity(negative),
            r@ == (Value::Infinity { negative }),
    {
        Scalar::from_parts(negative, INFINITY_BITS)
    }

    /// The value that is not a number.
    pub fn nan() -> (r: Scalar)
        ensures
            r == Scalar::spec_nan(),
            r@ is NotANumber,
    {
        Scalar { bits: NAN_BITS }
    }
}

} // verus!

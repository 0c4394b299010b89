//! Vectors of three scalars.

use vstd::prelude::*;
use crate::scalar::format::Scalar;
use crate::scalar::laws::{lemma_add_same, lemma_div_neg, lemma_div_same, lemma_mul_neg, lemma_mul_same, lemma_sqrt_same, lemma_square_neg, lemma_sub_antisymmetric, lemma_sub_self};

verus! {

/// A vector in space: a position in metres, a velocity in metres per
/// second, a force in newtons.
#[derive(Clone, Copy, Debug)]
pub struct Vec3 {
    pub x: Scalar,
    pub y: Scalar,
    pub z: Scalar,
}

impl Vec3 {
    /// The vector of three positive zeros.
    pub open spec fn spec_zero() -> Vec3 {
        Vec3 { x: Scalar::spec_zero(false), y: Scalar::spec_zero(false), z: Scalar::spec_zero(false) }
    }

    /// Every component is a zero, of either sign.
    pub open spec fn spec_is_zero(self) -> bool {
        self.x.spec_is_zero() && self.y.spec_is_zero() && self.z.spec_is_zero()
    }

    /// Every component is a finite number.
    pub open spec fn spec_is_finite(self) -> bool {
        self.x.spec_is_finite() && self.y.spec_is_finite() && self.z.spec_is_finite()
    }

    /// The sum, component by component.
    pub open spec fn spec_add(self, rhs: Vec3) -> Vec3 {
        Vec3 { x: self.x.spec_add(rhs.x), y: self.y.spec_add(rhs.y), z: self.z.spec_add(rhs.z) }
    }

    /// The difference, component by component.
    pub open spec fn spec_sub(self, rhs: Vec3) -> Vec3 {
        Vec3 { x: self.x.spec_sub(rhs.x), y: self.y.spec_sub(rhs.y), z: self.z.spec_sub(rhs.z) }
    }

    /// The negated vector.
    pub open spec fn spec_neg(self) -> Vec3 {
        Vec3 { x: self.x.spec_neg(), y: self.y.spec_neg(), z: self.z.spec_neg() }
    }

    /// Every component times `factor`.
    pub open spec fn spec_scale(self, factor: Scalar) -> Vec3 {
        Vec3 {
            x: self.x.spec_mul(factor),
            y: self.y.spec_mul(factor),
            z: self.z.spec_mul(factor),
        }
    }

    /// Every component over `divisor`.
    pub open spec fn spec_div(self, divisor: Scalar) -> Vec3 {
        Vec3 {
            x: self.x.spec_div(divisor),
            y: self.y.spec_div(divisor),
            z: self.z.spec_div(divisor),
        }
    }

    /// The dot product, summed from the first component on.
    pub open spec fn spec_dot(self, rhs: Vec3) -> Scalar {
        self.x.spec_mul(rhs.x).spec_add(self.y.spec_mul(rhs.y)).spec_add(self.z.spec_mul(rhs.z))
    }

    /// The dot product of the vector with itself.
    pub open spec fn spec_length_squared(self) -> Scalar {
        self.spec_dot(self)
    }

    /// The root of the squared length.
    pub open spec fn spec_length(self) -> Scalar {
        self.spec_dot(self).spec_sqrt()
    }

    /// The vector times one over its length.
    pub open spec fn spec_normalize(self) -> Vec3 {
        self.spec_scale(self.spec_length().spec_recip())
    }

    /// Component by component the same value.
    pub open spec fn spec_same(self, rhs: Vec3) -> bool {
        self.x.spec_same(rhs.x) && self.y.spec_same(rhs.y) && self.z.spec_same(rhs.z)
    }

    /// The vector with the given components.
    pub fn new(x: Scalar, y: Scalar, z: Scalar) -> (r: Vec3)
        ensures
            r == (Vec3 { x, y, z }),
    {
        Vec3 { x, y, z }
    }

    /// The vector from three bit patterns.
    pub fn from_bits(x: u64, y: u64, z: u64) -> (r: Vec3)
        ensures
            r.x.bits == x,
            r.y.bits == y,
            r.z.bits == z,
    {
        Vec3 { x: Scalar::from_bits(x), y: Scalar::from_bits(y), z: Scalar::from_bits(z) }
    }

    /// The bit patterns of the three components.
    pub fn to_bits(self) -> (r: (u64, u64, u64))
        ensures
            r == (self.x.bits, self.y.bits, self.z.bits),
    {
        (self.x.to_bits(), self.y.to_bits(), self.z.to_bits())
    }

    /// The vector of three positive zeros.
    pub fn zero() -> (r: Vec3)
        ensures
            r == Vec3::spec_zero(),
    {
        Vec3 { x: Scalar::zero(false), y: Scalar::zero(false), z: Scalar::zero(false) }
    }

    /// The sum.
    pub fn add(self, rhs: Vec3) -> (r: Vec3)
        ensures
            r == self.spec_add(rhs),
    {
        Vec3 { x: self.x.add(rhs.x), y: self.y.add(rhs.y), z: self.z.add(rhs.z) }
    }

    /// The difference.
    pub fn sub(self, rhs: Vec3) -> (r: Vec3)
        ensures
            r == self.spec_sub(rhs),
    {
        Vec3 { x: self.x.sub(rhs.x), y: self.y.sub(rhs.y), z: self.z.sub(rhs.z) }
    }

    /// The negated vector.
    pub fn neg(self) -> (r: Vec3)
        ensures
            r == self.spec_neg(),
    {
        Vec3 { x: self.x.neg(), y: self.y.neg(), z: self.z.neg() }
    }

    /// Every component times `factor`.
    pub fn scale(self, factor: Scalar) -> (r: Vec3)
        ensures
            r == self.spec_scale(factor),
    {
        Vec3 { x: self.x.mul(factor), y: self.y.mul(factor), z: self.z.mul(factor) }
    }

    /// Every component over `divisor`.
    pub fn div(self, divisor: Scalar) -> (r: Vec3)
        ensures
            r == self.spec_div(divisor),
    {
        Vec3 { x: self.x.div(divisor), y: self.y.div(divisor), z: self.z.div(divisor) }
    }

    /// The dot product.
    pub fn dot(self, rhs: Vec3) -> (r: Scalar)
        ensures
            r == self.spec_dot(rhs),
    {
        self.x.mul(rhs.x).add(self.y.mul(rhs.y)).add(self.z.mul(rhs.z))
    }

    /// The squared length.
    pub fn length_squared(self) -> (r: Scalar)
        ensures
            r == self.spec_length_squared(),
    {
        self.dot(self)
    }

    /// The length.
    pub fn length(self) -> (r: Scalar)
        ensures
            r == self.spec_length(),
    {
        self.dot(self).sqrt()
    }

    /// The vector scaled to length one. A vector of length zero has no
    /// direction: its components come out as no numbers.
    pub fn normalize(self) -> (r: Vec3)
        ensures
            r == self.spec_normalize(),
    {
        self.scale(self.length().recip())
    }
}

/// Swapping the operands of a difference of vectors negates it.
pub proof fn lemma_sub_antisymmetric_vec(a: Vec3, b: Vec3)
    ensures
        b.spec_sub(a).spec_same(a.spec_sub(b).spec_neg()),
{
    lemma_sub_antisymmetric(a.x, b.x);
    lemma_sub_antisymmetric(a.y, b.y);
    lemma_sub_antisymmetric(a.z, b.z);
}

/// A finite position less itself is the zero vector.
pub proof fn lemma_sub_self_vec(a: Vec3)
    requires
        a.spec_is_finite(),
    ensures
        a.spec_sub(a) == Vec3::spec_zero(),
{
    lemma_sub_self(a.x);
    lemma_sub_self(a.y);
    lemma_sub_self(a.z);
}

/// A vector and the negation of the same vector have the same squared
/// length and the same length.
pub proof fn lemma_length_of_negated(v: Vec3, w: Vec3)
    requires
        v.spec_same(w.spec_neg()),
    ensures
        v.spec_length_squared().spec_same(w.spec_length_squared()),
        v.spec_length().spec_same(w.spec_length()),
{
    lemma_mul_same(v.x, w.x.spec_neg(), v.x, w.x.spec_neg());
    lemma_mul_same(v.y, w.y.spec_neg(), v.y, w.y.spec_neg());
    lemma_mul_same(v.z, w.z.spec_neg(), v.z, w.z.spec_neg());
    lemma_square_neg(w.x);
    lemma_square_neg(w.y);
    lemma_square_neg(w.z);
    lemma_add_same(v.x.spec_mul(v.x), w.x.spec_mul(w.x), v.y.spec_mul(v.y), w.y.spec_mul(w.y));
    lemma_add_same(
        v.x.spec_mul(v.x).spec_add(v.y.spec_mul(v.y)),
        w.x.spec_mul(w.x).spec_add(w.y.spec_mul(w.y)),
        v.z.spec_mul(v.z),
        w.z.spec_mul(w.z),
    );
    lemma_sqrt_same(v.spec_length_squared(), w.spec_length_squared());
}

/// Dividing the negation of a vector by the same nonzero divisor, then
/// scaling by the same factor, gives the negation of what the vector gives.
pub proof fn lemma_div_scale_of_negated(
    v: Vec3,
    w: Vec3,
    divisor: Scalar,
    divisor2: Scalar,
    factor: Scalar,
    factor2: Scalar,
)
    requires
        v.spec_same(w.spec_neg()),
        divisor.spec_same(divisor2),
        !divisor.spec_is_zero(),
        factor.spec_same(factor2),
    ensures
        v.spec_div(divisor).spec_scale(factor).spec_same(
            w.spec_div(divisor2).spec_scale(factor2).spec_neg(),
        ),
{
    lemma_component_of_negated(v.x, w.x, divisor, divisor2, factor, factor2);
    lemma_component_of_negated(v.y, w.y, divisor, divisor2, factor, factor2);
    lemma_component_of_negated(v.z, w.z, divisor, divisor2, factor, factor2);
}

/// The same of one component.
proof fn lemma_component_of_negated(
    v: Scalar,
    w: Scalar,
    divisor: Scalar,
    divisor2: Scalar,
    factor: Scalar,
    factor2: Scalar,
)
    requires
        v.spec_same(w.spec_neg()),
        divisor.spec_same(divisor2),
        !divisor.spec_is_zero(),
        factor.spec_same(factor2),
    ensures
        v.spec_div(divisor).spec_mul(factor).spec_same(
            w.spec_div(divisor2).spec_mul(factor2).spec_neg(),
        ),
{
    let unit = w.spec_div(divisor2);
    lemma_div_same(v, w.spec_neg(), divisor, divisor2);
    lemma_div_neg(w, divisor2);
    lemma_mul_same(v.spec_div(divisor), unit.spec_neg(), factor, factor2);
    lemma_mul_neg(unit, factor2);
}

} // verus!

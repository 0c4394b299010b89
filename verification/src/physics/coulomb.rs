//! The Coulomb force between two point charges: F = k q1 q2 / r^2.

use vstd::prelude::*;
use crate::scalar::format::Scalar;
use crate::vec3::Vec3;
use crate::physics::constants::{COULOMB_CONSTANT, ELECTRON_MASS, ELEMENTARY_CHARGE};
use crate::physics::error::SimulationError;
use crate::scalar::laws::{lemma_div_neg, lemma_div_same, lemma_div_same_dividend, lemma_div_sign, lemma_mul_magnitude, lemma_mul_sign, lemma_same_bits, lemma_zero_arithmetic};
use crate::vec3::{lemma_div_scale_of_negated, lemma_length_of_negated, lemma_sub_antisymmetric_vec, lemma_sub_self_vec};

verus! {

/// The signed magnitude `k * q1 * q2 / (distance * distance)`, multiplied
/// and divided in that order.
pub open spec fn spec_coulomb_force_magnitude(q1: Scalar, q2: Scalar, distance: Scalar) -> Scalar {
    (Scalar { bits: COULOMB_CONSTANT }).spec_mul(q1).spec_mul(q2).spec_div(
        distance.spec_mul(distance),
    )
}

/// The distance between two positions.
pub open spec fn spec_distance(r1: Vec3, r2: Vec3) -> Scalar {
    r1.spec_sub(r2).spec_length()
}

/// The unit vector from charge 2 to charge 1.
pub open spec fn spec_direction(r1: Vec3, r2: Vec3) -> Vec3 {
    r1.spec_sub(r2).spec_div(spec_distance(r1, r2))
}

/// The force on charge 1: the unit vector from charge 2 to charge 1, times
/// the signed magnitude at their distance.
pub open spec fn spec_coulomb_force(q1: Scalar, q2: Scalar, r1: Vec3, r2: Vec3) -> Vec3 {
    spec_direction(r1, r2).spec_scale(
        spec_coulomb_force_magnitude(q1, q2, spec_distance(r1, r2)),
    )
}

/// The Coulomb force on charge 1 (in coulombs, at `r1`, in metres) due to
/// charge 2, in newtons: along the line from charge 2 to charge 1 for
/// charges of the same sign, against it for opposite signs.
///
/// Fails exactly where the distance between the two is not above zero.
pub fn coulomb_force(q1: Scalar, q2: Scalar, r1: Vec3, r2: Vec3) -> (result: Result<
    Vec3,
    SimulationError,
>)
    ensures
        result is Ok <==> spec_distance(r1, r2).spec_gt(Scalar::spec_zero(false)),
        result matches Ok(force) ==> force == spec_coulomb_force(q1, q2, r1, r2),
        result matches Err(e) ==> e == SimulationError::Singularity,
        r1 == r2 && r1.spec_is_finite() ==> result is Err,
{
    proof {
        if r1 == r2 && r1.spec_is_finite() {
            lemma_coincident_is_singular(r1);
        }
    }
    let displacement = r1.sub(r2);
    let distance = displacement.length();
    if !distance.gt(Scalar::zero(false)) {
        return Err(SimulationError::Singularity);
    }
    let magnitude = Scalar::from_bits(COULOMB_CONSTANT).mul(q1).mul(q2).div(distance.mul(distance));
    let direction = displacement.div(distance);
    Ok(direction.scale(magnitude))
}

/// The signed magnitude of the Coulomb force between two charges a given
/// distance apart: positive where they repel, as charges of one sign do,
/// negative where they attract.
///
/// Fails exactly where the distance is not above zero.
pub fn coulomb_force_magnitude(q1: Scalar, q2: Scalar, distance: Scalar) -> (result: Result<
    Scalar,
    SimulationError,
>)
    ensures
        result is Ok <==> distance.spec_gt(Scalar::spec_zero(false)),
        result matches Ok(force) ==> force == spec_coulomb_force_magnitude(q1, q2, distance),
        result matches Ok(force) ==> force.spec_is_nan() || (force.spec_is_negative() <==> (
            q1.spec_is_negative() != q2.spec_is_negative())),
        result matches Err(e) ==> e == SimulationError::Singularity,
        distance.spec_is_zero() ==> result is Err,
{
    proof {
        lemma_sign_convention(q1, q2, distance);
    }
    if !distance.gt(Scalar::zero(false)) {
        return Err(SimulationError::Singularity);
    }
    Ok(Scalar::from_bits(COULOMB_CONSTANT).mul(q1).mul(q2).div(distance.mul(distance)))
}

/// The speed `sqrt(k e^2 / (m r))` at which an electron circles a fixed
/// proton at `radius`.
pub open spec fn spec_orbital_speed(radius: Scalar) -> Scalar {
    let e = Scalar { bits: ELEMENTARY_CHARGE };
    (Scalar { bits: COULOMB_CONSTANT }).spec_mul(e.spec_mul(e)).spec_div(
        (Scalar { bits: ELECTRON_MASS }).spec_mul(radius),
    ).spec_sqrt()
}

/// The speed, in metres per second, at which an electron circles a fixed
/// proton at `radius` metres: there the Coulomb attraction is the
/// centripetal force.
pub fn orbital_speed(radius: Scalar) -> (speed: Scalar)
    ensures
        speed == spec_orbital_speed(radius),
{
    let e = Scalar::from_bits(ELEMENTARY_CHARGE);
    Scalar::from_bits(COULOMB_CONSTANT).mul(e.mul(e)).div(
        Scalar::from_bits(ELECTRON_MASS).mul(radius),
    ).sqrt()
}

/// The sign convention: a signed magnitude that is a number is negative,
/// for attraction, exactly where the charges have opposite signs.
pub proof fn lemma_sign_convention(q1: Scalar, q2: Scalar, distance: Scalar)
    ensures
        spec_coulomb_force_magnitude(q1, q2, distance).spec_is_nan() || spec_coulomb_force_magnitude(
            q1,
            q2,
            distance,
        ).spec_is_negative() == (q1.spec_is_negative() != q2.spec_is_negative()),
{
    let k = Scalar { bits: COULOMB_CONSTANT };
    lemma_mul_sign(k, q1);
    lemma_mul_sign(k.spec_mul(q1), q2);
    lemma_mul_sign(distance, distance);
    lemma_div_sign(k.spec_mul(q1).spec_mul(q2), distance.spec_mul(distance));
}

/// The product `k * q1 * q2` comes out the same whichever charge is
/// multiplied in first. Rounding after each multiplication can make the two
/// orders differ in the last place; they do not where the two charges have
/// the same magnitude, as those of protons and electrons do.
pub open spec fn charges_commute(q1: Scalar, q2: Scalar) -> bool {
    (Scalar { bits: COULOMB_CONSTANT }).spec_mul(q1).spec_mul(q2).spec_same(
        (Scalar { bits: COULOMB_CONSTANT }).spec_mul(q2).spec_mul(q1),
    )
}

/// Charges of one magnitude commute, whatever their signs.
pub proof fn lemma_equal_magnitudes_commute(q1: Scalar, q2: Scalar)
    requires
        q1.spec_magnitude() == q2.spec_magnitude(),
    ensures
        charges_commute(q1, q2),
{
    let k = Scalar { bits: COULOMB_CONSTANT };
    lemma_mul_magnitude(k, q1, k, q2);
    lemma_mul_magnitude(k, q2, k, q1);
    lemma_mul_magnitude(k.spec_mul(q1), q2, k.spec_mul(q2), q1);
    lemma_mul_magnitude(k.spec_mul(q2), q1, k.spec_mul(q1), q2);
}

/// The signed magnitude at `distance` comes out the same whichever charge
/// is named first.
pub open spec fn magnitudes_agree(q1: Scalar, q2: Scalar, distance: Scalar) -> bool {
    spec_coulomb_force_magnitude(q1, q2, distance).spec_same(
        spec_coulomb_force_magnitude(q2, q1, distance),
    )
}

/// For charges that commute the signed magnitudes agree at every distance.
pub proof fn lemma_commuting_charges_agree(q1: Scalar, q2: Scalar, distance: Scalar)
    requires
        charges_commute(q1, q2),
    ensures
        magnitudes_agree(q1, q2, distance),
{
    let k = Scalar { bits: COULOMB_CONSTANT };
    lemma_div_same_dividend(
        k.spec_mul(q1).spec_mul(q2),
        k.spec_mul(q2).spec_mul(q1),
        distance.spec_mul(distance),
    );
}

/// Whatever the positions, the distance is the same from either side, and
/// where it is above zero the direction from one side is the negation of
/// the direction from the other.
pub proof fn lemma_direction_antisymmetric(r1: Vec3, r2: Vec3)
    ensures
        spec_distance(r2, r1).spec_same(spec_distance(r1, r2)),
        spec_distance(r1, r2).spec_gt(Scalar::spec_zero(false)) ==> spec_direction(r2, r1).spec_same(
            spec_direction(r1, r2).spec_neg(),
        ),
{
    let forth = r1.spec_sub(r2);
    let back = r2.spec_sub(r1);
    lemma_sub_antisymmetric_vec(r1, r2);
    lemma_length_of_negated(back, forth);
    let far = forth.spec_length();
    if far.spec_gt(Scalar::spec_zero(false)) {
        lemma_same_bits(far, back.spec_length());
        lemma_div_same(back.x, forth.x.spec_neg(), far, far);
        lemma_div_same(back.y, forth.y.spec_neg(), far, far);
        lemma_div_same(back.z, forth.z.spec_neg(), far, far);
        lemma_div_neg(forth.x, far);
        lemma_div_neg(forth.y, far);
        lemma_div_neg(forth.z, far);
    }
}

/// Newton's third law: where the signed magnitudes agree at the distance of
/// two charges, the force on the second due to the first is the negation
/// of the force on the first due to the second, component by component.
/// The distance is the same from either side, so the one force exists
/// exactly where the other does.
pub proof fn lemma_third_law(q1: Scalar, q2: Scalar, r1: Vec3, r2: Vec3)
    requires
        magnitudes_agree(q1, q2, spec_distance(r1, r2)),
    ensures
        spec_distance(r2, r1).spec_same(spec_distance(r1, r2)),
        spec_distance(r1, r2).spec_gt(Scalar::spec_zero(false)) ==> spec_coulomb_force(
            q2,
            q1,
            r2,
            r1,
        ).spec_same(spec_coulomb_force(q1, q2, r1, r2).spec_neg()),
{
    let forth = r1.spec_sub(r2);
    let back = r2.spec_sub(r1);
    lemma_sub_antisymmetric_vec(r1, r2);
    lemma_length_of_negated(back, forth);
    let far = forth.spec_length();
    let far2 = back.spec_length();
    if far.spec_gt(Scalar::spec_zero(false)) {
        lemma_same_bits(far, far2);
        lemma_div_scale_of_negated(
            back,
            forth,
            far,
            far,
            spec_coulomb_force_magnitude(q2, q1, far),
            spec_coulomb_force_magnitude(q1, q2, far),
        );
    }
}

/// Two charges at one finite position are no positive distance apart:
/// there the force law fails.
pub proof fn lemma_coincident_is_singular(r: Vec3)
    requires
        r.spec_is_finite(),
    ensures
        !spec_distance(r, r).spec_gt(Scalar::spec_zero(false)),
{
    lemma_sub_self_vec(r);
    lemma_zero_length();
}

/// The zero vector has length zero.
pub proof fn lemma_zero_length()
    ensures
        Vec3::spec_zero().spec_length() == Scalar::spec_zero(false),
{
    lemma_zero_arithmetic();
}

} // verus!

// The Coulomb force law.

use approx::Relative;
use dynachem::physics::constants::{ANGSTROM, COULOMB_CONSTANT, ELEMENTARY_CHARGE};
use dynachem::physics::coulomb::{coulomb_force, coulomb_force_magnitude, orbital_speed};
use dynachem::physics::error::SimulationError;
use dynachem::scalar::format::Scalar;
use dynachem::vec3::Vec3;

fn s(x: f64) -> Scalar {
    Scalar::from_bits(x.to_bits())
}

fn f(x: Scalar) -> f64 {
    f64::from_bits(x.to_bits())
}

fn v(x: f64, y: f64, z: f64) -> Vec3 {
    Vec3::new(s(x), s(y), s(z))
}

fn e() -> f64 {
    f64::from_bits(ELEMENTARY_CHARGE)
}

fn angstrom() -> f64 {
    f64::from_bits(ANGSTROM)
}

#[test]
fn proton_electron_force_at_one_angstrom() {
    // A proton and an electron 1 angstrom apart:
    // F = k e (-e) / r^2, about 2.3e-8 N, attractive and so negative.
    let proton_charge = e();
    let electron_charge = -e();
    let distance = angstrom();

    let force_magnitude =
        f(coulomb_force_magnitude(s(proton_charge), s(electron_charge), s(distance)).unwrap());

    let expected = -2.307e-8;
    assert!(Relative::default().epsilon(1e-10).eq(&force_magnitude, &expected));
}

#[test]
fn two_protons_repel() {
    let q1 = e();
    let q2 = e();
    let distance = angstrom();

    let force = f(coulomb_force_magnitude(s(q1), s(q2), s(distance)).unwrap());

    assert!(force > 0.0, "Same charges should repel (positive force)");
    assert!(Relative::default().epsilon(1e-10).eq(&force, &2.307e-8));
}

#[test]
fn force_vector_points_correctly_for_attraction() {
    // Electron at the origin, proton at (1 angstrom, 0, 0): the force on the
    // proton points towards the electron, in the negative x direction.
    let electron_pos = v(0.0, 0.0, 0.0);
    let proton_pos = v(angstrom(), 0.0, 0.0);

    let force_on_proton = coulomb_force(s(e()), s(-e()), proton_pos, electron_pos).unwrap();

    assert!(f(force_on_proton.x) < 0.0, "Proton should be attracted toward electron");
    assert!(Relative::default().epsilon(1e-30).eq(&f(force_on_proton.y), &0.0));
    assert!(Relative::default().epsilon(1e-30).eq(&f(force_on_proton.z), &0.0));
}

#[test]
fn force_vector_points_correctly_for_repulsion() {
    // Two protons, one at the origin, one at (1 angstrom, 0, 0): the force
    // on the second points away from the first.
    let p1_pos = v(0.0, 0.0, 0.0);
    let p2_pos = v(angstrom(), 0.0, 0.0);

    let force_on_p2 = coulomb_force(s(e()), s(e()), p2_pos, p1_pos).unwrap();

    assert!(f(force_on_p2.x) > 0.0, "Proton should be repelled from other proton");
}

#[test]
fn inverse_square_law() {
    // At twice the distance the force is a quarter.
    let q1 = e();
    let q2 = -e();

    let force_1a = f(coulomb_force_magnitude(s(q1), s(q2), s(angstrom())).unwrap()).abs();
    let force_2a = f(coulomb_force_magnitude(s(q1), s(q2), s(2.0 * angstrom())).unwrap()).abs();

    let ratio = force_1a / force_2a;
    assert!(Relative::default().epsilon(1e-10).eq(&ratio, &4.0));
}

#[test]
#[should_panic]
fn zero_distance_panics() {
    // No force at r = 0: unwrapping the failure panics.
    coulomb_force_magnitude(s(e()), s(e()), s(0.0)).unwrap();
}

#[test]
fn zero_distance_is_a_singularity() {
    assert_eq!(
        coulomb_force_magnitude(s(e()), s(e()), s(0.0)).err(),
        Some(SimulationError::Singularity)
    );
    assert_eq!(
        coulomb_force_magnitude(s(e()), s(e()), s(-0.0)).err(),
        Some(SimulationError::Singularity)
    );
    let here = v(1.5e-10, -2.0e-10, 3.0e-11);
    assert_eq!(coulomb_force(s(e()), s(-e()), here, here).err(), Some(SimulationError::Singularity));
}

#[test]
fn distances_that_are_not_above_zero_fail() {
    assert!(coulomb_force_magnitude(s(e()), s(e()), s(-1.0e-10)).is_err());
    assert!(coulomb_force_magnitude(s(e()), s(e()), s(f64::NAN)).is_err());
    assert!(coulomb_force_magnitude(s(e()), s(e()), s(f64::MIN_POSITIVE)).is_ok());
    let nowhere = v(f64::NAN, 0.0, 0.0);
    assert!(coulomb_force(s(e()), s(e()), nowhere, v(0.0, 0.0, 0.0)).is_err());
}

#[test]
fn magnitude_is_the_formula_as_the_machine_computes_it() {
    let k = f64::from_bits(COULOMB_CONSTANT);
    let cases = [
        (e(), e(), angstrom()),
        (e(), -e(), 2.5 * angstrom()),
        (-3.0 * e(), -e(), 0.37e-9),
        (1.0, 1.0, 1.0),
        (2.0e-6, -5.0e-7, 0.03),
    ];
    for (q1, q2, r) in cases {
        let expected = k * q1 * q2 / (r * r);
        let got = f(coulomb_force_magnitude(s(q1), s(q2), s(r)).unwrap());
        assert_eq!(got.to_bits(), expected.to_bits());
    }
}

#[test]
fn force_is_the_same_as_with_machine_vectors() {
    let k = f64::from_bits(COULOMB_CONSTANT);
    let cases = [
        (e(), -e(), [1.0e-10, 2.0e-10, -0.5e-10], [0.0, 0.0, 0.0]),
        (e(), e(), [3.0e-10, -1.0e-10, 2.2e-10], [-1.0e-10, 0.4e-10, 0.0]),
        (-e(), -e(), [0.0, 0.0, 1.0e-9], [1.0e-12, 0.0, 0.0]),
    ];
    for (q1, q2, a, b) in cases {
        let r1 = glam::DVec3::from_array(a);
        let r2 = glam::DVec3::from_array(b);
        let displacement = r1 - r2;
        let distance = displacement.length();
        let magnitude = k * q1 * q2 / (distance * distance);
        let expected = displacement / distance * magnitude;

        let got = coulomb_force(s(q1), s(q2), v(a[0], a[1], a[2]), v(b[0], b[1], b[2])).unwrap();
        assert_eq!(f(got.x).to_bits(), expected.x.to_bits());
        assert_eq!(f(got.y).to_bits(), expected.y.to_bits());
        assert_eq!(f(got.z).to_bits(), expected.z.to_bits());
    }
}

#[test]
fn force_on_one_is_minus_the_force_on_the_other() {
    // Newton's third law, for charges of one magnitude.
    let cases = [
        (e(), -e(), [1.0e-10, 2.0e-10, -0.5e-10], [0.0, 0.0, 0.0]),
        (e(), e(), [3.0e-10, -1.0e-10, 2.2e-10], [-1.0e-10, 0.4e-10, 0.0]),
        (-e(), e(), [0.0, 7.0e-11, 1.0e-9], [1.0e-12, 7.0e-11, 0.0]),
    ];
    for (q1, q2, a, b) in cases {
        let r1 = v(a[0], a[1], a[2]);
        let r2 = v(b[0], b[1], b[2]);
        let on_first = coulomb_force(s(q1), s(q2), r1, r2).unwrap();
        let on_second = coulomb_force(s(q2), s(q1), r2, r1).unwrap();
        assert_eq!(f(on_first.x), -f(on_second.x));
        assert_eq!(f(on_first.y), -f(on_second.y));
        assert_eq!(f(on_first.z), -f(on_second.z));
    }
}

#[test]
fn orbital_speed_is_the_formula_as_the_machine_computes_it() {
    let k = f64::from_bits(COULOMB_CONSTANT);
    let m = f64::from_bits(dynachem::physics::constants::ELECTRON_MASS);
    for r in [angstrom(), 5.29177210903e-11, 1.0e-9] {
        let expected = (k * e().powi(2) / (m * r)).sqrt();
        assert_eq!(f(orbital_speed(s(r))).to_bits(), expected.to_bits());
    }
}

#[test]
fn charges_of_unlike_magnitude_agree_to_the_last_place() {
    // k * 0.1 * 0.7 and k * 0.7 * 0.1 are rounded after each multiplication
    // and come out one unit in the last place apart; so do the two forces.
    let r1 = v(1.0, 0.0, 0.0);
    let r2 = v(0.0, 0.0, 0.0);
    let on_first = coulomb_force(s(0.1), s(0.7), r1, r2).unwrap();
    let on_second = coulomb_force(s(0.7), s(0.1), r2, r1).unwrap();
    assert_eq!(f(on_first.x), 629128625.461);
    assert_eq!(f(on_second.x), -629128625.4609998);
    assert!(Relative::default().max_relative(1e-15).eq(&f(on_first.x), &-f(on_second.x)));
    assert_eq!(f(on_first.y), 0.0);
    assert_eq!(f(on_first.z), 0.0);
}

#[test]
fn unit_charges_a_metre_apart() {
    // The force is the Coulomb constant itself.
    assert_eq!(f(coulomb_force_magnitude(s(1.0), s(1.0), s(1.0)).unwrap()), 8.9875517923e9);
    assert_eq!(f(coulomb_force_magnitude(s(1.0), s(-1.0), s(1.0)).unwrap()), -8.9875517923e9);
    assert_eq!(f(coulomb_force_magnitude(s(2.0), s(3.0), s(2.0)).unwrap()), 8.9875517923e9 * 1.5);

    let force = coulomb_force(s(1.0), s(1.0), v(0.0, -1.0, 0.0), v(0.0, 0.0, 0.0)).unwrap();
    assert_eq!((f(force.x), f(force.y), f(force.z)), (0.0, -8.9875517923e9, 0.0));
    let force = coulomb_force(s(1.0), s(-1.0), v(0.0, 0.0, 2.0), v(0.0, 0.0, 0.0)).unwrap();
    assert_eq!((f(force.x), f(force.y), f(force.z)), (0.0, 0.0, -8.9875517923e9 / 4.0));
}

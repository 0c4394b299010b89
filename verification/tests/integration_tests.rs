// Force laws, particles and integrator together.

use approx::Relative;
use dynachem::input::spring::{spring_force, SpringConfig};
use dynachem::particles::electron::Electron;
use dynachem::particles::proton::Proton;
use dynachem::physics::constants::{ANGSTROM, BOHR_RADIUS, COULOMB_CONSTANT, ELECTRON_MASS, ELEMENTARY_CHARGE};
use dynachem::physics::coulomb::coulomb_force;
use dynachem::physics::simulation::{kinetic_energy, verlet_position_step, verlet_velocity_step};
use dynachem::scalar::format::Scalar;
use dynachem::vec3::Vec3;

fn s(x: f64) -> Scalar {
    Scalar::from_bits(x.to_bits())
}

fn f(x: Scalar) -> f64 {
    f64::from_bits(x.to_bits())
}

fn v(x: f64, y: f64, z: f64) -> Vec3 {
    Vec3::new(s(x), s(y), s(z))
}

/// An electron circling a proton under Coulomb attraction.
#[test]
fn hydrogen_atom_orbit_stability() {
    let coulomb_constant = f64::from_bits(COULOMB_CONSTANT);
    let elementary_charge = f64::from_bits(ELEMENTARY_CHARGE);
    let electron_mass = f64::from_bits(ELECTRON_MASS);

    // The proton stays at the origin: it is much the heavier.
    let proton_pos = v(0.0, 0.0, 0.0);

    // The electron at one Bohr radius, at the speed of a circular orbit:
    // v = sqrt(k e^2 / (m r))
    let r = f64::from_bits(BOHR_RADIUS);
    let orbital_v = (coulomb_constant * elementary_charge.powi(2) / (electron_mass * r)).sqrt();

    let mut electron = Electron::new(v(r, 0.0, 0.0));
    electron.velocity = v(0.0, orbital_v, 0.0);

    let force =
        coulomb_force(Electron::charge(), Proton::charge(), electron.position, proton_pos).unwrap();
    electron.force = force;

    let initial_ke = f(kinetic_energy(&electron));
    let initial_pe = coulomb_constant * f(Electron::charge()) * f(Proton::charge()) / r;
    let initial_total = initial_ke + initial_pe;

    // A quarter of an orbit.
    let dt = 1.0e-19;
    let steps = 1000;

    for _ in 0..steps {
        let old_accel = verlet_position_step(&mut electron, s(dt));

        electron.force =
            coulomb_force(Electron::charge(), Proton::charge(), electron.position, proton_pos)
                .unwrap();

        verlet_velocity_step(&mut electron, old_accel, s(dt));
    }

    let final_ke = f(kinetic_energy(&electron));
    let final_r = f(electron.position.length());
    let final_pe = coulomb_constant * f(Electron::charge()) * f(Proton::charge()) / final_r;
    let final_total = final_ke + final_pe;

    assert!(Relative::default().max_relative(0.01).eq(&final_total, &initial_total));
    assert!(Relative::default().max_relative(0.1).eq(&final_r, &r));
}

/// A proton dragged by the spring while an electron attracts it.
#[test]
fn spring_drag_with_coulomb_force() {
    let angstrom = f64::from_bits(ANGSTROM);
    let spring_config = SpringConfig { stiffness: s(1.0e-7), damping: s(1.0e-14), max_force: s(1.0e-6) };

    // The electron stays at the origin.
    let electron_pos = v(0.0, 0.0, 0.0);

    // The proton starts 2 angstroms away.
    let mut proton = Proton::new(v(2.0 * angstrom, 0.0, 0.0));

    // The pointer pulls it away, to 3 angstroms.
    let target_pos = v(3.0 * angstrom, 0.0, 0.0);

    let coulomb_f =
        coulomb_force(Proton::charge(), Electron::charge(), proton.position, electron_pos).unwrap();

    let spring_f = spring_force(proton.position, proton.velocity, target_pos, &spring_config);

    assert!(f(coulomb_f.x) < 0.0, "Coulomb should attract proton toward electron");
    assert!(f(spring_f.x) > 0.0, "Spring should pull proton toward drag target");

    // The proton feels both.
    proton.force = coulomb_f.add(spring_f);
    assert_eq!(f(proton.force.x), f(coulomb_f.x) + f(spring_f.x));
}

/// Two protons repel each other.
#[test]
fn two_proton_repulsion() {
    let angstrom = f64::from_bits(ANGSTROM);
    let mut proton1 = Proton::new(v(-angstrom, 0.0, 0.0));
    let mut proton2 = Proton::new(v(angstrom, 0.0, 0.0));

    let force_on_1 =
        coulomb_force(Proton::charge(), Proton::charge(), proton1.position, proton2.position)
            .unwrap();
    let force_on_2 =
        coulomb_force(Proton::charge(), Proton::charge(), proton2.position, proton1.position)
            .unwrap();

    proton1.force = force_on_1;
    proton2.force = force_on_2;

    // Equal and opposite.
    assert!(Relative::default()
        .max_relative(0.001)
        .eq(&f(force_on_1.length()), &f(force_on_2.length())));
    assert!(Relative::default().max_relative(0.001).eq(&f(force_on_1.x), &-f(force_on_2.x)));

    let dt = 1.0e-18;
    for _ in 0..100 {
        let old_accel_1 = verlet_position_step(&mut proton1, s(dt));
        let old_accel_2 = verlet_position_step(&mut proton2, s(dt));

        proton1.force =
            coulomb_force(Proton::charge(), Proton::charge(), proton1.position, proton2.position)
                .unwrap();
        proton2.force =
            coulomb_force(Proton::charge(), Proton::charge(), proton2.position, proton1.position)
                .unwrap();

        verlet_velocity_step(&mut proton1, old_accel_1, s(dt));
        verlet_velocity_step(&mut proton2, old_accel_2, s(dt));
    }

    // They have moved apart.
    let final_distance = f(proton2.position.sub(proton1.position).length());
    let initial_distance = 2.0 * angstrom;
    assert!(final_distance > initial_distance, "Protons should repel and move apart");
}

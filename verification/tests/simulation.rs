// The velocity Verlet integrator.

use approx::Relative;
use dynachem::physics::constants::{ANGSTROM, COULOMB_CONSTANT, ELECTRON_MASS, ELEMENTARY_CHARGE};
use dynachem::physics::coulomb::coulomb_force;
use dynachem::physics::simulation::{
    kinetic_energy, verlet_full_step, verlet_position_step, verlet_velocity_step, Integratable,
    SimulationConfig,
};
use dynachem::physics::error::SimulationError;
use dynachem::scalar::format::Scalar;
use dynachem::vec3::Vec3;

fn s(x: f64) -> Scalar {
    Scalar::from_bits(x.to_bits())
}

fn f(x: Scalar) -> f64 {
    f64::from_bits(x.to_bits())
}

fn v(x: f64, y: f64, z: f64) -> Vec3 {
    Vec3::new(s(x), s(y), s(z))
}

fn arr(a: Vec3) -> [f64; 3] {
    [f(a.x), f(a.y), f(a.z)]
}

/// A particle of any mass.
#[derive(Debug, Clone)]
struct TestParticle {
    position: Vec3,
    velocity: Vec3,
    force: Vec3,
    mass: f64,
}

impl TestParticle {
    fn new(mass: f64) -> Self {
        Self { position: Vec3::zero(), velocity: Vec3::zero(), force: Vec3::zero(), mass }
    }

    fn at(mut self, pos: Vec3) -> Self {
        self.position = pos;
        self
    }

    fn with_velocity(mut self, vel: Vec3) -> Self {
        self.velocity = vel;
        self
    }

    fn with_force(mut self, force: Vec3) -> Self {
        self.force = force;
        self
    }
}

impl Integratable for TestParticle {
    fn spec_position(&self) -> Vec3 {
        self.position
    }

    fn spec_velocity(&self) -> Vec3 {
        self.velocity
    }

    fn spec_force(&self) -> Vec3 {
        self.force
    }

    fn spec_mass(&self) -> Scalar {
        s(self.mass)
    }

    fn position(&self) -> Vec3 {
        self.position
    }

    fn velocity(&self) -> Vec3 {
        self.velocity
    }

    fn force(&self) -> Vec3 {
        self.force
    }

    fn mass(&self) -> Scalar {
        s(self.mass)
    }

    fn set_position(&mut self, pos: Vec3) {
        self.position = pos;
    }

    fn set_velocity(&mut self, vel: Vec3) {
        self.velocity = vel;
    }

    fn clear_forces(&mut self) {
        self.force = Vec3::zero();
    }
}

#[test]
fn config_default_has_femtosecond_timestep() {
    let config = SimulationConfig::default();
    assert!(Relative::default().max_relative(0.01).eq(&f(config.dt), &1.0e-15));
}

#[test]
fn free_particle_moves_in_straight_line() {
    // With a velocity and no force a particle moves in a straight line.
    let mut particle =
        TestParticle::new(1.0).at(v(0.0, 0.0, 0.0)).with_velocity(v(1.0, 0.0, 0.0));

    let dt = 0.1;

    // No force, so no acceleration.
    let old_accel = verlet_position_step(&mut particle, s(dt));
    assert_eq!(arr(old_accel), [0.0, 0.0, 0.0]);

    // After 0.1 s at 1 m/s it has moved 0.1 m.
    assert!(Relative::default().epsilon(1e-10).eq(&f(particle.position().x), &0.1));

    verlet_velocity_step(&mut particle, old_accel, s(dt));

    // The velocity is as it was.
    assert!(Relative::default().epsilon(1e-10).eq(&f(particle.velocity().x), &1.0));
}

#[test]
fn constant_force_gives_uniform_acceleration() {
    let mass = 2.0;
    let force = v(4.0, 0.0, 0.0); // a = F/m = 2 m/s^2

    let mut particle = TestParticle::new(mass)
        .at(v(0.0, 0.0, 0.0))
        .with_velocity(v(0.0, 0.0, 0.0))
        .with_force(force);

    let dt = 0.1;

    let old_accel = verlet_position_step(&mut particle, s(dt));

    // x = 0.5 a t^2 = 0.5 * 2 * 0.01 = 0.01 m
    assert!(Relative::default().epsilon(1e-10).eq(&f(particle.position().x), &0.01));

    // The same force at the new position.
    particle.force = force;
    verlet_velocity_step(&mut particle, old_accel, s(dt));

    // v = a t = 2 * 0.1 = 0.2 m/s
    assert!(Relative::default().epsilon(1e-10).eq(&f(particle.velocity().x), &0.2));
}

#[test]
fn harmonic_oscillator_conserves_energy() {
    // F = -k x: the energy stays what it was, within the method's error.
    let mass = 1.0;
    let k = 1.0;
    let x0 = 1.0;

    let mut particle =
        TestParticle::new(mass).at(v(x0, 0.0, 0.0)).with_velocity(v(0.0, 0.0, 0.0));

    particle.force = v(-k * f(particle.position.x), 0.0, 0.0);

    // E = 0.5 k x^2 + 0.5 m v^2 = 0.5
    let initial_energy = 0.5 * k * x0 * x0;

    let dt = 0.001;
    let steps = 10000;

    for _ in 0..steps {
        let old_accel = verlet_position_step(&mut particle, s(dt));

        particle.force = v(-k * f(particle.position.x), 0.0, 0.0);

        verlet_velocity_step(&mut particle, old_accel, s(dt));
    }

    let final_ke = f(kinetic_energy(&particle));
    let final_pe = 0.5 * k * f(particle.position.x).powi(2);
    let final_energy = final_ke + final_pe;

    assert!(Relative::default().max_relative(0.001).eq(&final_energy, &initial_energy));
}

#[test]
fn two_body_coulomb_circular_orbit() {
    // An electron circling a proton that stays at the origin.
    let coulomb_constant = f64::from_bits(COULOMB_CONSTANT);
    let elementary_charge = f64::from_bits(ELEMENTARY_CHARGE);
    let electron_mass = f64::from_bits(ELECTRON_MASS);

    let proton_pos = v(0.0, 0.0, 0.0);
    let proton_charge = elementary_charge;

    // Centripetal force = Coulomb force: m v^2 / r = k e^2 / r^2
    let r = f64::from_bits(ANGSTROM);
    let orbital_velocity =
        (coulomb_constant * elementary_charge.powi(2) / (electron_mass * r)).sqrt();

    let mut electron = TestParticle::new(electron_mass)
        .at(v(r, 0.0, 0.0))
        .with_velocity(v(0.0, orbital_velocity, 0.0));

    let force =
        coulomb_force(s(-elementary_charge), s(proton_charge), electron.position, proton_pos)
            .unwrap();
    electron.force = force;

    // E = KE + PE = 0.5 m v^2 + k q1 q2 / r
    let initial_ke = f(kinetic_energy(&electron));
    let initial_pe = coulomb_constant * (-elementary_charge) * proton_charge / r;
    let initial_energy = initial_pe + initial_ke;

    // About a tenth of an orbit.
    let dt = 1.0e-19;
    let steps = 400;

    for _ in 0..steps {
        let old_accel = verlet_position_step(&mut electron, s(dt));

        let force =
            coulomb_force(s(-elementary_charge), s(proton_charge), electron.position, proton_pos)
                .unwrap();
        electron.force = force;

        verlet_velocity_step(&mut electron, old_accel, s(dt));
    }

    let final_ke = f(kinetic_energy(&electron));
    let final_r = f(electron.position.length());
    let final_pe = coulomb_constant * (-elementary_charge) * proton_charge / final_r;
    let final_energy = final_pe + final_ke;

    assert!(Relative::default().max_relative(0.01).eq(&final_energy, &initial_energy));
    assert!(Relative::default().max_relative(0.05).eq(&final_r, &r));
}

#[test]
fn kinetic_energy_calculation() {
    let particle = TestParticle::new(2.0).with_velocity(v(3.0, 4.0, 0.0)); // |v| = 5

    // KE = 0.5 m v^2 = 0.5 * 2 * 25 = 25
    assert!(Relative::default().epsilon(1e-10).eq(&f(kinetic_energy(&particle)), &25.0));
}

#[test]
fn steps_are_the_formulas_as_the_machine_computes_them() {
    let pos = glam::DVec3::new(1.0e-10, -2.0e-10, 0.5e-10);
    let vel = glam::DVec3::new(1.5e6, 2.0e5, -3.0e4);
    let force = glam::DVec3::new(-2.3e-8, 1.1e-9, 4.0e-10);
    let new_force = glam::DVec3::new(-2.1e-8, 1.3e-9, 3.7e-10);
    let mass = 9.1093837015e-31;
    let dt = 1.0e-19;

    let accel = force / mass;
    let expected_pos = pos + vel * dt + 0.5 * accel * dt * dt;
    let new_accel = new_force / mass;
    let expected_vel = vel + 0.5 * (accel + new_accel) * dt;
    let expected_ke = 0.5 * mass * expected_vel.length_squared();

    let mut particle = TestParticle::new(mass)
        .at(v(pos.x, pos.y, pos.z))
        .with_velocity(v(vel.x, vel.y, vel.z))
        .with_force(v(force.x, force.y, force.z));
    let old_accel = verlet_position_step(&mut particle, s(dt));
    assert_eq!(arr(old_accel), accel.to_array());
    assert_eq!(arr(particle.position), expected_pos.to_array());
    assert_eq!(arr(particle.force), force.to_array());

    particle.force = v(new_force.x, new_force.y, new_force.z);
    verlet_velocity_step(&mut particle, old_accel, s(dt));
    assert_eq!(arr(particle.velocity), expected_vel.to_array());
    assert_eq!(arr(particle.position), expected_pos.to_array());
    assert_eq!(f(kinetic_energy(&particle)), expected_ke);
}

#[test]
fn full_step_is_both_phases() {
    let k = 3.0;
    let mut stepped = TestParticle::new(2.0)
        .at(v(1.0, 0.5, 0.0))
        .with_velocity(v(0.0, 0.25, -1.0))
        .with_force(v(-3.0, -1.5, 0.0));
    let mut whole = stepped.clone();
    let dt = s(0.01);

    let old_accel = verlet_position_step(&mut stepped, dt);
    let p = stepped.position;
    stepped.force = v(-k * f(p.x), -k * f(p.y), -k * f(p.z));
    verlet_velocity_step(&mut stepped, old_accel, dt);

    verlet_full_step(&mut whole, dt, |p: Vec3| v(-k * f(p.x), -k * f(p.y), -k * f(p.z)));

    assert_eq!(arr(whole.position), arr(stepped.position));
    assert_eq!(arr(whole.velocity), arr(stepped.velocity));
    // The full step leaves the force cleared.
    assert_eq!(arr(whole.force), [0.0, 0.0, 0.0]);
}

#[test]
fn configuration_defaults() {
    let config = SimulationConfig::default();
    assert_eq!(f(config.dt), 1.0e-15);
    assert_eq!(f(config.time_scale), 1.0e12);
    assert_eq!(config.substep_count, 10);
    assert_eq!(f(config.effective_dt()), 1.0e-15 * 1.0e12);

    let config = SimulationConfig::with_dt(s(1.0e-17));
    assert_eq!(f(config.dt), 1.0e-17);
    assert_eq!(f(config.time_scale), 1.0e12);
    assert_eq!(config.substep_count, 10);
    assert_eq!(f(config.effective_dt()), 1.0e-17 * 1.0e12);
}

#[test]
fn one_step_in_round_numbers() {
    // m = 2, F = (4, 0, -8), so a = (2, 0, -4); dt = 0.5.
    let mut particle = TestParticle::new(2.0)
        .at(v(1.0, 1.0, 1.0))
        .with_velocity(v(2.0, 0.0, 0.0))
        .with_force(v(4.0, 0.0, -8.0));
    let old_accel = verlet_position_step(&mut particle, s(0.5));
    assert_eq!(arr(old_accel), [2.0, 0.0, -4.0]);
    // x + v dt + 0.5 a dt^2 = (1 + 1 + 0.25, 1, 1 - 0.5)
    assert_eq!(arr(particle.position), [2.25, 1.0, 0.5]);
    assert_eq!(arr(particle.velocity), [2.0, 0.0, 0.0]);

    // The force at the new position: (0, 4, 8), so a = (0, 2, 4).
    particle.force = v(0.0, 4.0, 8.0);
    verlet_velocity_step(&mut particle, old_accel, s(0.5));
    // v + 0.5 (a_old + a_new) dt = (2 + 0.5, 0.5, 0)
    assert_eq!(arr(particle.velocity), [2.5, 0.5, 0.0]);
    assert_eq!(arr(particle.position), [2.25, 1.0, 0.5]);
    assert_eq!(arr(particle.force), [0.0, 4.0, 8.0]);

    // 0.5 m |v|^2 = 0.5 * 2 * 6.5
    assert_eq!(f(kinetic_energy(&particle)), 6.5);
}

#[test]
fn a_configuration_is_made_only_with_a_substep() {
    let made = SimulationConfig::new(s(1.0e-17), 4).unwrap();
    assert_eq!(f(made.dt), 1.0e-17);
    assert_eq!(f(made.time_scale), 1.0e12);
    assert_eq!(made.substep_count, 4);
    assert_eq!(
        SimulationConfig::new(s(1.0e-17), 0).err(),
        Some(SimulationError::NonPositiveSubstepCount)
    );
}

//! Time stepping with the velocity Verlet method.
//!
//! One step takes a particle from time t to t + dt in two phases, between
//! which the caller works out the forces at the new positions:
//!
//! 1. x(t+dt) = x(t) + v(t) dt + 0.5 a(t) dt^2
//! 2. v(t+dt) = v(t) + 0.5 (a(t) + a(t+dt)) dt

use vstd::prelude::*;
use crate::scalar::format::Scalar;
use crate::vec3::Vec3;
use crate::physics::error::SimulationError;
use crate::scalar::laws::{lemma_add_zero, lemma_add_zeros, lemma_div_zero, lemma_mul_zero};

verus! {

/// The bit pattern of the default time step, 1.0e-15 s: one femtosecond.
pub const DEFAULT_DT: u64 = 0x3cd2_03af_9ee7_5616;

/// The bit pattern of the default time scale, 1.0e12.
pub const DEFAULT_TIME_SCALE: u64 = 0x426d_1a94_a200_0000;

/// The default number of substeps of a frame.
pub const DEFAULT_SUBSTEP_COUNT: u32 = 10;

/// How time advances in a run.
#[derive(Clone, Copy, Debug)]
pub struct SimulationConfig {
    /// Time step in seconds.
    pub dt: Scalar,
    /// Simulated seconds per second on the wall.
    pub time_scale: Scalar,
    /// In how many equal substeps a frame's time step is taken. A tuning
    /// value, not derived from a bound on the forces.
    pub substep_count: u32,
}

impl Default for SimulationConfig {
    fn default() -> (r: Self)
        ensures
            r.dt.bits == DEFAULT_DT,
            r.time_scale.bits == DEFAULT_TIME_SCALE,
            r.substep_count == DEFAULT_SUBSTEP_COUNT,
    {
        SimulationConfig {
            dt: Scalar::from_bits(DEFAULT_DT),
            time_scale: Scalar::from_bits(DEFAULT_TIME_SCALE),
            substep_count: DEFAULT_SUBSTEP_COUNT,
        }
    }
}

impl SimulationConfig {
    /// A configuration with the given time step and number of substeps, at
    /// the default time scale. Fails exactly where the number is zero.
    pub fn new(dt: Scalar, substep_count: u32) -> (result: Result<Self, SimulationError>)
        ensures
            substep_count == 0 ==> result == Err::<Self, SimulationError>(
                SimulationError::NonPositiveSubstepCount,
            ),
            substep_count != 0 ==> result == Ok::<Self, SimulationError>(
                SimulationConfig {
                    dt,
                    time_scale: Scalar { bits: DEFAULT_TIME_SCALE },
                    substep_count,
                },
            ),
    {
        if substep_count == 0 {
            Err(SimulationError::NonPositiveSubstepCount)
        } else {
            Ok(
                SimulationConfig {
                    dt,
                    time_scale: Scalar::from_bits(DEFAULT_TIME_SCALE),
                    substep_count,
                },
            )
        }
    }

    /// The default configuration with another time step.
    pub fn with_dt(dt: Scalar) -> (r: Self)
        ensures
            r.dt == dt,
            r.time_scale.bits == DEFAULT_TIME_SCALE,
            r.substep_count == DEFAULT_SUBSTEP_COUNT,
    {
        SimulationConfig {
            dt,
            time_scale: Scalar::from_bits(DEFAULT_TIME_SCALE),
            substep_count: DEFAULT_SUBSTEP_COUNT,
        }
    }

    /// The time step times the time scale.
    pub fn effective_dt(&self) -> (r: Scalar)
        ensures
            r == self.dt.spec_mul(self.time_scale),
    {
        self.dt.mul(self.time_scale)
    }
}

/// What the integrator needs of a particle: to read its position, velocity,
/// accumulated force and mass, to write position and velocity, and to clear
/// the force. A write changes what it names and nothing else.
///
/// The four `spec_` functions are the model that the contracts speak of.
/// Each reading function returns what its model says.
pub trait Integratable {
    spec fn spec_position(&self) -> Vec3;

    spec fn spec_velocity(&self) -> Vec3;

    spec fn spec_force(&self) -> Vec3;

    spec fn spec_mass(&self) -> Scalar;

    fn position(&self) -> (r: Vec3)
        ensures
            r == self.spec_position(),
    ;

    fn velocity(&self) -> (r: Vec3)
        ensures
            r == self.spec_velocity(),
    ;

    fn force(&self) -> (r: Vec3)
        ensures
            r == self.spec_force(),
    ;

    fn mass(&self) -> (r: Scalar)
        ensures
            r == self.spec_mass(),
    ;

    fn set_position(&mut self, pos: Vec3)
        ensures
            final(self).spec_position() == pos,
            final(self).spec_velocity() == old(self).spec_velocity(),
            final(self).spec_force() == old(self).spec_force(),
            final(self).spec_mass() == old(self).spec_mass(),
    ;

    fn set_velocity(&mut self, vel: Vec3)
        ensures
            final(self).spec_position() == old(self).spec_position(),
            final(self).spec_velocity() == vel,
            final(self).spec_force() == old(self).spec_force(),
            final(self).spec_mass() == old(self).spec_mass(),
    ;

    fn clear_forces(&mut self)
        ensures
            final(self).spec_position() == old(self).spec_position(),
            final(self).spec_velocity() == old(self).spec_velocity(),
            final(self).spec_force() == Vec3::spec_zero(),
            final(self).spec_mass() == old(self).spec_mass(),
    ;
}

/// The acceleration `force / mass`.
pub open spec fn spec_acceleration(force: Vec3, mass: Scalar) -> Vec3 {
    force.spec_div(mass)
}

/// The position after a time step: `pos + vel dt + 0.5 accel dt dt`,
/// added and multiplied from the left.
pub open spec fn spec_verlet_position(pos: Vec3, vel: Vec3, accel: Vec3, dt: Scalar) -> Vec3 {
    pos.spec_add(vel.spec_scale(dt)).spec_add(
        accel.spec_scale(Scalar::spec_half()).spec_scale(dt).spec_scale(dt),
    )
}

/// The velocity after a time step: `vel + 0.5 (old_accel + new_accel) dt`.
pub open spec fn spec_verlet_velocity(
    vel: Vec3,
    old_accel: Vec3,
    new_accel: Vec3,
    dt: Scalar,
) -> Vec3 {
    vel.spec_add(old_accel.spec_add(new_accel).spec_scale(Scalar::spec_half()).spec_scale(dt))
}

/// The kinetic energy `0.5 mass |vel|^2`.
pub open spec fn spec_kinetic_energy(mass: Scalar, vel: Vec3) -> Scalar {
    Scalar::spec_half().spec_mul(mass).spec_mul(vel.spec_length_squared())
}

/// One component of free motion: no force gives no acceleration, which
/// changes neither where the component gets to nor how fast it goes.
proof fn lemma_free_component(pos: Scalar, vel: Scalar, force: Scalar, mass: Scalar, dt: Scalar)
    requires
        force.spec_is_zero(),
        !mass.spec_is_zero(),
        !mass.spec_is_nan(),
        dt.spec_is_finite(),
    ensures
        force.spec_div(mass).spec_is_zero(),
        pos.spec_add(vel.spec_mul(dt)).spec_add(
            force.spec_div(mass).spec_mul(Scalar::spec_half()).spec_mul(dt).spec_mul(dt),
        ).spec_same(pos.spec_add(vel.spec_mul(dt))),
        vel.spec_add(
            force.spec_div(mass).spec_add(force.spec_div(mass)).spec_mul(Scalar::spec_half()).spec_mul(
                dt,
            ),
        ).spec_same(vel),
{
    let accel = force.spec_div(mass);
    let half = Scalar::spec_half();
    lemma_div_zero(force, mass);
    lemma_mul_zero(accel, half);
    lemma_mul_zero(accel.spec_mul(half), dt);
    lemma_mul_zero(accel.spec_mul(half).spec_mul(dt), dt);
    lemma_add_zero(pos.spec_add(vel.spec_mul(dt)), accel.spec_mul(half).spec_mul(dt).spec_mul(dt));
    lemma_add_zeros(accel, accel);
    lemma_mul_zero(accel.spec_add(accel), half);
    lemma_mul_zero(accel.spec_add(accel).spec_mul(half), dt);
    lemma_add_zero(vel, accel.spec_add(accel).spec_mul(half).spec_mul(dt));
}

/// Newton's first law: a particle on which no force acts moves in a
/// straight line at the speed it has. With no force, a mass that is a
/// number and not zero, and a finite time step, phase 1 takes the position
/// to `pos + vel dt`, and phase 2, with no force at the new position
/// either, leaves the velocity as it is.
pub proof fn lemma_free_motion(pos: Vec3, vel: Vec3, force: Vec3, mass: Scalar, dt: Scalar)
    requires
        force.spec_is_zero(),
        !mass.spec_is_zero(),
        !mass.spec_is_nan(),
        dt.spec_is_finite(),
    ensures
        spec_acceleration(force, mass).spec_is_zero(),
        spec_verlet_position(pos, vel, spec_acceleration(force, mass), dt).spec_same(
            pos.spec_add(vel.spec_scale(dt)),
        ),
        spec_verlet_velocity(
            vel,
            spec_acceleration(force, mass),
            spec_acceleration(force, mass),
            dt,
        ).spec_same(vel),
{
    lemma_free_component(pos.x, vel.x, force.x, mass, dt);
    lemma_free_component(pos.y, vel.y, force.y, mass, dt);
    lemma_free_component(pos.z, vel.z, force.z, mass, dt);
}

/// Phase 1 of a step: moves the particle to its position at t + dt under
/// the force it has accumulated, and returns the acceleration a(t) for
/// phase 2. The force stays as it is.
pub fn verlet_position_step<T: Integratable>(particle: &mut T, dt: Scalar) -> (accel: Vec3)
    ensures
        accel == spec_acceleration(old(particle).spec_force(), old(particle).spec_mass()),
        final(particle).spec_position() == spec_verlet_position(
            old(particle).spec_position(),
            old(particle).spec_velocity(),
            accel,
            dt,
        ),
        final(particle).spec_velocity() == old(particle).spec_velocity(),
        final(particle).spec_force() == old(particle).spec_force(),
        final(particle).spec_mass() == old(particle).spec_mass(),
{
    let pos = particle.position();
    let vel = particle.velocity();
    let force = particle.force();
    let mass = particle.mass();
    let accel = force.div(mass);
    let new_pos = pos.add(vel.scale(dt)).add(accel.scale(Scalar::half()).scale(dt).scale(dt));
    particle.set_position(new_pos);
    accel
}

/// Phase 2 of a step: with the force at the new position accumulated,
/// takes the velocity to t + dt.
pub fn verlet_velocity_step<T: Integratable>(particle: &mut T, old_accel: Vec3, dt: Scalar)
    ensures
        final(particle).spec_velocity() == spec_verlet_velocity(
            old(particle).spec_velocity(),
            old_accel,
            spec_acceleration(old(particle).spec_force(), old(particle).spec_mass()),
            dt,
        ),
        final(particle).spec_position() == old(particle).spec_position(),
        final(particle).spec_force() == old(particle).spec_force(),
        final(particle).spec_mass() == old(particle).spec_mass(),
{
    let vel = particle.velocity();
    let force = particle.force();
    let mass = particle.mass();
    let new_accel = force.div(mass);
    let new_vel = vel.add(old_accel.add(new_accel).scale(Scalar::half()).scale(dt));
    particle.set_velocity(new_vel);
}

/// Both phases for one particle whose force depends on its position
/// alone: moves it, clears its force, asks `force_calc` for the force at
/// the new position, and updates the velocity with it.
pub fn verlet_full_step<T: Integratable, F: FnOnce(Vec3) -> Vec3>(
    particle: &mut T,
    dt: Scalar,
    force_calc: F,
)
    requires
        force_calc.requires(
            (
                spec_verlet_position(
                    old(particle).spec_position(),
                    old(particle).spec_velocity(),
                    spec_acceleration(old(particle).spec_force(), old(particle).spec_mass()),
                    dt,
                ),
            ),
        ),
    ensures
        final(particle).spec_position() == spec_verlet_position(
            old(particle).spec_position(),
            old(particle).spec_velocity(),
            spec_acceleration(old(particle).spec_force(), old(particle).spec_mass()),
            dt,
        ),
        final(particle).spec_force() == Vec3::spec_zero(),
        final(particle).spec_mass() == old(particle).spec_mass(),
        exists|new_force: Vec3|
            #![trigger spec_acceleration(new_force, old(particle).spec_mass())]
            force_calc.ensures((final(particle).spec_position(),), new_force)
                && final(particle).spec_velocity() == spec_verlet_velocity(
                old(particle).spec_velocity(),
                spec_acceleration(old(particle).spec_force(), old(particle).spec_mass()),
                spec_acceleration(new_force, old(particle).spec_mass()),
                dt,
            ),
{
    let old_accel = verlet_position_step(particle, dt);
    particle.clear_forces();
    let new_force = force_calc(particle.position());
    let mass = particle.mass();
    let new_accel = new_force.div(mass);
    assert(new_accel == spec_acceleration(new_force, old(particle).spec_mass()));
    let vel = particle.velocity();
    let new_vel = vel.add(old_accel.add(new_accel).scale(Scalar::half()).scale(dt));
    particle.set_velocity(new_vel);
}

/// The kinetic energy of a particle, in joules.
pub fn kinetic_energy<T: Integratable>(particle: &T) -> (r: Scalar)
    ensures
        r == spec_kinetic_energy(particle.spec_mass(), particle.spec_velocity()),
{
    let vel = particle.velocity();
    Scalar::half().mul(particle.mass()).mul(vel.length_squared())
}

} // verus!

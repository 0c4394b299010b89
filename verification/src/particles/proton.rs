//! The proton: charge +e, about 1836 electron masses.

use vstd::prelude::*;
use crate::scalar::format::Scalar;
use crate::vec3::Vec3;
use crate::physics::constants::{ELEMENTARY_CHARGE, PROTON_MASS};
use crate::physics::simulation::Integratable;

verus! {

/// A proton.
#[derive(Clone, Copy, Debug)]
pub struct Proton {
    /// Position in metres.
    pub position: Vec3,
    /// Velocity in metres per second.
    pub velocity: Vec3,
    /// Accumulated force in newtons, cleared after each step.
    pub force: Vec3,
}

impl Proton {
    pub open spec fn spec_charge() -> Scalar {
        Scalar { bits: ELEMENTARY_CHARGE }
    }

    pub open spec fn spec_mass_of() -> Scalar {
        Scalar { bits: PROTON_MASS }
    }

    /// A proton at rest at `position`, with no force on it.
    pub fn new(position: Vec3) -> (r: Self)
        ensures
            r.position == position,
            r.velocity == Vec3::spec_zero(),
            r.force == Vec3::spec_zero(),
    {
        Proton { position, velocity: Vec3::zero(), force: Vec3::zero() }
    }

    /// A proton at `position` moving at `velocity`, with no force on it.
    pub fn with_velocity(position: Vec3, velocity: Vec3) -> (r: Self)
        ensures
            r.position == position,
            r.velocity == velocity,
            r.force == Vec3::spec_zero(),
    {
        Proton { position, velocity, force: Vec3::zero() }
    }

    /// The charge of a proton in coulombs: +e.
    pub fn charge() -> (r: Scalar)
        ensures
            r == Proton::spec_charge(),
            r.spec_gt(Scalar::spec_zero(false)),
    {
        Scalar::from_bits(ELEMENTARY_CHARGE)
    }

    /// The mass of a proton in kilograms, which is above zero.
    pub fn mass() -> (r: Scalar)
        ensures
            r == Proton::spec_mass_of(),
            r.spec_gt(Scalar::spec_zero(false)),
    {
        Scalar::from_bits(PROTON_MASS)
    }

    /// Adds `force` to the accumulated force.
    pub fn apply_force(&mut self, force: Vec3)
        ensures
            final(self).force == old(self).force.spec_add(force),
            final(self).position == old(self).position,
            final(self).velocity == old(self).velocity,
    {
        self.force = self.force.add(force);
    }

    /// Sets the accumulated force to zero.
    pub fn clear_forces(&mut self)
        ensures
            final(self).force == Vec3::spec_zero(),
            final(self).position == old(self).position,
            final(self).velocity == old(self).velocity,
    {
        self.force = Vec3::zero();
    }
}

impl Default for Proton {
    fn default() -> (r: Self)
        ensures
            r.position == Vec3::spec_zero(),
            r.velocity == Vec3::spec_zero(),
            r.force == Vec3::spec_zero(),
    {
        Proton::new(Vec3::zero())
    }
}

impl Integratable for Proton {
    open spec fn spec_position(&self) -> Vec3 {
        self.position
    }

    open spec fn spec_velocity(&self) -> Vec3 {
        self.velocity
    }

    open spec fn spec_force(&self) -> Vec3 {
        self.force
    }

    open spec fn spec_mass(&self) -> Scalar {
        Proton::spec_mass_of()
    }

    fn position(&self) -> (r: Vec3) {
        self.position
    }

    fn velocity(&self) -> (r: Vec3) {
        self.velocity
    }

    fn force(&self) -> (r: Vec3) {
        self.force
    }

    fn mass(&self) -> (r: Scalar) {
        Proton::mass()
    }

    fn set_position(&mut self, pos: Vec3) {
        self.position = pos;
    }

    fn set_velocity(&mut self, vel: Vec3) {
        self.velocity = vel;
    }

    fn clear_forces(&mut self) {
        self.force = Vec3::zero();
    }
}

} // verus!

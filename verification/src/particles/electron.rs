//! The electron: charge -e.

use vstd::prelude::*;
use crate::scalar::format::Scalar;
use crate::vec3::Vec3;
use crate::physics::constants::{ELEMENTARY_CHARGE, ELECTRON_MASS};
use crate::physics::simulation::Integratable;

verus! {

/// An electron, as the centre of its probability cloud.
#[derive(Clone, Copy, Debug)]
pub struct Electron {
    /// Position in metres.
    pub position: Vec3,
    /// Velocity in metres per second.
    pub velocity: Vec3,
    /// Accumulated force in newtons, cleared after each step.
    pub force: Vec3,
}

impl Electron {
    pub open spec fn spec_charge() -> Scalar {
        (Scalar { bits: ELEMENTARY_CHARGE }).spec_neg()
    }

    pub open spec fn spec_mass_of() -> Scalar {
        Scalar { bits: ELECTRON_MASS }
    }

    /// An electron at rest at `position`, with no force on it.
    pub fn new(position: Vec3) -> (r: Self)
        ensures
            r.position == position,
            r.velocity == Vec3::spec_zero(),
            r.force == Vec3::spec_zero(),
    {
        Electron { position, velocity: Vec3::zero(), force: Vec3::zero() }
    }

    /// An electron at `position` moving at `velocity`, with no force on it.
    pub fn with_velocity(position: Vec3, velocity: Vec3) -> (r: Self)
        ensures
            r.position == position,
            r.velocity == velocity,
            r.force == Vec3::spec_zero(),
    {
        Electron { position, velocity, force: Vec3::zero() }
    }

    /// The charge of an electron in coulombs: -e.
    pub fn charge() -> (r: Scalar)
        ensures
            r == Electron::spec_charge(),
            r.spec_lt(Scalar::spec_zero(false)),
    {
        Scalar::from_bits(ELEMENTARY_CHARGE).neg()
    }

    /// The mass of an electron in kilograms, which is above zero.
    pub fn mass() -> (r: Scalar)
        ensures
            r == Electron::spec_mass_of(),
            r.spec_gt(Scalar::spec_zero(false)),
    {
        Scalar::from_bits(ELECTRON_MASS)
    }

    /// Adds `force` to the accumulated force.
    pub fn apply_force(&mut self, force: Vec3)
        ensures
            final(self).force == old(self).force.spec_add(force),
            final(self).position == old(self).position,
            final(self).velocity == old(self).velocity,
    {
        self.force = self.force.add(force);
    }

    /// Sets the accumulated force to zero.
    pub fn clear_forces(&mut self)
        ensures
            final(self).force == Vec3::spec_zero(),
            final(self).position == old(self).position,
            final(self).velocity == old(self).velocity,
    {
        self.force = Vec3::zero();
    }
}

impl Default for Electron {
    fn default() -> (r: Self)
        ensures
            r.position == Vec3::spec_zero(),
            r.velocity == Vec3::spec_zero(),
            r.force == Vec3::spec_zero(),
    {
        Electron::new(Vec3::zero())
    }
}

impl Integratable for Electron {
    open spec fn spec_position(&self) -> Vec3 {
        self.position
    }

    open spec fn spec_velocity(&self) -> Vec3 {
        self.velocity
    }

    open spec fn spec_force(&self) -> Vec3 {
        self.force
    }

    open spec fn spec_mass(&self) -> Scalar {
        Electron::spec_mass_of()
    }

    fn position(&self) -> (r: Vec3) {
        self.position
    }

    fn velocity(&self) -> (r: Vec3) {
        self.velocity
    }

    fn force(&self) -> (r: Vec3) {
        self.force
    }

    fn mass(&self) -> (r: Scalar) {
        Electron::mass()
    }

    fn set_position(&mut self, pos: Vec3) {
        self.position = pos;
    }

    fn set_velocity(&mut self, vel: Vec3) {
        self.velocity = vel;
    }

    fn clear_forces(&mut self) {
        self.force = Vec3::zero();
    }
}

/// The bit pattern of 0.3: below this share of the threshold energy a
/// cloud is relaxed.
pub const CLOUD_RELAXED_BELOW: u64 = 0x3fd3_3333_3333_3333;

/// The bit pattern of 0.7: below this share a cloud is excited, from it on
/// stressed.
pub const CLOUD_EXCITED_BELOW: u64 = 0x3fe6_6666_6666_6666;

/// How excited an electron's cloud is, for showing it.
#[derive(Clone, Copy, Debug, PartialEq, Eq, Structural)]
pub enum CloudState {
    /// The ground state.
    Relaxed,
    /// Slightly excited.
    Excited,
    /// At high energy.
    Stressed,
}

impl CloudState {
    /// The state for a kinetic energy given as a share of some threshold:
    /// relaxed below 0.3, excited below 0.7, else stressed.
    pub open spec fn spec_from_energy_ratio(ratio: Scalar) -> CloudState {
        if ratio.spec_lt(Scalar { bits: CLOUD_RELAXED_BELOW }) {
            CloudState::Relaxed
        } else if ratio.spec_lt(Scalar { bits: CLOUD_EXCITED_BELOW }) {
            CloudState::Excited
        } else {
            CloudState::Stressed
        }
    }

    /// The state for a kinetic energy given as a share of some threshold.
    pub fn from_energy_ratio(ratio: Scalar) -> (state: CloudState)
        ensures
            state == CloudState::spec_from_energy_ratio(ratio),
    {
        if ratio.lt(Scalar::from_bits(CLOUD_RELAXED_BELOW)) {
            CloudState::Relaxed
        } else if ratio.lt(Scalar::from_bits(CLOUD_EXCITED_BELOW)) {
            CloudState::Excited
        } else {
            CloudState::Stressed
        }
    }
}

} // verus!

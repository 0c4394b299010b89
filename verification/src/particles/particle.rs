//! A particle of either species, as the frame driver takes them.

use vstd::prelude::*;
use crate::scalar::format::Scalar;
use crate::vec3::Vec3;
use crate::particles::proton::Proton;
use crate::particles::electron::Electron;
use crate::physics::simulation::Integratable;
use crate::physics::coulomb::{lemma_commuting_charges_agree, lemma_equal_magnitudes_commute, lemma_third_law, spec_coulomb_force, spec_distance};

verus! {

/// The kind of a particle, which decides its charge and its mass.
#[derive(Clone, Copy, Debug, PartialEq, Eq, Structural)]
pub enum Species {
    Proton,
    Electron,
}

impl Species {
    pub open spec fn spec_charge(self) -> Scalar {
        match self {
            Species::Proton => Proton::spec_charge(),
            Species::Electron => Electron::spec_charge(),
        }
    }

    pub open spec fn spec_mass(self) -> Scalar {
        match self {
            Species::Proton => Proton::spec_mass_of(),
            Species::Electron => Electron::spec_mass_of(),
        }
    }

    /// The charge in coulombs: +e or -e.
    pub fn charge(self) -> (r: Scalar)
        ensures
            r == self.spec_charge(),
    {
        match self {
            Species::Proton => Proton::charge(),
            Species::Electron => Electron::charge(),
        }
    }

    /// The mass in kilograms, which is above zero.
    pub fn mass(self) -> (r: Scalar)
        ensures
            r == self.spec_mass(),
            r.spec_gt(Scalar::spec_zero(false)),
    {
        match self {
            Species::Proton => Proton::mass(),
            Species::Electron => Electron::mass(),
        }
    }
}

/// Newton's third law holds of every two particles: their charges have one
/// magnitude, so the force on the second due to the first is the negation
/// of the force on the first due to the second, component by component.
pub proof fn lemma_species_third_law(a: Species, b: Species, r1: Vec3, r2: Vec3)
    ensures
        spec_distance(r2, r1).spec_same(spec_distance(r1, r2)),
        spec_distance(r1, r2).spec_gt(Scalar::spec_zero(false)) ==> spec_coulomb_force(
            b.spec_charge(),
            a.spec_charge(),
            r2,
            r1,
        ).spec_same(spec_coulomb_force(a.spec_charge(), b.spec_charge(), r1, r2).spec_neg()),
{
    lemma_equal_magnitudes_commute(a.spec_charge(), b.spec_charge());
    lemma_commuting_charges_agree(a.spec_charge(), b.spec_charge(), spec_distance(r1, r2));
    lemma_third_law(a.spec_charge(), b.spec_charge(), r1, r2);
}

/// A particle with the identity under which the host knows it.
#[derive(Clone, Copy, Debug)]
pub struct Particle {
    /// The host's name for this particle.
    pub id: u64,
    pub species: Species,
    /// Position in metres.
    pub position: Vec3,
    /// Velocity in metres per second.
    pub velocity: Vec3,
    /// Accumulated force in newtons: zero between substeps.
    pub force: Vec3,
}

impl Particle {
    /// A particle at rest at `position`, with no force on it.
    pub fn new(id: u64, species: Species, position: Vec3) -> (r: Self)
        ensures
            r == (Particle {
                id,
                species,
                position,
                velocity: Vec3::spec_zero(),
                force: Vec3::spec_zero(),
            }),
    {
        Particle { id, species, position, velocity: Vec3::zero(), force: Vec3::zero() }
    }

    /// A particle at `position` moving at `velocity`, with no force on it.
    pub fn with_velocity(id: u64, species: Species, position: Vec3, velocity: Vec3) -> (r: Self)
        ensures
            r == (Particle { id, species, position, velocity, force: Vec3::spec_zero() }),
    {
        Particle { id, species, position, velocity, force: Vec3::zero() }
    }

    /// The proton under the identity `id`.
    pub fn from_proton(id: u64, proton: Proton) -> (r: Self)
        ensures
            r == (Particle {
                id,
                species: Species::Proton,
                position: proton.position,
                velocity: proton.velocity,
                force: proton.force,
            }),
    {
        Particle {
            id,
            species: Species::Proton,
            position: proton.position,
            velocity: proton.velocity,
            force: proton.force,
        }
    }

    /// The electron under the identity `id`.
    pub fn from_electron(id: u64, electron: Electron) -> (r: Self)
        ensures
            r == (Particle {
                id,
                species: Species::Electron,
                position: electron.position,
                velocity: electron.velocity,
                force: electron.force,
            }),
    {
        Particle {
            id,
            species: Species::Electron,
            position: electron.position,
            velocity: electron.velocity,
            force: electron.force,
        }
    }

    /// The charge in coulombs.
    pub fn charge(&self) -> (r: Scalar)
        ensures
            r == self.species.spec_charge(),
    {
        self.species.charge()
    }

    /// Adds `force` to the accumulated force.
    pub fn apply_force(&mut self, force: Vec3)
        ensures
            *final(self) == (Particle { force: old(self).force.spec_add(force), ..*old(self) }),
    {
        self.force = self.force.add(force);
    }
}

impl Integratable for Particle {
    open spec fn spec_position(&self) -> Vec3 {
        self.position
    }

    open spec fn spec_velocity(&self) -> Vec3 {
        self.velocity
    }

    open spec fn spec_force(&self) -> Vec3 {
        self.force
    }

    open spec fn spec_mass(&self) -> Scalar {
        self.species.spec_mass()
    }

    fn position(&self) -> (r: Vec3) {
        self.position
    }

    fn velocity(&self) -> (r: Vec3) {
        self.velocity
    }

    fn force(&self) -> (r: Vec3) {
        self.force
    }

    fn mass(&self) -> (r: Scalar) {
        self.species.mass()
    }

    fn set_position(&mut self, pos: Vec3)
        ensures
            *final(self) == (Particle { position: pos, ..*old(self) }),
    {
        self.position = pos;
    }

    fn set_velocity(&mut self, vel: Vec3)
        ensures
            *final(self) == (Particle { velocity: vel, ..*old(self) }),
    {
        self.velocity = vel;
    }

    fn clear_forces(&mut self)
        ensures
            *final(self) == (Particle { force: Vec3::spec_zero(), ..*old(self) }),
    {
        self.force = Vec3::zero();
    }
}

} // verus!

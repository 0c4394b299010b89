//! The virtual spring between the pointer and a particle.
//!
//! A dragged particle does not jump to the pointer: a damped spring pulls
//! it there, with a force that is capped.

use vstd::prelude::*;
use crate::scalar::format::Scalar;
use crate::scalar::laws::{lemma_add_zeros, lemma_mul_zero, lemma_neg_parts, lemma_zero_arithmetic};
use crate::vec3::{Vec3, lemma_sub_self_vec};
use crate::physics::error::SimulationError;

verus! {

/// The bit pattern of the default stiffness, 1.0e-6 N/m.
pub const DEFAULT_STIFFNESS: u64 = 0x3eb0_c6f7_a0b5_ed8d;

/// The bit pattern of the default damping, 1.0e-12 N s/m.
pub const DEFAULT_DAMPING: u64 = 0x3d71_9799_812d_ea11;

/// The bit pattern of the default force limit, 1.0e-6 N.
pub const DEFAULT_MAX_FORCE: u64 = 0x3eb0_c6f7_a0b5_ed8d;

/// The bit pattern of 0.1: below this share of the force limit a spring
/// is relaxed.
pub const RELAXED_BELOW: u64 = 0x3fb9_9999_9999_999a;

/// The bit pattern of 0.4: below this share a spring is lightly stretched.
pub const LIGHT_BELOW: u64 = 0x3fd9_9999_9999_999a;

/// The bit pattern of 0.7: below this share a spring is moderately
/// stretched, from it on heavily.
pub const MEDIUM_BELOW: u64 = 0x3fe6_6666_6666_6666;

/// A drag in progress, or none: the pointer's position and the particle it
/// holds mean something only while `active` is set.
#[derive(Clone, Copy, Debug)]
pub struct TouchInput {
    /// Whether the pointer is down.
    pub active: bool,
    /// Where the pointer is, in metres.
    pub position: Vec3,
    /// Which particle is being dragged, if any.
    pub selected_entity: Option<u64>,
}

impl Default for TouchInput {
    fn default() -> (r: Self)
        ensures
            !r.active,
            r.position == Vec3::spec_zero(),
            r.selected_entity is None,
    {
        TouchInput { active: false, position: Vec3::zero(), selected_entity: None }
    }
}

impl TouchInput {
    /// Starts a drag of `entity` at `position`.
    pub fn begin(&mut self, position: Vec3, entity: u64)
        ensures
            final(self).active,
            final(self).position == position,
            final(self).selected_entity == Some(entity),
    {
        self.active = true;
        self.position = position;
        self.selected_entity = Some(entity);
    }

    /// Moves the pointer; whether a drag is on, and of what, stays.
    pub fn update_position(&mut self, position: Vec3)
        ensures
            final(self).active == old(self).active,
            final(self).position == position,
            final(self).selected_entity == old(self).selected_entity,
    {
        self.position = position;
    }

    /// Takes in what the pointer did since the last frame. A press on a
    /// particle (`hit`) starts a drag of it; a press on nothing changes
    /// nothing. While the button stays down during a drag, the pointer
    /// moves. Otherwise a release ends the drag.
    pub fn handle_pointer(
        &mut self,
        position: Vec3,
        just_pressed: bool,
        pressed: bool,
        just_released: bool,
        hit: Option<u64>,
    )
        ensures
            *final(self) == old(self).spec_after_pointer(
                position,
                just_pressed,
                pressed,
                just_released,
                hit,
            ),
    {
        if just_pressed {
            match hit {
                Some(entity) => {
                    self.begin(position, entity);
                },
                None => {},
            }
        } else if pressed && self.active {
            self.update_position(position);
        } else if just_released {
            self.end();
        }
    }

    /// The drag after the pointer did what the arguments say.
    pub open spec fn spec_after_pointer(
        self,
        position: Vec3,
        just_pressed: bool,
        pressed: bool,
        just_released: bool,
        hit: Option<u64>,
    ) -> TouchInput {
        if just_pressed {
            match hit {
                Some(entity) => TouchInput {
                    active: true,
                    position,
                    selected_entity: Some(entity),
                },
                None => self,
            }
        } else if pressed && self.active {
            TouchInput { position, ..self }
        } else if just_released {
            TouchInput { active: false, selected_entity: None, ..self }
        } else {
            self
        }
    }

    /// Ends the drag; the pointer's last position stays.
    pub fn end(&mut self)
        ensures
            !final(self).active,
            final(self).position == old(self).position,
            final(self).selected_entity is None,
    {
        self.active = false;
        self.selected_entity = None;
    }
}

/// Marks a particle that can be dragged.
#[derive(Clone, Copy, Debug)]
pub struct Draggable {
    /// Whether it is being dragged now.
    pub is_dragging: bool,
}

impl Default for Draggable {
    fn default() -> (r: Self)
        ensures
            !r.is_dragging,
    {
        Draggable { is_dragging: false }
    }
}

/// The spring between the pointer and the dragged particle.
#[derive(Clone, Copy, Debug)]
pub struct SpringConfig {
    /// Spring constant in N/m.
    pub stiffness: Scalar,
    /// Damping coefficient in N s/m.
    pub damping: Scalar,
    /// The most force the spring exerts, in newtons.
    pub max_force: Scalar,
}

impl Default for SpringConfig {
    fn default() -> (r: Self)
        ensures
            r.stiffness.bits == DEFAULT_STIFFNESS,
            r.damping.bits == DEFAULT_DAMPING,
            r.max_force.bits == DEFAULT_MAX_FORCE,
    {
        SpringConfig {
            stiffness: Scalar::from_bits(DEFAULT_STIFFNESS),
            damping: Scalar::from_bits(DEFAULT_DAMPING),
            max_force: Scalar::from_bits(DEFAULT_MAX_FORCE),
        }
    }
}

impl SpringConfig {
    /// A spring of the given stiffness, damping and force limit. Fails
    /// exactly where the limit is below zero.
    pub fn new(stiffness: Scalar, damping: Scalar, max_force: Scalar) -> (result: Result<
        Self,
        SimulationError,
    >)
        ensures
            max_force.spec_lt(Scalar::spec_zero(false)) ==> result == Err::<Self, SimulationError>(
                SimulationError::NegativeMaxForce,
            ),
            !max_force.spec_lt(Scalar::spec_zero(false)) ==> result == Ok::<Self, SimulationError>(
                SpringConfig { stiffness, damping, max_force },
            ),
            result matches Ok(config) ==> config.spec_is_valid(),
    {
        if max_force.lt(Scalar::zero(false)) {
            Err(SimulationError::NegativeMaxForce)
        } else {
            Ok(SpringConfig { stiffness, damping, max_force })
        }
    }

    /// The default spring with another stiffness.
    pub fn with_stiffness(stiffness: Scalar) -> (r: Self)
        ensures
            r.stiffness == stiffness,
            r.damping.bits == DEFAULT_DAMPING,
            r.max_force.bits == DEFAULT_MAX_FORCE,
    {
        SpringConfig {
            stiffness,
            damping: Scalar::from_bits(DEFAULT_DAMPING),
            max_force: Scalar::from_bits(DEFAULT_MAX_FORCE),
        }
    }

    /// The force limit is not below zero.
    pub open spec fn spec_is_valid(self) -> bool {
        !self.max_force.spec_lt(Scalar::spec_zero(false))
    }

    /// Whether the force limit is not below zero.
    pub fn is_valid(&self) -> (r: bool)
        ensures
            r == self.spec_is_valid(),
    {
        !self.max_force.lt(Scalar::zero(false))
    }
}

/// The spring's pull before the limit: `stiffness * (target - pos)
/// - damping * vel`.
pub open spec fn spec_raw_spring_force(
    particle_pos: Vec3,
    particle_vel: Vec3,
    target_pos: Vec3,
    config: SpringConfig,
) -> Vec3 {
    target_pos.spec_sub(particle_pos).spec_scale(config.stiffness).spec_add(
        particle_vel.spec_scale(config.damping.spec_neg()),
    )
}

/// The spring's pull: the raw force where its length is within the limit,
/// else its unit vector times the limit.
pub open spec fn spec_spring_force(
    particle_pos: Vec3,
    particle_vel: Vec3,
    target_pos: Vec3,
    config: SpringConfig,
) -> Vec3 {
    let raw = spec_raw_spring_force(particle_pos, particle_vel, target_pos, config);
    if raw.spec_length().spec_gt(config.max_force) {
        raw.spec_normalize().spec_scale(config.max_force)
    } else {
        raw
    }
}

/// The spring is at rest: the pointer is on the particle, which does not
/// move; the force limit is not below zero; and stiffness, damping and
/// position are finite.
pub open spec fn spec_spring_rests(
    particle_pos: Vec3,
    particle_vel: Vec3,
    target_pos: Vec3,
    config: SpringConfig,
) -> bool {
    &&& target_pos == particle_pos
    &&& particle_vel.spec_is_zero()
    &&& particle_pos.spec_is_finite()
    &&& config.spec_is_valid()
    &&& config.stiffness.spec_is_finite()
    &&& config.damping.spec_is_finite()
}

/// The force, in newtons, with which the spring pulls a particle at
/// `particle_pos` moving at `particle_vel` towards the pointer at
/// `target_pos`. A raw force beyond `max_force` is scaled down to it,
/// keeping its direction. A spring at rest pulls with no force.
pub fn spring_force(
    particle_pos: Vec3,
    particle_vel: Vec3,
    target_pos: Vec3,
    config: &SpringConfig,
) -> (force: Vec3)
    ensures
        force == spec_spring_force(particle_pos, particle_vel, target_pos, *config),
        spec_spring_rests(particle_pos, particle_vel, target_pos, *config)
            ==> force.spec_is_zero(),
{
    proof {
        if spec_spring_rests(particle_pos, particle_vel, target_pos, *config) {
            lemma_spring_at_rest(particle_pos, particle_vel, *config);
        }
    }
    let displacement = target_pos.sub(particle_pos);
    let spring_f = displacement.scale(config.stiffness);
    let damping_f = particle_vel.scale(config.damping.neg());
    let total_force = spring_f.add(damping_f);
    let force_magnitude = total_force.length();
    if force_magnitude.gt(config.max_force) {
        total_force.normalize().scale(config.max_force)
    } else {
        total_force
    }
}

/// How far the spring is stretched: the distance from the particle to the
/// pointer.
pub fn spring_stretch(particle_pos: Vec3, target_pos: Vec3) -> (stretch: Scalar)
    ensures
        stretch == target_pos.spec_sub(particle_pos).spec_length(),
{
    target_pos.sub(particle_pos).length()
}

/// How hard the spring pulls, for showing it.
#[derive(Clone, Copy, Debug, PartialEq, Eq, Structural)]
pub enum SpringState {
    /// The particle is near the pointer.
    Relaxed,
    /// Slightly stretched.
    Light,
    /// Moderately stretched.
    Medium,
    /// Heavily stretched, near the force limit.
    Heavy,
}

/// The share of the force limit that a stretch asks for:
/// `stretch * stiffness / max_force`.
pub open spec fn spec_tension_ratio(stretch: Scalar, config: SpringConfig) -> Scalar {
    stretch.spec_mul(config.stiffness).spec_div(config.max_force)
}

impl SpringState {
    /// The state for a share of the force limit: relaxed below 0.1, light
    /// below 0.4, medium below 0.7, else heavy.
    pub open spec fn spec_from_ratio(ratio: Scalar) -> SpringState {
        if ratio.spec_lt(Scalar { bits: RELAXED_BELOW }) {
            SpringState::Relaxed
        } else if ratio.spec_lt(Scalar { bits: LIGHT_BELOW }) {
            SpringState::Light
        } else if ratio.spec_lt(Scalar { bits: MEDIUM_BELOW }) {
            SpringState::Medium
        } else {
            SpringState::Heavy
        }
    }

    /// The state of a spring stretched by `stretch` metres.
    pub fn from_stretch(stretch: Scalar, config: &SpringConfig) -> (state: SpringState)
        ensures
            state == SpringState::spec_from_ratio(spec_tension_ratio(stretch, *config)),
    {
        let force = stretch.mul(config.stiffness);
        let ratio = force.div(config.max_force);
        if ratio.lt(Scalar::from_bits(RELAXED_BELOW)) {
            SpringState::Relaxed
        } else if ratio.lt(Scalar::from_bits(LIGHT_BELOW)) {
            SpringState::Light
        } else if ratio.lt(Scalar::from_bits(MEDIUM_BELOW)) {
            SpringState::Medium
        } else {
            SpringState::Heavy
        }
    }
}

/// A spring at rest pulls with no force: with the pointer on a particle
/// that does not move, every component of the force is a zero. The limit
/// must not be below zero, and stiffness, damping and position must be
/// finite, as zero times infinity is no number.
pub proof fn lemma_spring_at_rest(pos: Vec3, vel: Vec3, config: SpringConfig)
    requires
        spec_spring_rests(pos, vel, pos, config),
    ensures
        spec_spring_force(pos, vel, pos, config).spec_is_zero(),
{
    let zero = Scalar::spec_zero(false);
    let damping = config.damping.spec_neg();
    lemma_neg_parts(config.damping);
    lemma_sub_self_vec(pos);
    lemma_mul_zero(zero, config.stiffness);
    lemma_mul_zero(vel.x, damping);
    lemma_mul_zero(vel.y, damping);
    lemma_mul_zero(vel.z, damping);
    let pull = zero.spec_mul(config.stiffness);
    lemma_add_zeros(pull, vel.x.spec_mul(damping));
    lemma_add_zeros(pull, vel.y.spec_mul(damping));
    lemma_add_zeros(pull, vel.z.spec_mul(damping));
    let raw = spec_raw_spring_force(pos, vel, pos, config);
    assert(raw.spec_is_zero());
    lemma_mul_zero(raw.x, raw.x);
    lemma_mul_zero(raw.y, raw.y);
    lemma_mul_zero(raw.z, raw.z);
    lemma_add_zeros(raw.x.spec_mul(raw.x), raw.y.spec_mul(raw.y));
    lemma_add_zeros(raw.x.spec_mul(raw.x).spec_add(raw.y.spec_mul(raw.y)), raw.z.spec_mul(raw.z));
    lemma_zero_arithmetic();
    assert(raw.spec_length_squared() == zero);
}

} // verus!

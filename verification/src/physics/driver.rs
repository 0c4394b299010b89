//! One frame of the simulation: a time step taken in equal substeps.
//!
//! A substep moves every particle (phase 1), then adds up the forces at the
//! new positions, then updates every velocity (phase 2) and clears the
//! forces. All particles are moved before any force is worked out, and all
//! forces are worked out before any particle is changed by them.

use vstd::prelude::*;
use crate::scalar::format::Scalar;
use crate::vec3::Vec3;
use crate::particles::particle::Particle;
use crate::input::spring::{spec_spring_force, spring_force, SpringConfig, TouchInput};
use crate::physics::coulomb::{coulomb_force, spec_coulomb_force, spec_distance};
use crate::physics::error::SimulationError;
use crate::physics::simulation::{spec_acceleration, spec_verlet_position, spec_verlet_velocity, verlet_position_step, verlet_velocity_step, Integratable, SimulationConfig};

verus! {

/// The two particles are not a positive distance apart.
pub open spec fn spec_pair_is_singular(a: Particle, b: Particle) -> bool {
    !spec_distance(a.position, b.position).spec_gt(Scalar::spec_zero(false))
}

/// Some two of the particles are not a positive distance apart.
pub open spec fn spec_is_singular(particles: Seq<Particle>) -> bool {
    exists|i: int, j: int|
        0 <= i < particles.len() && 0 <= j < particles.len() && i != j
            && #[trigger] spec_pair_is_singular(particles[i], particles[j])
}

/// The force on particle `i` once the Coulomb forces due to the others
/// among the first `count` particles have been added, in the order of the
/// list, to the force it had.
pub open spec fn spec_coulomb_sum(particles: Seq<Particle>, i: int, count: int) -> Vec3
    decreases count,
{
    if count <= 0 {
        particles[i].force
    } else {
        let before = spec_coulomb_sum(particles, i, count - 1);
        let j = count - 1;
        if j == i {
            before
        } else {
            before.spec_add(
                spec_coulomb_force(
                    particles[i].species.spec_charge(),
                    particles[j].species.spec_charge(),
                    particles[i].position,
                    particles[j].position,
                ),
            )
        }
    }
}

/// Every particle with the Coulomb forces of all the others added to its
/// force.
pub open spec fn spec_with_coulomb(particles: Seq<Particle>) -> Seq<Particle> {
    Seq::new(
        particles.len(),
        |i: int|
            Particle {
                force: spec_coulomb_sum(particles, i, particles.len() as int),
                ..particles[i]
            },
    )
}

/// The spring pulls on the particle that the drag holds, while one is on.
pub open spec fn spec_spring_applies(touch_input: TouchInput, particle: Particle) -> bool {
    touch_input.active && touch_input.selected_entity == Some(particle.id)
}

/// The particle with the spring's pull added to its force, if the drag
/// holds it.
pub open spec fn spec_sprung(
    particle: Particle,
    touch_input: TouchInput,
    spring_config: SpringConfig,
) -> Particle {
    if spec_spring_applies(touch_input, particle) {
        Particle {
            force: particle.force.spec_add(
                spec_spring_force(
                    particle.position,
                    particle.velocity,
                    touch_input.position,
                    spring_config,
                ),
            ),
            ..particle
        }
    } else {
        particle
    }
}

pub open spec fn spec_with_spring(
    particles: Seq<Particle>,
    touch_input: TouchInput,
    spring_config: SpringConfig,
) -> Seq<Particle> {
    Seq::new(particles.len(), |i: int| spec_sprung(particles[i], touch_input, spring_config))
}

/// The particle after phase 1: at its new position, all else as it was.
pub open spec fn spec_moved(particle: Particle, dt: Scalar) -> Particle {
    Particle {
        position: spec_verlet_position(
            particle.position,
            particle.velocity,
            spec_acceleration(particle.force, particle.species.spec_mass()),
            dt,
        ),
        ..particle
    }
}

pub open spec fn spec_all_moved(particles: Seq<Particle>, dt: Scalar) -> Seq<Particle> {
    Seq::new(particles.len(), |i: int| spec_moved(particles[i], dt))
}

/// The particle after phase 2: `moved` is the particle after phase 1, with
/// the force that moved it, `forced` the same with the forces at the new
/// positions added. The velocity is updated and the force cleared.
pub open spec fn spec_kicked(moved: Particle, forced: Particle, dt: Scalar) -> Particle {
    Particle {
        velocity: spec_verlet_velocity(
            forced.velocity,
            spec_acceleration(moved.force, moved.species.spec_mass()),
            spec_acceleration(forced.force, forced.species.spec_mass()),
            dt,
        ),
        force: Vec3::spec_zero(),
        ..forced
    }
}

pub open spec fn spec_all_kicked(
    moved: Seq<Particle>,
    forced: Seq<Particle>,
    dt: Scalar,
) -> Seq<Particle> {
    Seq::new(moved.len(), |i: int| spec_kicked(moved[i], forced[i], dt))
}

/// The particles after one substep, and whether it could be completed. It
/// cannot where two particles coincide after phase 1; the particles then
/// stay as phase 1 left them.
pub open spec fn spec_substep(
    particles: Seq<Particle>,
    touch_input: TouchInput,
    spring_config: SpringConfig,
    dt: Scalar,
) -> (Seq<Particle>, bool) {
    let moved = spec_all_moved(particles, dt);
    if spec_is_singular(moved) {
        (moved, false)
    } else {
        let forced = spec_with_spring(spec_with_coulomb(moved), touch_input, spring_config);
        (spec_all_kicked(moved, forced, dt), true)
    }
}

/// The particles after `substeps` substeps or, where one of them could not
/// be completed, as that one left them; and whether all were completed.
pub open spec fn spec_substeps(
    particles: Seq<Particle>,
    touch_input: TouchInput,
    spring_config: SpringConfig,
    dt: Scalar,
    substeps: nat,
) -> (Seq<Particle>, bool)
    decreases substeps,
{
    if substeps == 0 {
        (particles, true)
    } else {
        let (next, completed) = spec_substep(particles, touch_input, spring_config, dt);
        if completed {
            spec_substeps(next, touch_input, spring_config, dt, (substeps - 1) as nat)
        } else {
            (next, false)
        }
    }
}

/// The same particles in the same order: as many, each with the identity
/// and the species it had.
pub open spec fn spec_same_particles(before: Seq<Particle>, after: Seq<Particle>) -> bool {
    &&& after.len() == before.len()
    &&& forall|k: int|
        0 <= k < before.len() ==> (#[trigger] after[k]).id == before[k].id && after[k].species
            == before[k].species
}

/// No particle has any force accumulated.
pub open spec fn spec_forces_cleared(particles: Seq<Particle>) -> bool {
    forall|k: int| 0 <= k < particles.len() ==> (#[trigger] particles[k]).force == Vec3::spec_zero()
}

/// A substep neither makes nor destroys a particle, nor changes what one
/// is; and a completed substep leaves no force accumulated.
pub proof fn lemma_substep_keeps_particles(
    particles: Seq<Particle>,
    touch_input: TouchInput,
    spring_config: SpringConfig,
    dt: Scalar,
)
    ensures
        spec_same_particles(particles, spec_substep(particles, touch_input, spring_config, dt).0),
        spec_substep(particles, touch_input, spring_config, dt).1 ==> spec_forces_cleared(
            spec_substep(particles, touch_input, spring_config, dt).0,
        ),
{
}

/// A frame neither makes nor destroys a particle, nor changes what one is;
/// and a frame of at least one substep, all completed, leaves no force
/// accumulated.
pub proof fn lemma_substeps_keep_particles(
    particles: Seq<Particle>,
    touch_input: TouchInput,
    spring_config: SpringConfig,
    dt: Scalar,
    substeps: nat,
)
    ensures
        spec_same_particles(
            particles,
            spec_substeps(particles, touch_input, spring_config, dt, substeps).0,
        ),
        substeps > 0 && spec_substeps(particles, touch_input, spring_config, dt, substeps).1
            ==> spec_forces_cleared(
            spec_substeps(particles, touch_input, spring_config, dt, substeps).0,
        ),
    decreases substeps,
{
    if substeps > 0 {
        let (next, completed) = spec_substep(particles, touch_input, spring_config, dt);
        lemma_substep_keeps_particles(particles, touch_input, spring_config, dt);
        if completed {
            lemma_substeps_keep_particles(
                next,
                touch_input,
                spring_config,
                dt,
                (substeps - 1) as nat,
            );
        }
    }
}

/// The length of a substep: the frame's time step over the number of
/// substeps.
pub open spec fn spec_substep_dt(dt: Scalar, substeps: u32) -> Scalar {
    dt.spec_div(Scalar::spec_from_u32(substeps))
}

/// Adds to every particle's force the Coulomb forces due to all the
/// others. The forces are all worked out from the positions as they are
/// before any particle is changed.
///
/// Fails, and changes nothing, exactly where two particles are not a
/// positive distance apart.
pub fn apply_coulomb_forces(particles: &mut Vec<Particle>) -> (result: Result<
    (),
    SimulationError,
>)
    ensures
        result is Ok <==> !spec_is_singular(old(particles)@),
        result is Ok ==> final(particles)@ == spec_with_coulomb(old(particles)@),
        result matches Err(e) ==> e == SimulationError::Singularity && final(particles)@ == old(
            particles,
        )@,
{
    let n = particles.len();
    let mut sums: Vec<Vec3> = Vec::new();
    let mut i: usize = 0;
    while i < n
        invariant
            particles@ == old(particles)@,
            n == particles.len(),
            i <= n,
            sums.len() == i,
            forall|k: int| 0 <= k < i ==> sums[k] == spec_coulomb_sum(particles@, k, n as int),
            forall|k: int, j: int|
                0 <= k < i && 0 <= j < n && k != j ==> !#[trigger] spec_pair_is_singular(
                    particles@[k],
                    particles@[j],
                ),
        decreases n - i,
    {
        let subject = particles[i];
        let mut sum = subject.force;
        let mut j: usize = 0;
        while j < n
            invariant
                particles@ == old(particles)@,
                n == particles.len(),
                i < n,
                j <= n,
                subject == particles@[i as int],
                sum == spec_coulomb_sum(particles@, i as int, j as int),
                forall|m: int|
                    0 <= m < j && m != i ==> !#[trigger] spec_pair_is_singular(
                        particles@[i as int],
                        particles@[m],
                    ),
            decreases n - j,
        {
            if j != i {
                let other = particles[j];
                match coulomb_force(
                    subject.charge(),
                    other.charge(),
                    subject.position,
                    other.position,
                ) {
                    Ok(force) => {
                        sum = sum.add(force);
                    },
                    Err(_) => {
                        assert(spec_pair_is_singular(particles@[i as int], particles@[j as int]));
                        return Err(SimulationError::Singularity);
                    },
                }
            }
            j = j + 1;
        }
        sums.push(sum);
        i = i + 1;
    }
    let mut i: usize = 0;
    while i < n
        invariant
            n == particles.len(),
            n == old(particles)@.len(),
            n == sums.len(),
            i <= n,
            forall|k: int|
                0 <= k < i ==> particles@[k] == (Particle {
                    force: sums[k],
                    ..old(particles)@[k]
                }),
            forall|k: int| i <= k < n ==> particles@[k] == old(particles)@[k],
        decreases n - i,
    {
        let mut particle = particles[i];
        particle.force = sums[i];
        particles.set(i, particle);
        i = i + 1;
    }
    assert(particles@ =~= spec_with_coulomb(old(particles)@));
    Ok(())
}

/// Adds the spring's pull to the force of the particle that the drag
/// holds. Does nothing while no drag is on.
pub fn apply_spring_force(
    particles: &mut Vec<Particle>,
    touch_input: &TouchInput,
    spring_config: &SpringConfig,
)
    ensures
        final(particles)@ == spec_with_spring(old(particles)@, *touch_input, *spring_config),
{
    let n = particles.len();
    let mut i: usize = 0;
    while i < n
        invariant
            n == particles.len(),
            n == old(particles)@.len(),
            i <= n,
            forall|k: int|
                0 <= k < i ==> particles@[k] == spec_sprung(
                    old(particles)@[k],
                    *touch_input,
                    *spring_config,
                ),
            forall|k: int| i <= k < n ==> particles@[k] == old(particles)@[k],
        decreases n - i,
    {
        let mut particle = particles[i];
        let held = match touch_input.selected_entity {
            Some(id) => touch_input.active && id == particle.id,
            None => false,
        };
        if held {
            let force = spring_force(
                particle.position,
                particle.velocity,
                touch_input.position,
                spring_config,
            );
            particle.apply_force(force);
            particles.set(i, particle);
        }
        i = i + 1;
    }
    assert(particles@ =~= spec_with_spring(old(particles)@, *touch_input, *spring_config));
}

/// Phase 1 for every particle. Returns the accelerations that moved them.
fn move_all(particles: &mut Vec<Particle>, dt: Scalar) -> (accels: Vec<Vec3>)
    ensures
        final(particles)@ == spec_all_moved(old(particles)@, dt),
        accels.len() == old(particles)@.len(),
        forall|k: int|
            0 <= k < accels.len() ==> accels[k] == spec_acceleration(
                old(particles)@[k].force,
                old(particles)@[k].species.spec_mass(),
            ),
{
    let n = particles.len();
    let mut accels: Vec<Vec3> = Vec::new();
    let mut i: usize = 0;
    while i < n
        invariant
            n == particles.len(),
            n == old(particles)@.len(),
            i <= n,
            accels.len() == i,
            forall|k: int| 0 <= k < i ==> particles@[k] == spec_moved(old(particles)@[k], dt),
            forall|k: int| i <= k < n ==> particles@[k] == old(particles)@[k],
            forall|k: int|
                0 <= k < i ==> accels[k] == spec_acceleration(
                    old(particles)@[k].force,
                    old(particles)@[k].species.spec_mass(),
                ),
        decreases n - i,
    {
        let particle = particles[i];
        let mut stepped = particle;
        let accel = verlet_position_step(&mut stepped, dt);
        // The integrator answers for position, velocity, force and mass alone.
        particles.set(i, Particle { position: stepped.position, ..particle });
        accels.push(accel);
        i = i + 1;
    }
    assert(particles@ =~= spec_all_moved(old(particles)@, dt));
    accels
}

/// Phase 2 for every particle, and the clearing of its force.
fn kick_all(particles: &mut Vec<Particle>, accels: &Vec<Vec3>, dt: Scalar)
    requires
        accels.len() == old(particles)@.len(),
    ensures
        final(particles)@.len() == old(particles)@.len(),
        forall|k: int|
            0 <= k < old(particles)@.len() ==> final(particles)@[k] == (Particle {
                velocity: spec_verlet_velocity(
                    old(particles)@[k].velocity,
                    accels[k],
                    spec_acceleration(
                        old(particles)@[k].force,
                        old(particles)@[k].species.spec_mass(),
                    ),
                    dt,
                ),
                force: Vec3::spec_zero(),
                ..old(particles)@[k]
            }),
{
    let n = particles.len();
    let mut i: usize = 0;
    while i < n
        invariant
            n == particles.len(),
            n == old(particles)@.len(),
            n == accels.len(),
            i <= n,
            forall|k: int|
                0 <= k < i ==> particles@[k] == (Particle {
                    velocity: spec_verlet_velocity(
                        old(particles)@[k].velocity,
                        accels[k],
                        spec_acceleration(
                            old(particles)@[k].force,
                            old(particles)@[k].species.spec_mass(),
                        ),
                        dt,
                    ),
                    force: Vec3::spec_zero(),
                    ..old(particles)@[k]
                }),
            forall|k: int| i <= k < n ==> particles@[k] == old(particles)@[k],
        decreases n - i,
    {
        let particle = particles[i];
        let mut stepped = particle;
        verlet_velocity_step(&mut stepped, accels[i], dt);
        stepped.clear_forces();
        // The integrator answers for position, velocity, force and mass alone.
        particles.set(i, Particle { velocity: stepped.velocity, force: stepped.force, ..particle });
        i = i + 1;
    }
}

/// One substep of length `dt`: phase 1 for every particle, the Coulomb
/// forces among them and the spring's pull at the new positions, phase 2
/// for every particle, and the clearing of the forces.
///
/// Fails exactly where two particles coincide after phase 1, and then
/// leaves the particles as phase 1 left them.
pub fn substep(
    particles: &mut Vec<Particle>,
    touch_input: &TouchInput,
    spring_config: &SpringConfig,
    dt: Scalar,
) -> (result: Result<(), SimulationError>)
    ensures
        final(particles)@ == spec_substep(old(particles)@, *touch_input, *spring_config, dt).0,
        result is Ok <==> spec_substep(old(particles)@, *touch_input, *spring_config, dt).1,
        result matches Err(e) ==> e == SimulationError::Singularity,
        spec_same_particles(old(particles)@, final(particles)@),
        result is Ok ==> spec_forces_cleared(final(particles)@),
{
    let accels = move_all(particles, dt);
    let ghost moved = particles@;
    match apply_coulomb_forces(particles) {
        Ok(()) => {},
        Err(e) => {
            proof {
                lemma_substep_keeps_particles(old(particles)@, *touch_input, *spring_config, dt);
            }
            return Err(e);
        },
    }
    apply_spring_force(particles, touch_input, spring_config);
    let ghost forced = particles@;
    kick_all(particles, &accels, dt);
    assert(particles@ =~= spec_all_kicked(moved, forced, dt));
    proof {
        lemma_substep_keeps_particles(old(particles)@, *touch_input, *spring_config, dt);
    }
    Ok(())
}

/// Whether the configuration can be run: at least one substep, and a
/// spring whose force limit is not below zero.
///
/// Fails with `NonPositiveSubstepCount` exactly where the count is zero,
/// and with `NegativeMaxForce` exactly where it is not and the limit is
/// below zero.
pub fn validate(config: &SimulationConfig, spring_config: &SpringConfig) -> (result: Result<
    (),
    SimulationError,
>)
    ensures
        config.substep_count == 0 ==> result == Err::<(), SimulationError>(
            SimulationError::NonPositiveSubstepCount,
        ),
        config.substep_count != 0 && !spring_config.spec_is_valid() ==> result == Err::<
            (),
            SimulationError,
        >(SimulationError::NegativeMaxForce),
        config.substep_count != 0 && spring_config.spec_is_valid() ==> result is Ok,
{
    if config.substep_count == 0 {
        Err(SimulationError::NonPositiveSubstepCount)
    } else if !spring_config.is_valid() {
        Err(SimulationError::NegativeMaxForce)
    } else {
        Ok(())
    }
}

/// One frame: the time step `dt` taken in `config.substep_count` equal
/// substeps.
///
/// An invalid configuration is refused before anything is changed. Where
/// two particles coincide after phase 1 of a substep, the frame ends there
/// with `Singularity`, the particles as that phase left them. Otherwise
/// every substep is completed, and every force is zero at the end.
pub fn physics_step(
    particles: &mut Vec<Particle>,
    touch_input: &TouchInput,
    config: &SimulationConfig,
    spring_config: &SpringConfig,
    dt: Scalar,
) -> (result: Result<(), SimulationError>)
    ensures
        config.substep_count == 0 ==> result == Err::<(), SimulationError>(
            SimulationError::NonPositiveSubstepCount,
        ) && final(particles)@ == old(particles)@,
        config.substep_count != 0 && !spring_config.spec_is_valid() ==> result == Err::<
            (),
            SimulationError,
        >(SimulationError::NegativeMaxForce) && final(particles)@ == old(particles)@,
        config.substep_count != 0 && spring_config.spec_is_valid() ==> {
            let outcome = spec_substeps(
                old(particles)@,
                *touch_input,
                *spring_config,
                spec_substep_dt(dt, config.substep_count),
                config.substep_count as nat,
            );
            &&& final(particles)@ == outcome.0
            &&& result is Ok <==> outcome.1
            &&& result matches Err(e) ==> e == SimulationError::Singularity
        },
        spec_same_particles(old(particles)@, final(particles)@),
        result is Ok ==> spec_forces_cleared(final(particles)@),
{
    match validate(config, spring_config) {
        Ok(()) => {},
        Err(e) => {
            return Err(e);
        },
    }
    let substeps = config.substep_count;
    let sub_dt = dt.div(Scalar::from_u32(substeps));
    let mut done: u32 = 0;
    while done < substeps
        invariant
            done <= substeps,
            substeps == config.substep_count,
            substeps != 0,
            spring_config.spec_is_valid(),
            sub_dt == spec_substep_dt(dt, config.substep_count),
            spec_same_particles(old(particles)@, particles@),
            done > 0 ==> spec_forces_cleared(particles@),
            spec_substeps(
                particles@,
                *touch_input,
                *spring_config,
                sub_dt,
                (substeps - done) as nat,
            ) == spec_substeps(
                old(particles)@,
                *touch_input,
                *spring_config,
                sub_dt,
                substeps as nat,
            ),
        decreases substeps - done,
    {
        match substep(particles, touch_input, spring_config, sub_dt) {
            Ok(()) => {},
            Err(e) => {
                return Err(e);
            },
        }
        done = done + 1;
    }
    Ok(())
}

} // verus!

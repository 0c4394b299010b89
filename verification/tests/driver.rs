// A frame of substeps, against the same steps written out with the
// machine's arithmetic.

use dynachem::input::spring::{SpringConfig, TouchInput};
use dynachem::particles::electron::Electron;
use dynachem::particles::particle::{Particle, Species};
use dynachem::particles::proton::Proton;
use dynachem::physics::constants::{BOHR_RADIUS, COULOMB_CONSTANT, ELECTRON_MASS, ELEMENTARY_CHARGE, PROTON_MASS};
use dynachem::physics::driver::{apply_coulomb_forces, apply_spring_force, physics_step, substep, validate};
use dynachem::physics::error::SimulationError;
use dynachem::physics::simulation::SimulationConfig;
use dynachem::scalar::format::Scalar;
use dynachem::vec3::Vec3;
use glam::DVec3;

fn s(x: f64) -> Scalar {
    Scalar::from_bits(x.to_bits())
}

fn f(x: Scalar) -> f64 {
    f64::from_bits(x.to_bits())
}

fn v(a: DVec3) -> Vec3 {
    Vec3::new(s(a.x), s(a.y), s(a.z))
}

fn d(a: Vec3) -> DVec3 {
    DVec3::new(f(a.x), f(a.y), f(a.z))
}

fn bits(a: DVec3) -> [u64; 3] {
    [a.x.to_bits(), a.y.to_bits(), a.z.to_bits()]
}

/// A particle in the machine's numbers.
#[derive(Clone, Debug)]
struct Body {
    id: u64,
    charge: f64,
    mass: f64,
    position: DVec3,
    velocity: DVec3,
    force: DVec3,
}

fn body(p: &Particle) -> Body {
    let (charge, mass) = match p.species {
        Species::Proton => (f64::from_bits(ELEMENTARY_CHARGE), f64::from_bits(PROTON_MASS)),
        Species::Electron => (-f64::from_bits(ELEMENTARY_CHARGE), f64::from_bits(ELECTRON_MASS)),
    };
    Body {
        id: p.id,
        charge,
        mass,
        position: d(p.position),
        velocity: d(p.velocity),
        force: d(p.force),
    }
}

fn coulomb(q1: f64, q2: f64, r1: DVec3, r2: DVec3) -> Option<DVec3> {
    let displacement = r1 - r2;
    let distance = displacement.length();
    if !(distance > 0.0) {
        return None;
    }
    let magnitude = f64::from_bits(COULOMB_CONSTANT) * q1 * q2 / (distance * distance);
    Some(displacement / distance * magnitude)
}

struct Spring {
    stiffness: f64,
    damping: f64,
    max_force: f64,
}

fn spring_pull(spring: &Spring, pos: DVec3, vel: DVec3, target: DVec3) -> DVec3 {
    let total = spring.stiffness * (target - pos) + -spring.damping * vel;
    if total.length() > spring.max_force {
        total.normalize() * spring.max_force
    } else {
        total
    }
}

/// One substep with the machine's arithmetic. False where two bodies
/// coincide after the move.
fn machine_substep(
    bodies: &mut Vec<Body>,
    held: Option<(u64, DVec3)>,
    spring: &Spring,
    dt: f64,
) -> bool {
    let mut accels = Vec::new();
    for b in bodies.iter_mut() {
        let accel = b.force / b.mass;
        b.position = b.position + b.velocity * dt + 0.5 * accel * dt * dt;
        accels.push(accel);
    }
    let mut sums = Vec::new();
    for i in 0..bodies.len() {
        let mut sum = bodies[i].force;
        for j in 0..bodies.len() {
            if j != i {
                match coulomb(bodies[i].charge, bodies[j].charge, bodies[i].position, bodies[j].position) {
                    Some(force) => sum += force,
                    None => return false,
                }
            }
        }
        sums.push(sum);
    }
    for (b, sum) in bodies.iter_mut().zip(sums) {
        b.force = sum;
        if let Some((id, target)) = held {
            if id == b.id {
                b.force += spring_pull(spring, b.position, b.velocity, target);
            }
        }
    }
    for (b, old_accel) in bodies.iter_mut().zip(accels) {
        let new_accel = b.force / b.mass;
        b.velocity = b.velocity + 0.5 * (old_accel + new_accel) * dt;
        b.force = DVec3::ZERO;
    }
    true
}

fn assert_same(particles: &[Particle], bodies: &[Body]) {
    assert_eq!(particles.len(), bodies.len());
    for (p, b) in particles.iter().zip(bodies) {
        assert_eq!(p.id, b.id);
        assert_eq!(bits(d(p.position)), bits(b.position));
        assert_eq!(bits(d(p.velocity)), bits(b.velocity));
        assert_eq!(bits(d(p.force)), bits(b.force));
    }
}

fn bohr() -> f64 {
    f64::from_bits(BOHR_RADIUS)
}

fn atom_and_stray() -> Vec<Particle> {
    let r = 2.0 * bohr();
    vec![
        Particle::new(10, Species::Proton, v(DVec3::new(r, 0.0, 0.0))),
        Particle::with_velocity(
            11,
            Species::Electron,
            v(DVec3::ZERO),
            v(DVec3::new(0.0, 7.7e5, 0.0)),
        ),
        Particle::with_velocity(
            12,
            Species::Electron,
            v(DVec3::new(-r, 0.5 * r, 0.3 * r)),
            v(DVec3::new(1.0e5, -2.0e5, 3.0e4)),
        ),
        Particle::new(13, Species::Proton, v(DVec3::new(0.1 * r, -1.3 * r, 0.0))),
    ]
}

fn spring() -> (SpringConfig, Spring) {
    (
        SpringConfig { stiffness: s(1.0e-8), damping: s(1.0e-15), max_force: s(1.0e-7) },
        Spring { stiffness: 1.0e-8, damping: 1.0e-15, max_force: 1.0e-7 },
    )
}

fn config(substep_count: u32) -> SimulationConfig {
    SimulationConfig { substep_count, ..SimulationConfig::default() }
}

#[test]
fn frame_is_the_substeps_as_the_machine_computes_them() {
    let mut particles = atom_and_stray();
    let mut bodies: Vec<Body> = particles.iter().map(body).collect();
    let (spring_config, spring) = spring();
    let mut touch = TouchInput::default();
    let target = DVec3::new(3.0 * bohr(), bohr(), 0.0);
    touch.begin(v(target), 10);

    let dt = 1.0e-17;
    for _ in 0..20 {
        let result = physics_step(&mut particles, &touch, &config(10), &spring_config, s(dt));
        assert_eq!(result, Ok(()));
        let sub_dt = dt / 10.0;
        for _ in 0..10 {
            assert!(machine_substep(&mut bodies, Some((10, target)), &spring, sub_dt));
        }
        assert_same(&particles, &bodies);
    }
    // The particles went somewhere.
    for (after, before) in particles.iter().zip(&atom_and_stray()) {
        assert!(bits(d(after.position)) != bits(d(before.position)));
    }
}

#[test]
fn frame_without_a_drag_has_no_spring() {
    let mut particles = atom_and_stray();
    let mut bodies: Vec<Body> = particles.iter().map(body).collect();
    let (spring_config, spring) = spring();

    // A position and a particle are there, but no drag is on.
    let mut touch = TouchInput::default();
    touch.begin(v(DVec3::new(1.0, 1.0, 1.0)), 10);
    touch.end();

    assert_eq!(physics_step(&mut particles, &touch, &config(4), &spring_config, s(4.0e-18)), Ok(()));
    for _ in 0..4 {
        assert!(machine_substep(&mut bodies, None, &spring, 4.0e-18 / 4.0));
    }
    assert_same(&particles, &bodies);
}

#[test]
fn frame_uses_force_accumulated_before_it() {
    let r = bohr();
    let mut particles = vec![
        Particle::new(1, Species::Proton, v(DVec3::new(r, 0.0, 0.0))),
        Particle::new(2, Species::Electron, v(DVec3::ZERO)),
    ];
    particles[1].apply_force(v(DVec3::new(0.0, 1.0e-9, 0.0)));
    let mut bodies: Vec<Body> = particles.iter().map(body).collect();
    let (spring_config, spring) = spring();
    let touch = TouchInput::default();

    assert_eq!(physics_step(&mut particles, &touch, &config(3), &spring_config, s(3.0e-18)), Ok(()));
    for _ in 0..3 {
        assert!(machine_substep(&mut bodies, None, &spring, 3.0e-18 / 3.0));
    }
    assert_same(&particles, &bodies);
    // The force pushed the electron along y.
    assert!(f(particles[1].position.y) > 0.0);
}

#[test]
fn completed_frame_leaves_no_force_and_keeps_the_particles() {
    let mut particles = atom_and_stray();
    let (spring_config, _) = spring();
    let mut touch = TouchInput::default();
    touch.begin(v(DVec3::new(bohr(), bohr(), 0.0)), 12);

    assert_eq!(physics_step(&mut particles, &touch, &config(10), &spring_config, s(1.0e-17)), Ok(()));

    let before = atom_and_stray();
    assert_eq!(particles.len(), before.len());
    for (after, before) in particles.iter().zip(&before) {
        assert_eq!(after.id, before.id);
        assert_eq!(after.species, before.species);
        assert_eq!(bits(d(after.force)), [0, 0, 0]);
    }
}

#[test]
fn coincident_particles_end_the_frame() {
    let here = DVec3::new(bohr(), 0.0, 0.0);
    let mut particles = vec![
        Particle::new(1, Species::Proton, v(here)),
        Particle::new(2, Species::Electron, v(DVec3::ZERO)),
        Particle::with_velocity(3, Species::Electron, v(here), v(DVec3::new(1.0e5, 0.0, 0.0))),
    ];
    // Particle 3 moves off the proton in phase 1: the first frame goes through.
    let (spring_config, _) = spring();
    let touch = TouchInput::default();
    assert_eq!(physics_step(&mut particles, &touch, &config(2), &spring_config, s(2.0e-18)), Ok(()));

    // Two particles at rest at one place stay there in phase 1.
    let mut stuck = vec![
        Particle::with_velocity(1, Species::Proton, v(DVec3::ZERO), v(DVec3::new(0.0, 2.0, 0.0))),
        Particle::new(2, Species::Proton, v(here)),
        Particle::new(3, Species::Electron, v(here)),
    ];
    let result = physics_step(&mut stuck, &touch, &config(5), &spring_config, s(5.0));
    assert_eq!(result, Err(SimulationError::Singularity));
    // Phase 1 of the first substep was applied to every particle, phase 2 to none.
    assert_eq!(bits(d(stuck[0].position)), bits(DVec3::new(0.0, 2.0, 0.0)));
    assert_eq!(bits(d(stuck[0].velocity)), bits(DVec3::new(0.0, 2.0, 0.0)));
    assert_eq!(bits(d(stuck[1].position)), bits(here));
    assert_eq!(bits(d(stuck[2].position)), bits(here));
}

#[test]
fn substep_fails_exactly_where_the_machine_one_does() {
    let (spring_config, spring) = spring();
    let touch = TouchInput::default();
    let r = bohr();
    // The electron runs into the place of the proton within the substep.
    let mut particles = vec![
        Particle::new(1, Species::Proton, v(DVec3::new(r, 0.0, 0.0))),
        Particle::with_velocity(2, Species::Electron, v(DVec3::ZERO), v(DVec3::new(r, 0.0, 0.0))),
    ];
    let mut bodies: Vec<Body> = particles.iter().map(body).collect();
    assert_eq!(
        substep(&mut particles, &touch, &spring_config, s(1.0)),
        Err(SimulationError::Singularity)
    );
    assert!(!machine_substep(&mut bodies, None, &spring, 1.0));
    assert_eq!(bits(d(particles[1].position)), bits(DVec3::new(r, 0.0, 0.0)));
    assert_eq!(bits(d(particles[1].velocity)), bits(DVec3::new(r, 0.0, 0.0)));
}

#[test]
fn invalid_configurations_are_refused_before_anything_moves() {
    let (spring_config, _) = spring();
    let touch = TouchInput::default();
    let mut particles = atom_and_stray();

    let result = physics_step(&mut particles, &touch, &config(0), &spring_config, s(1.0e-17));
    assert_eq!(result, Err(SimulationError::NonPositiveSubstepCount));
    assert_same(&particles, &atom_and_stray().iter().map(body).collect::<Vec<_>>());

    let negative = SpringConfig { max_force: s(-1.0e-7), ..spring_config };
    let result = physics_step(&mut particles, &touch, &config(10), &negative, s(1.0e-17));
    assert_eq!(result, Err(SimulationError::NegativeMaxForce));
    assert_same(&particles, &atom_and_stray().iter().map(body).collect::<Vec<_>>());

    // No substep at all is reported before the spring is looked at.
    let result = physics_step(&mut particles, &touch, &config(0), &negative, s(1.0e-17));
    assert_eq!(result, Err(SimulationError::NonPositiveSubstepCount));

    assert_eq!(validate(&config(0), &spring_config), Err(SimulationError::NonPositiveSubstepCount));
    assert_eq!(validate(&config(1), &negative), Err(SimulationError::NegativeMaxForce));
    assert_eq!(validate(&config(1), &spring_config), Ok(()));
    assert_eq!(validate(&SimulationConfig::default(), &SpringConfig::default()), Ok(()));
}

#[test]
fn coulomb_forces_add_up_in_the_order_of_the_list() {
    let mut particles = atom_and_stray();
    particles[2].apply_force(v(DVec3::new(1.0e-9, 0.0, -2.0e-9)));
    let bodies: Vec<Body> = particles.iter().map(body).collect();

    assert_eq!(apply_coulomb_forces(&mut particles), Ok(()));

    for i in 0..bodies.len() {
        let mut sum = bodies[i].force;
        for j in 0..bodies.len() {
            if j != i {
                sum += coulomb(bodies[i].charge, bodies[j].charge, bodies[i].position, bodies[j].position)
                    .unwrap();
            }
        }
        assert_eq!(bits(d(particles[i].force)), bits(sum));
        assert_eq!(bits(d(particles[i].position)), bits(bodies[i].position));
        assert_eq!(bits(d(particles[i].velocity)), bits(bodies[i].velocity));
    }
}

#[test]
fn coulomb_forces_fail_without_a_trace() {
    let here = DVec3::new(1.0e-10, 0.0, 0.0);
    let mut particles = vec![
        Particle::new(1, Species::Proton, v(DVec3::ZERO)),
        Particle::new(2, Species::Electron, v(here)),
        Particle::new(3, Species::Proton, v(here)),
    ];
    particles[0].apply_force(v(DVec3::new(1.0, 2.0, 3.0)));
    assert_eq!(apply_coulomb_forces(&mut particles), Err(SimulationError::Singularity));
    assert_eq!(bits(d(particles[0].force)), bits(DVec3::new(1.0, 2.0, 3.0)));
    assert_eq!(bits(d(particles[1].force)), [0, 0, 0]);
    assert_eq!(bits(d(particles[2].force)), [0, 0, 0]);

    // One particle alone, or none, has nothing to coincide with.
    let mut alone = vec![Particle::new(1, Species::Proton, v(DVec3::ZERO))];
    assert_eq!(apply_coulomb_forces(&mut alone), Ok(()));
    assert_eq!(bits(d(alone[0].force)), [0, 0, 0]);
    let mut none: Vec<Particle> = Vec::new();
    assert_eq!(apply_coulomb_forces(&mut none), Ok(()));
}

#[test]
fn spring_pulls_on_the_held_particle_alone() {
    let (spring_config, spring) = spring();
    let target = DVec3::new(3.0 * bohr(), bohr(), 0.0);

    let mut touch = TouchInput::default();
    touch.begin(v(target), 12);
    let mut particles = atom_and_stray();
    let bodies: Vec<Body> = particles.iter().map(body).collect();
    apply_spring_force(&mut particles, &touch, &spring_config);
    for (p, b) in particles.iter().zip(&bodies) {
        let expected = if b.id == 12 {
            b.force + spring_pull(&spring, b.position, b.velocity, target)
        } else {
            b.force
        };
        assert_eq!(bits(d(p.force)), bits(expected));
    }
    assert!(bits(d(particles[2].force)) != bits(bodies[2].force));

    // A drag of a particle that is not there pulls on nothing.
    touch.begin(v(target), 99);
    let mut particles = atom_and_stray();
    apply_spring_force(&mut particles, &touch, &spring_config);
    assert_same(&particles, &bodies);

    // Nor does a drag that has ended.
    touch.begin(v(target), 12);
    touch.end();
    apply_spring_force(&mut particles, &touch, &spring_config);
    assert_same(&particles, &bodies);
}

#[test]
fn particles_take_charge_and_mass_from_their_species() {
    let proton = Proton::with_velocity(v(DVec3::new(1.0, 2.0, 3.0)), v(DVec3::new(4.0, 5.0, 6.0)));
    let p = Particle::from_proton(7, proton);
    assert_eq!(p.id, 7);
    assert_eq!(p.species, Species::Proton);
    assert_eq!(bits(d(p.position)), bits(DVec3::new(1.0, 2.0, 3.0)));
    assert_eq!(bits(d(p.velocity)), bits(DVec3::new(4.0, 5.0, 6.0)));
    assert_eq!(f(p.charge()), f64::from_bits(ELEMENTARY_CHARGE));
    assert_eq!(f(p.species.mass()), f64::from_bits(PROTON_MASS));

    let mut electron = Electron::new(v(DVec3::new(-1.0, 0.0, 0.5)));
    electron.apply_force(v(DVec3::new(0.0, 1.0, 0.0)));
    let e = Particle::from_electron(8, electron);
    assert_eq!(e.species, Species::Electron);
    assert_eq!(bits(d(e.force)), bits(DVec3::new(0.0, 1.0, 0.0)));
    assert_eq!(f(e.charge()), -f64::from_bits(ELEMENTARY_CHARGE));
    assert_eq!(f(e.species.mass()), f64::from_bits(ELECTRON_MASS));
    assert_eq!(f(Species::Electron.charge()), -f(Species::Proton.charge()));
}

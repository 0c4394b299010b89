//! Charged point particles advanced in time under Coulomb and spring forces.
//!
//! The library has three layers.
//!
//! - [`scalar`] and [`vec3`]: every quantity is a binary64 number held as
//!   its bit pattern in a [`scalar::format::Scalar`]. Sum, product,
//!   quotient and square root are integer code on those patterns, each
//!   specified as its exact result, or as much of it as decides, rounded
//!   to nearest, ties to even, and verified against that. A host converts
//!   with `f64::to_bits` and `f64::from_bits`.
//! - [`physics::coulomb`], [`input::spring`] and [`physics::simulation`]:
//!   the two force laws and the two phases of the velocity Verlet method,
//!   each with a contract that gives its result to the bit.
//! - [`physics::driver`]: a frame of substeps over a list of
//!   [`particles::particle::Particle`]s, specified as a function from the
//!   particles before to the particles after.
//!
//! No function of the library panics. The one input without a value, two
//! charges that are not a positive distance apart, is reported as
//! [`physics::error::SimulationError::Singularity`].

pub mod scalar;
pub mod vec3;
pub mod physics;
pub mod particles;
pub mod input;

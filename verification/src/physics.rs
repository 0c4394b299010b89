//! Constants, force laws and the integrator.

pub mod constants;
pub mod error;
pub mod coulomb;
pub mod simulation;
pub mod driver;

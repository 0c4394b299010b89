//! The particle species.

pub mod proton;
pub mod electron;
pub mod particle;

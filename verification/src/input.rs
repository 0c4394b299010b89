//! What the user does to the simulation.

pub mod spring;

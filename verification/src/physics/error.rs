//! What can go wrong.

use vstd::prelude::*;

verus! {

/// Why a force or a frame could not be computed.
#[derive(Clone, Copy, Debug, PartialEq, Eq, Structural)]
pub enum SimulationError {
    /// Two charges are not a positive distance apart, where the force law
    /// has no value.
    Singularity,
    /// The configuration asks for no substep at all.
    NonPositiveSubstepCount,
    /// The spring's force limit is below zero.
    NegativeMaxForce,
}

} // verus!

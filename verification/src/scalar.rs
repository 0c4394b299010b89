//! Binary64 arithmetic on bit patterns.
//!
//! [`format`] reads a pattern as sign, mantissa and exponent. [`rounding`]
//! takes a magnitude `q * 2^e` to the nearest value of the format, and
//! [`nearest`] proves that this is what it does. [`arith`], [`division`]
//! and [`root`] give each operation as the rounding of its exact result;
//! [`order`] compares. [`laws`] holds what the force laws need of them.

pub mod format;
pub mod power;
pub mod rounding;
pub mod nearest;
pub mod arith;
pub mod division;
pub mod order;
pub mod root;
pub mod laws;

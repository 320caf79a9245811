//! The pricing models: the shared calculator capability and its two
//! implementations.

pub mod bancor_curve;
pub mod calculator;
pub mod constant_curve;

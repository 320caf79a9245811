//! Bonding-curve token pricing built on a scaled-integer fixed-point number.
//!
//! The library keeps every price as an integer `value` together with a decimal
//! `percision` (the number of digits after the decimal point), so that the
//! represented amount is `value / 10^percision`. Two pricing models, a
//! constant-price curve and a connector-weighted curve, derive an initial
//! price from integer supply and reserve figures; a shared conversion turns
//! amounts between the base asset and the issued token in either direction.

pub mod curve;
pub mod error;
pub mod safe_number;
pub mod wire;

use vstd::prelude::*;

verus! {

/// The number of bytes in the serialized form of a fixed-point number:
/// a 128-bit raw value followed by a 32-bit precision.
pub const SAFE_MATH_SIZE: usize = 16 + 4;

} // verus!

//! The failure kinds every pricing operation can surface.

use vstd::prelude::*;

verus! {

/// Why a pricing computation could not produce a value.
///
/// Every fallible operation in this crate reports one of these instead of
/// silently truncating or wrapping.
#[derive(Clone, Copy, Debug, PartialEq, Eq, Structural)]
pub enum CurveError {
    /// A divisor (current supply, connector weight, or a raw divisor) was zero.
    DivisionByZero,
    /// A scaled value no longer fits the raw 128-bit integer, or a rounded
    /// conversion exceeds the target integer's range.
    Overflow,
    /// A malformed decimal text or an out-of-range parameter was supplied.
    InvalidInput,
}

} // verus!

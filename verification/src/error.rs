//! What can go wrong when units are declared or quantities converted.

use vstd::prelude::*;

verus! {

#[derive(Clone, Copy, Debug, PartialEq, Eq, Structural)]
pub enum UnitError {
    /// Two units that must measure the same physical kind do not.
    DimensionMismatch,
    /// A scale is zero, infinite or not a number.
    InvalidScale,
    /// An exponent does not fit the eight bits that hold it.
    ExponentOverflow,
    /// A unit expression uses an operator other than `*` and `/`.
    UnsupportedOperator,
    /// A unit expression holds something that is no operand of `*` and `/`.
    UnsupportedExpression,
}

} // verus!

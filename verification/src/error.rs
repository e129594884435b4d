use vstd::prelude::*;

verus! {

/// Why a conversion between durations, periods or integer widths failed.
#[derive(Debug, Clone, Copy, PartialEq, Eq, Structural)]
pub enum ConversionError {
    /// The count does not fit in the destination integer type.
    ConversionFailure,
    /// An intermediate product overflowed the integer type it was computed in.
    Overflow,
    /// A division by zero was requested (a zero period).
    DivByZero,
}

} // verus!

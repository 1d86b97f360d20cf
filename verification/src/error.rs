//! Why a value could not be stored in a decimal.
use vstd::prelude::*;

verus! {

/// The reason a setter left the decimal as it was.
#[derive(Clone, Copy, Debug, PartialEq, Eq, Structural)]
pub enum DecimalStorageError {
    /// The exponent lies above the largest one the format holds.
    ExponentTooLarge,
    /// The exponent lies below the smallest one the format holds.
    ExponentTooSmall,
    /// The coefficient has more digits than the format's precision.
    CoeffecientTooLarge,
}

} // verus!

//! Decimal floating point in the IEEE 754-2008 decimal32 interchange format.
//!
//! A [`decimal32::Decimal32`] is one 32-bit word. Sign, exponent and
//! coefficient are read from it and written into it field by field, as
//! [`layout`] lays the fields out; the coefficient's six low digits are held
//! as two densely packed decimal groups, which [`dpd`] unpacks and packs.
//! [`decimal::Decimal`] is what any decimal representation offers, and
//! [`laws`] states what holds of the 32-bit one whatever its word is.
//! [`rounding`] brings an integer of more than seven digits down to the
//! precision of a coefficient.

pub mod decimal;
pub mod decimal32;
pub mod dpd;
pub mod error;
pub mod integer;
pub mod laws;
pub mod layout;
pub mod rounding;

//! What every decimal representation offers: a sign, an exponent and a
//! coefficient that can be read and set, and construction from narrow
//! unsigned integers.
//!
//! Each executable method is specified by a spec function of the same
//! trait, which an implementation defines: the getters by what they read,
//! the setters and constructors by the decimal that results.
use crate::error::DecimalStorageError;
use crate::integer::{SignedInteger, UnsignedInteger};
use vstd::prelude::*;

verus! {

/// A decimal number `(-1)^sign * coeffecient * 10^exponent`.
pub trait Decimal: Sized {
    /// The type of the exponent.
    type Exponent: SignedInteger;

    /// The type of the coefficient.
    type Coeffecient: UnsignedInteger;

    /// The decimal that [`Decimal::new`] makes.
    spec fn new_spec() -> Self;

    /// Whether the decimal is negative.
    spec fn sign_spec(&self) -> bool;

    /// The decimal's exponent.
    spec fn exponent_spec(&self) -> Self::Exponent;

    /// The decimal's coefficient.
    spec fn coeffecient_spec(&self) -> Self::Coeffecient;

    /// The decimal with its sign replaced.
    spec fn with_sign(self, sign: bool) -> Self;

    /// The decimal with its exponent replaced, or the reason `exp` cannot
    /// be stored.
    spec fn with_exponent(self, exp: Self::Exponent) -> Result<Self, DecimalStorageError>;

    /// The decimal with its coefficient replaced, or the reason `coeff`
    /// cannot be stored.
    spec fn with_coeffecient(self, coeff: Self::Coeffecient) -> Result<
        Self,
        DecimalStorageError,
    >;

    /// The decimal that stands for the integer `num`, rounded where the
    /// representation has fewer digits than `num`.
    spec fn from_u32_spec(num: u32) -> Self;

    /// Whether `num` is stored without loss of digits.
    spec fn holds_exactly(num: u32) -> bool;

    /// Replacing the sign gives that sign and leaves exponent and
    /// coefficient as they were.
    proof fn lemma_sign_independent(self, sign: bool)
        ensures
            self.with_sign(sign).sign_spec() == sign,
            self.with_sign(sign).exponent_spec() == self.exponent_spec(),
            self.with_sign(sign).coeffecient_spec() == self.coeffecient_spec(),
    ;

    /// An exponent is refused only as too large or too small, a coefficient
    /// only as too large.
    proof fn lemma_error_kinds(self, exp: Self::Exponent, coeff: Self::Coeffecient)
        ensures
            self.with_exponent(exp) matches Err(e) ==> e == DecimalStorageError::ExponentTooLarge
                || e == DecimalStorageError::ExponentTooSmall,
            self.with_coeffecient(coeff) matches Err(e) ==> e
                == DecimalStorageError::CoeffecientTooLarge,
    ;

    /// Create default empty decimal.
    fn new() -> (d: Self)
        ensures
            d == Self::new_spec(),
    ;

    /// Get the sign of the decimal. True indicates a negative sign.
    fn sign(&self) -> (s: bool)
        ensures
            s == self.sign_spec(),
    ;

    /// Set the sign of the decimal. True indicates a negative sign.
    /// Exponent and coefficient are left as they were.
    fn set_sign(&mut self, sign: bool)
        ensures
            *final(self) == old(self).with_sign(sign),
            final(self).sign_spec() == sign,
            final(self).exponent_spec() == old(self).exponent_spec(),
            final(self).coeffecient_spec() == old(self).coeffecient_spec(),
    ;

    /// Get the decimal exponent.
    fn exponent(&self) -> (e: Self::Exponent)
        ensures
            e == self.exponent_spec(),
    ;

    /// Set the decimal exponent. A refused exponent leaves the decimal as
    /// it was.
    fn set_exponent(&mut self, exp: Self::Exponent) -> (r: Result<(), DecimalStorageError>)
        ensures
            match old(self).with_exponent(exp) {
                Ok(d) => r == Ok::<(), DecimalStorageError>(()) && *final(self) == d,
                Err(e) => r == Err::<(), DecimalStorageError>(e) && *final(self) == *old(self),
            },
    ;

    /// Get the decimal coefficient (significand).
    fn coeffecient(&self) -> (c: Self::Coeffecient)
        ensures
            c == self.coeffecient_spec(),
    ;

    /// Set the decimal coefficient (significand). A refused coefficient
    /// leaves the decimal as it was.
    fn set_coeffecient(&mut self, coeff: Self::Coeffecient) -> (r: Result<
        (),
        DecimalStorageError,
    >)
        ensures
            match old(self).with_coeffecient(coeff) {
                Ok(d) => r == Ok::<(), DecimalStorageError>(()) && *final(self) == d,
                Err(e) => r == Err::<(), DecimalStorageError>(e) && *final(self) == *old(self),
            },
    ;

    /// Whether the decimal is not negative.
    fn is_sign_positive(&self) -> (b: bool)
        ensures
            b == !self.sign_spec(),
    {
        !self.sign()
    }

    /// Whether the decimal is negative.
    fn is_sign_negative(&self) -> (b: bool)
        ensures
            b == self.sign_spec(),
    {
        !self.is_sign_positive()
    }

    /// Make the decimal not negative.
    fn set_sign_positive(&mut self)
        ensures
            *final(self) == old(self).with_sign(false),
            !final(self).sign_spec(),
            final(self).exponent_spec() == old(self).exponent_spec(),
            final(self).coeffecient_spec() == old(self).coeffecient_spec(),
    {
        self.set_sign(false);
    }

    /// Make the decimal negative.
    fn set_sign_negative(&mut self)
        ensures
            *final(self) == old(self).with_sign(true),
            final(self).sign_spec(),
            final(self).exponent_spec() == old(self).exponent_spec(),
            final(self).coeffecient_spec() == old(self).coeffecient_spec(),
    {
        self.set_sign(true);
    }

    /// Create decimal from `u8` with potential precision loss.
    fn from_u8(num: u8) -> (d: Self)
        ensures
            d == Self::from_u32_spec(num as u32),
    ;

    /// Create decimal from `u16` with potential precision loss.
    fn from_u16(num: u16) -> (d: Self)
        ensures
            d == Self::from_u32_spec(num as u32),
    ;

    /// Create decimal from `u32` with potential precision loss.
    fn from_u32(num: u32) -> (d: Self)
        ensures
            d == Self::from_u32_spec(num),
    ;

    /// Create decimal from `u8` only if possible without precision loss.
    ///
    /// A value is given exactly when the representation holds `i` without
    /// loss of digits, and it is then the decimal that stands for `i`.
    fn from_u8_checked(i: u8) -> (r: Option<Self>)
        ensures
            r is Some <==> Self::holds_exactly(i as u32),
            r matches Some(d) ==> d == Self::from_u32_spec(i as u32),
    ;
}

} // verus!

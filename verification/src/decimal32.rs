//! A 32-bit floating point decimal using IEEE-754 encoding.
//!
//! A [`Decimal32`] is one word of the layout that [`crate::layout`]
//! describes. The combination field carries the two leading bits of the
//! biased exponent together with the leading digit of the coefficient; the
//! exponent continuation holds the six low bits of the biased exponent; the
//! coefficient continuation holds the six low digits of the coefficient as
//! two declets.
//!
//! Every word reads as some sign, exponent and coefficient: see
//! [`DecimalValue`]. The setters write one part and keep the others as long
//! as the biased exponent stays at or below [`BIASED_EXPONENT_MAX`]; the
//! laws in [`crate::laws`] say so, and say what happens above it.
use crate::decimal::Decimal;
use crate::dpd::{digits_from_dpd, digits_to_dpd, dpd_pack, dpd_value, DECLET_MASK};
use crate::error::DecimalStorageError;
use crate::laws::{lemma_lead_before_continuation, lemma_short_continuation};
use crate::layout::{
    combination_bits,
    coeffecient_cont_bits,
    exponent_cont_bits,
    lemma_field_bounds,
    lemma_with_combination_bits,
    lemma_with_coeffecient_cont_bits,
    lemma_with_exponent_cont_bits,
    sign_bit,
    with_combination_bits,
    with_coeffecient_cont_bits,
    with_exponent_cont_bits,
    with_sign_bit,
    COEFFECIENT_MASK,
    COMBINATION_MASK,
    EXPONENT_MASK,
    SIGN_MASK,
};
use crate::rounding::{round_to_precision, rounded_coeffecient, rounded_shift};
use vstd::prelude::*;

verus! {

/// Lookup table for converting a 5-bit combination field to the 2 most
/// significant bits of the exponent.
const COMB_EXP_LOOKUP: [u8; 32] = [
    0, 0, 0, 0, 0, 0, 0, 0, 1, 1, 1, 1, 1, 1, 1, 1, 2, 2, 2, 2, 2, 2, 2, 2, 0, 0, 1, 1, 2, 2, 3, 3,
];

/// Lookup table for converting a 5-bit combination field to the most
/// significant digit of the coefficient.
const COMB_DIG_LOOKUP: [u8; 32] = [
    0, 1, 2, 3, 4, 5, 6, 7, 0, 1, 2, 3, 4, 5, 6, 7, 0, 1, 2, 3, 4, 5, 6, 7, 8, 9, 8, 9, 8, 9, 0, 1,
];

/// The number of decimal digits in a coefficient.
pub const PRECISION: usize = 7;

/// What is added to an exponent to store it.
pub const EXPONENT_BIAS: i8 = 101;

/// The largest biased exponent whose two leading bits the combination field
/// carries beside every leading digit.
pub const BIASED_EXPONENT_MAX: u8 = 191;

/// Minimum exponent value
pub const EXPONENT_MIN: i8 = -95;

/// Maximum exponent value
pub const EXPONENT_MAX: i8 = 96;

/// Maximum coeffecient (significand) value
pub const COEFFECIENT_MAX: u32 = 9_999_999;

/// The word that a new decimal starts from.
pub const ZERO: u32 = 0x6000_0000;

/// The two leading bits of the biased exponent that the combination field
/// `comb` carries.
///
/// Fields 0 to 23 pair a prefix 0 to 2 with a digit 0 to 7; fields 24 to 29
/// pair a prefix 0 to 2 with a digit 8 or 9; fields 30 and 31 read as the
/// prefix 3 with the digit 0 or 1.
pub open spec fn combination_exponent_msb(comb: int) -> int {
    if comb < 24 {
        comb / 8
    } else if comb < 30 {
        (comb - 24) / 2
    } else {
        3
    }
}

/// The leading digit of the coefficient that the combination field `comb`
/// carries.
pub open spec fn combination_digit(comb: int) -> int {
    if comb < 24 {
        comb % 8
    } else if comb < 30 {
        8 + comb % 2
    } else {
        comb - 30
    }
}

/// The combination field made of the exponent's two leading bits `exp_msb`
/// and the coefficient's leading digit `coeff_msd`.
pub open spec fn combination_of(exp_msb: u8, coeff_msd: u8) -> u8 {
    if coeff_msd <= 7 {
        (exp_msb << 3) | (coeff_msd & 0x7)
    } else {
        0x18 | (exp_msb << 1) | (coeff_msd & 0x1)
    }
}

/// The combination field of a prefix up to 2 and a digit is read back as
/// that prefix and that digit. With the prefix 3 the field is one of 24
/// to 31, which reads as another pair.
pub proof fn lemma_combination_of(exp_msb: u8, coeff_msd: u8)
    requires
        exp_msb <= 3,
        coeff_msd <= 9,
    ensures
        combination_of(exp_msb, coeff_msd) <= 31,
        coeff_msd <= 7 ==> combination_of(exp_msb, coeff_msd) == 8 * exp_msb + coeff_msd,
        coeff_msd >= 8 ==> combination_of(exp_msb, coeff_msd) == 16 + 2 * exp_msb + coeff_msd,
        exp_msb <= 2 ==> combination_of(exp_msb, coeff_msd) <= 29,
        exp_msb <= 2 ==> combination_exponent_msb(combination_of(exp_msb, coeff_msd) as int)
            == exp_msb,
        exp_msb <= 2 ==> combination_digit(combination_of(exp_msb, coeff_msd) as int)
            == coeff_msd,
{
    let comb = combination_of(exp_msb, coeff_msd);
    assert(comb <= 31 && (coeff_msd <= 7 ==> comb == 8 * exp_msb + coeff_msd) && (coeff_msd >= 8
        ==> comb == 16 + 2 * exp_msb + coeff_msd)) by (bit_vector)
        requires
            comb == combination_of(exp_msb, coeff_msd),
            exp_msb <= 3,
            coeff_msd <= 9,
    ;
}

/// Encodes an exponent's 2 most significant bits and a coeffecient's most
/// significant digit into a 5-bit combination field.
///
/// For `exp_msb` from 0 to 2 and a digit from 0 to 9 the field is the one
/// that reads back as that pair.
pub fn encode_combination_field(exp_msb: u8, coeff_msd: u8) -> (comb: u8)
    ensures
        comb == combination_of(exp_msb, coeff_msd),
        exp_msb <= 3 && coeff_msd <= 9 ==> comb <= 31,
        exp_msb <= 2 && coeff_msd <= 9 ==> combination_exponent_msb(comb as int) == exp_msb,
        exp_msb <= 2 && coeff_msd <= 9 ==> combination_digit(comb as int) == coeff_msd,
{
    proof {
        if exp_msb <= 3 && coeff_msd <= 9 {
            lemma_combination_of(exp_msb, coeff_msd);
        }
    }
    if coeff_msd <= 7 {
        (exp_msb << 3) | (coeff_msd & 0x7)
    } else {
        0x18 | (exp_msb << 1) | (coeff_msd & 0x1)
    }
}

/// What a decimal stands for: `coeffecient * 10^exponent`, negated where
/// `negative` is set.
pub struct DecimalValue {
    pub negative: bool,
    pub exponent: int,
    pub coeffecient: nat,
}

/// A 32-bit floating point decimal using IEEE-754 encoding
pub struct Decimal32 {
    pub bits: u32,
}

impl View for Decimal32 {
    type V = DecimalValue;

    open spec fn view(&self) -> DecimalValue {
        DecimalValue {
            negative: sign_bit(self.bits),
            exponent: self.exponent_value(),
            coeffecient: self.coeffecient_value(),
        }
    }
}

impl Decimal32 {
    /// The combination field.
    pub open spec fn combination_spec(&self) -> u32 {
        combination_bits(self.bits)
    }

    /// The two leading bits of the biased exponent.
    pub open spec fn exponent_msb_spec(&self) -> int {
        combination_exponent_msb(combination_bits(self.bits) as int)
    }

    /// The six low bits of the biased exponent.
    pub open spec fn exponent_cont_spec(&self) -> u32 {
        exponent_cont_bits(self.bits)
    }

    /// The leading digit of the coefficient.
    pub open spec fn coeffecient_msd_spec(&self) -> int {
        combination_digit(combination_bits(self.bits) as int)
    }

    /// The two declets that hold the coefficient's six low digits.
    pub open spec fn coeffecient_cont_spec(&self) -> u32 {
        coeffecient_cont_bits(self.bits)
    }

    /// The exponent as stored: from 0 to 255.
    pub open spec fn biased_exponent(&self) -> int {
        64 * self.exponent_msb_spec() + self.exponent_cont_spec()
    }

    /// Whether the biased exponent is at most [`BIASED_EXPONENT_MAX`]: the
    /// combination field is one of the thirty that pair an exponent prefix
    /// from 0 to 2 with a digit from 0 to 9.
    pub open spec fn is_regular(&self) -> bool {
        self.biased_exponent() <= BIASED_EXPONENT_MAX
    }

    /// The exponent: the biased exponent less the bias, narrowed to eight
    /// bits. Only a biased exponent above 228 is changed by the narrowing.
    pub open spec fn exponent_value(&self) -> int {
        let e = self.biased_exponent() - EXPONENT_BIAS;
        if e > 127 {
            e - 256
        } else {
            e
        }
    }

    /// The coefficient: the leading digit before the six digits of the two
    /// declets.
    pub open spec fn coeffecient_value(&self) -> nat {
        (1_000_000 * self.coeffecient_msd_spec() + dpd_value(self.coeffecient_cont_spec(), 2))
            as nat
    }

    /// Gets the 5-bit combination field
    #[inline]
    pub fn combination_field(&self) -> (comb: u8)
        ensures
            comb == self.combination_spec(),
            comb <= 31,
    {
        proof {
            lemma_field_bounds(self.bits);
        }
        ((self.bits & COMBINATION_MASK) >> 26) as u8
    }

    /// Sets the 5-bit combination field
    ///
    /// The other fields are kept where `comb` fits in five bits; higher bits
    /// of `comb` land in the sign bit or are lost.
    #[inline]
    pub fn set_combination_field(&mut self, comb: u8)
        ensures
            final(self).bits == with_combination_bits(old(self).bits, comb),
            comb <= 31 ==> final(self).combination_spec() == comb,
            comb <= 31 ==> final(self).sign_spec() == old(self).sign_spec(),
            comb <= 31 ==> final(self).exponent_cont_spec() == old(self).exponent_cont_spec(),
            comb <= 31 ==> final(self).coeffecient_cont_spec() == old(self).coeffecient_cont_spec(),
    {
        proof {
            if comb <= 31 {
                lemma_with_combination_bits(self.bits, comb);
            }
        }
        self.bits = self.bits & !COMBINATION_MASK;
        self.bits = self.bits | ((comb as u32) << 26);
    }

    /// Gets the 2-bit exponent MSB from the combination field using a lookup table
    #[inline]
    pub fn exponent_msb(&self) -> (msb: u8)
        ensures
            msb == self.exponent_msb_spec(),
            msb <= 3,
    {
        let comb: u8 = self.combination_field();
        COMB_EXP_LOOKUP[comb as usize]
    }

    /// Gets the 6-bit exponent continuation
    #[inline]
    pub fn exponent_cont(&self) -> (cont: u8)
        ensures
            cont == self.exponent_cont_spec(),
            cont <= 63,
    {
        proof {
            lemma_field_bounds(self.bits);
        }
        ((self.bits & EXPONENT_MASK) >> 20) as u8
    }

    /// Sets the 6-bit exponent continutation
    ///
    /// The other fields are kept where `cont` fits in six bits; higher bits
    /// of `cont` land in the combination field.
    #[inline]
    pub fn set_exponent_cont(&mut self, cont: u8)
        ensures
            final(self).bits == with_exponent_cont_bits(old(self).bits, cont),
            cont <= 63 ==> final(self).exponent_cont_spec() == cont,
            cont <= 63 ==> final(self).sign_spec() == old(self).sign_spec(),
            cont <= 63 ==> final(self).combination_spec() == old(self).combination_spec(),
            cont <= 63 ==> final(self).coeffecient_cont_spec() == old(self).coeffecient_cont_spec(),
    {
        proof {
            if cont <= 63 {
                lemma_with_exponent_cont_bits(self.bits, cont);
            }
        }
        self.bits = self.bits & !EXPONENT_MASK;
        self.bits = self.bits | ((cont as u32) << 20);
    }

    /// Gets the 4-bit (BCD) coeffecient MSB from the combination field using a lookup table
    #[inline]
    pub fn coeffecient_msd(&self) -> (msd: u8)
        ensures
            msd == self.coeffecient_msd_spec(),
            msd <= 9,
    {
        let comb: u8 = self.combination_field();
        COMB_DIG_LOOKUP[comb as usize]
    }

    /// Gets the 20-bit (DPD encoded) coeffecient continuaton
    #[inline]
    pub fn coeffecient_cont(&self) -> (cont: u32)
        ensures
            cont == self.coeffecient_cont_spec(),
            cont <= COEFFECIENT_MASK,
    {
        proof {
            lemma_field_bounds(self.bits);
        }
        self.bits & COEFFECIENT_MASK
    }

    /// Sets the 20-bit (DPD encoded) coeffecient continuation
    ///
    /// The other fields are kept where `cont` fits in twenty bits; higher
    /// bits of `cont` are or-ed into the fields above.
    #[inline]
    pub fn set_coeffecient_cont(&mut self, cont: u32)
        ensures
            final(self).bits == with_coeffecient_cont_bits(old(self).bits, cont),
            cont <= COEFFECIENT_MASK ==> final(self).coeffecient_cont_spec() == cont,
            cont <= COEFFECIENT_MASK ==> final(self).sign_spec() == old(self).sign_spec(),
            cont <= COEFFECIENT_MASK ==> final(self).combination_spec()
                == old(self).combination_spec(),
            cont <= COEFFECIENT_MASK ==> final(self).exponent_cont_spec()
                == old(self).exponent_cont_spec(),
    {
        proof {
            if cont <= COEFFECIENT_MASK {
                lemma_with_coeffecient_cont_bits(self.bits, cont);
            }
        }
        self.bits = self.bits & !COEFFECIENT_MASK;
        self.bits = self.bits | cont;
    }
}

/// `bits` with the biased exponent `biased` written into it: its two leading
/// bits go into the combination field beside the leading digit that is
/// there, its six low bits into the exponent continuation.
pub open spec fn with_biased_exponent(bits: u32, biased: u8) -> u32 {
    let msd = combination_digit(combination_bits(bits) as int) as u8;
    with_exponent_cont_bits(
        with_combination_bits(bits, combination_of(biased >> 6, msd)),
        biased & 0x3f,
    )
}

/// `bits` with the coefficient `coeff` written into it: its leading digit
/// goes into the combination field beside the exponent bits that are there,
/// its six low digits into the coefficient continuation as two declets.
pub open spec fn with_coeffecient_bits(bits: u32, coeff: u32) -> u32 {
    let msb = combination_exponent_msb(combination_bits(bits) as int) as u8;
    with_coeffecient_cont_bits(
        with_combination_bits(bits, combination_of(msb, (coeff / 1_000_000) as u8)),
        dpd_pack(coeff % 1_000_000, 2),
    )
}

/// Whether `exp` is an exponent that is read back as it was set: it is at
/// least [`EXPONENT_MIN`], and biased it is at most [`BIASED_EXPONENT_MAX`].
pub open spec fn exponent_is_storable(exp: i8) -> bool {
    EXPONENT_MIN <= exp && exp + EXPONENT_BIAS <= BIASED_EXPONENT_MAX
}

impl Decimal for Decimal32 {
    type Coeffecient = u32;

    type Exponent = i8;

    open spec fn new_spec() -> Self {
        Decimal32 { bits: ZERO }
    }

    open spec fn sign_spec(&self) -> bool {
        sign_bit(self.bits)
    }

    open spec fn exponent_spec(&self) -> i8 {
        self.exponent_value() as i8
    }

    open spec fn coeffecient_spec(&self) -> u32 {
        self.coeffecient_value() as u32
    }

    open spec fn with_sign(self, sign: bool) -> Self {
        Decimal32 { bits: with_sign_bit(self.bits, sign) }
    }

    open spec fn with_exponent(self, exp: i8) -> Result<Self, DecimalStorageError> {
        if exp > EXPONENT_MAX {
            Err(DecimalStorageError::ExponentTooLarge)
        } else if exp < EXPONENT_MIN {
            Err(DecimalStorageError::ExponentTooSmall)
        } else {
            Ok(Decimal32 { bits: with_biased_exponent(self.bits, (exp + EXPONENT_BIAS) as u8) })
        }
    }

    open spec fn with_coeffecient(self, coeff: u32) -> Result<Self, DecimalStorageError> {
        if coeff > COEFFECIENT_MAX {
            Err(DecimalStorageError::CoeffecientTooLarge)
        } else {
            Ok(Decimal32 { bits: with_coeffecient_bits(self.bits, coeff) })
        }
    }

    /// A number of up to seven digits becomes the coefficient of a new
    /// decimal. A longer one is rounded to seven digits, to nearest with
    /// ties to even, and the biased exponent is raised from 0 by the number
    /// of digits dropped.
    open spec fn from_u32_spec(num: u32) -> Self {
        Decimal32 {
            bits: with_exponent_cont_bits(
                with_coeffecient_bits(ZERO, rounded_coeffecient(num) as u32),
                rounded_shift(num) as u8,
            ),
        }
    }

    open spec fn holds_exactly(num: u32) -> bool {
        num <= COEFFECIENT_MAX
    }

    proof fn lemma_sign_independent(self, sign: bool) {
        self.lemma_with_sign(sign);
    }

    proof fn lemma_error_kinds(self, exp: i8, coeff: u32) {
    }

    fn new() -> (d: Decimal32)
        ensures
            d.bits == ZERO,
            !d.sign_spec(),
            d.is_regular(),
    {
        proof {
            Self::lemma_new();
        }
        Decimal32 { bits: ZERO }
    }

    fn sign(&self) -> (s: bool)
        ensures
            s == self@.negative,
    {
        let bits: u32 = self.bits;
        proof {
            assert(((bits >> 31) > 0) == sign_bit(bits)) by (bit_vector);
        }
        (bits >> 31) > 0
    }

    fn set_sign(&mut self, sign: bool)
        ensures
            final(self)@ == (DecimalValue { negative: sign, ..old(self)@ }),
            final(self).is_regular() == old(self).is_regular(),
    {
        proof {
            self.lemma_with_sign(sign);
        }
        let sign: u32 = if sign {
            1
        } else {
            0
        };
        self.bits = self.bits & !SIGN_MASK;
        self.bits = self.bits | (sign << 31);
    }

    fn exponent(&self) -> (e: i8)
        ensures
            e == self@.exponent,
    {
        proof {
            self.lemma_model_bounds();
        }
        // Get exponent parts (2-bit msb & 6-bit continuation)
        let exp_msb: u8 = self.exponent_msb();
        let exp_cont: u8 = self.exponent_cont();

        // Encoded exponent as u8
        proof {
            assert((exp_msb << 6) | exp_cont == 64 * exp_msb + exp_cont) by (bit_vector)
                requires
                    exp_msb <= 3,
                    exp_cont <= 63,
            ;
        }
        let encoded_exp: u8 = (exp_msb << 6) | exp_cont;

        // Adjust encoded exponent with bias, in a width that holds the
        // difference, then narrow to eight bits
        let exp: i16 = encoded_exp as i16 - EXPONENT_BIAS as i16;
        if exp > 127 {
            (exp - 256) as i8
        } else {
            exp as i8
        }
    }

    fn set_exponent(&mut self, exp: i8) -> (r: Result<(), DecimalStorageError>)
        ensures
            r is Ok <==> EXPONENT_MIN <= exp <= EXPONENT_MAX,
            exponent_is_storable(exp) ==> final(self)@ == (DecimalValue {
                exponent: exp as int,
                ..old(self)@
            }),
            exponent_is_storable(exp) ==> final(self).is_regular(),
    {
        if exp > EXPONENT_MAX {
            return Err(DecimalStorageError::ExponentTooLarge);
        }
        if exp < EXPONENT_MIN {
            return Err(DecimalStorageError::ExponentTooSmall);
        }
        proof {
            if exponent_is_storable(exp) {
                self.lemma_exponent_round_trip(exp);
            }
        }
        // Add the exponent bias, in a width that holds the sum
        let biased: u8 = (exp as i16 + EXPONENT_BIAS as i16) as u8;

        // Set new exponent msb in combination field
        let exp_msb: u8 = biased >> 6;
        let coeff_msd: u8 = self.coeffecient_msd();
        let combination_field: u8 = encode_combination_field(exp_msb, coeff_msd);
        self.set_combination_field(combination_field);

        // Set new exponent continuation bits
        let exp_cont: u8 = biased & 0x3f;
        self.set_exponent_cont(exp_cont);

        Ok(())
    }

    fn coeffecient(&self) -> (c: u32)
        ensures
            c == self@.coeffecient,
            c <= COEFFECIENT_MAX,
    {
        proof {
            self.lemma_model_bounds();
        }
        let coeff_msd: u8 = self.coeffecient_msd();
        let coeff_cont: u32 = self.coeffecient_cont();

        // Unpack coeffecient digits from DPD
        if coeff_msd > 0 {
            proof {
                lemma_lead_before_continuation(coeff_msd, coeff_cont);
            }
            let coeff: u32 = ((coeff_msd as u32) << 20) | coeff_cont;
            return digits_from_dpd(coeff, 3);
        }
        proof {
            lemma_short_continuation(coeff_cont);
        }
        if coeff_cont == 0 {
            return 0;
        }
        if coeff_cont > DECLET_MASK {
            return digits_from_dpd(coeff_cont, 2);
        }
        digits_from_dpd(coeff_cont, 1)
    }

    fn set_coeffecient(&mut self, coeff: u32) -> (r: Result<(), DecimalStorageError>)
        ensures
            r is Ok <==> coeff <= COEFFECIENT_MAX,
            coeff <= COEFFECIENT_MAX && old(self).is_regular() ==> final(self)@ == (DecimalValue {
                coeffecient: coeff as nat,
                ..old(self)@
            }),
            coeff <= COEFFECIENT_MAX && old(self).is_regular() ==> final(self).is_regular(),
    {
        if coeff > COEFFECIENT_MAX {
            return Err(DecimalStorageError::CoeffecientTooLarge);
        }
        proof {
            if self.is_regular() {
                self.lemma_coeffecient_round_trip(coeff);
            }
        }
        // Split into the leading digit and the six digits below it
        let coeff_msd: u8 = (coeff / 1_000_000) as u8;
        let coeff_cont: u32 = digits_to_dpd(coeff % 1_000_000, 2);

        // Set new coeffecient msd in combination field
        let exp_msb: u8 = self.exponent_msb();
        let combination_field: u8 = encode_combination_field(exp_msb, coeff_msd);
        self.set_combination_field(combination_field);

        // Set new coeffecient continuation bits
        self.set_coeffecient_cont(coeff_cont);

        Ok(())
    }

    fn from_u8(num: u8) -> (d: Decimal32)
        ensures
            d@ == (DecimalValue { negative: false, exponent: -101, coeffecient: num as nat }),
    {
        Self::from_u32(num as u32)
    }

    fn from_u16(num: u16) -> (d: Decimal32)
        ensures
            d@ == (DecimalValue { negative: false, exponent: -101, coeffecient: num as nat }),
    {
        Self::from_u32(num as u32)
    }

    fn from_u32(num: u32) -> (d: Decimal32)
        ensures
            d@ == (DecimalValue {
                negative: false,
                exponent: rounded_shift(num) - EXPONENT_BIAS,
                coeffecient: rounded_coeffecient(num),
            }),
            num <= COEFFECIENT_MAX ==> d@.coeffecient == num && d@.exponent == -101,
    {
        proof {
            Self::lemma_from_u32(num);
        }
        let mut d = Self::new();
        let (coeff, shift): (u32, u8) = round_to_precision(num);
        let stored = d.set_coeffecient(coeff);
        assert(stored is Ok);
        d.set_exponent_cont(shift);
        d
    }

    fn from_u8_checked(num: u8) -> (r: Option<Decimal32>)
        ensures
            r is Some,
    {
        Some(Self::from_u8(num))
    }
}

} // verus!

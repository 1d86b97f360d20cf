//! What holds of a [`Decimal32`] whatever its word is: the bounds of what
//! it reads as, and what each setter keeps.
//!
//! A setter writes the combination field from an exponent prefix and a
//! leading digit. Thirty of the thirty-two fields stand for a prefix from 0
//! to 2 beside a digit from 0 to 9, and for those pairs what is written is
//! read back. The prefix 3, which a biased exponent above
//! [`BIASED_EXPONENT_MAX`] has, is read from the fields 30 and 31 only; with
//! it the field that is written stands for another pair, and the laws say
//! which.
use crate::decimal::Decimal;
use crate::decimal32::{
    combination_of,
    exponent_is_storable,
    lemma_combination_of,
    Decimal32,
    DecimalValue,
    BIASED_EXPONENT_MAX,
    COEFFECIENT_MAX,
    EXPONENT_BIAS,
    EXPONENT_MAX,
    EXPONENT_MIN,
    ZERO,
};
use crate::dpd::{
    declet_hundreds,
    declet_tens,
    declet_units,
    declet_value,
    dpd_pack,
    dpd_value,
    lemma_declet_digits,
    lemma_dpd_round_trip,
    DECLET_MASK,
};
use crate::layout::{
    combination_bits,
    coeffecient_cont_bits,
    exponent_cont_bits,
    lemma_field_bounds,
    lemma_with_combination_bits,
    lemma_with_coeffecient_cont_bits,
    lemma_with_exponent_cont_bits,
    lemma_with_sign_bit,
    sign_bit,
    with_combination_bits,
    COEFFECIENT_MASK,
};
use crate::rounding::{lemma_rounded, rounded_coeffecient, rounded_shift};
use vstd::prelude::*;

verus! {

/// A leading digit set above a coefficient continuation is unpacked as
/// the millions before the continuation's six digits.
pub proof fn lemma_lead_before_continuation(msd: u8, cont: u32)
    requires
        msd <= 9,
        cont <= COEFFECIENT_MASK,
    ensures
        dpd_value(((msd as u32) << 20) | cont, 3) == 1_000_000 * msd + dpd_value(cont, 2),
{
    let packed = ((msd as u32) << 20) | cont;
    assert((packed >> 20) & 0xf == msd as u32 && (packed >> 10) & 0x3ff == (cont >> 10) & 0x3ff
        && packed & 0x3ff == cont & 0x3ff) by (bit_vector)
        requires
            packed == ((msd as u32) << 20) | cont,
            msd <= 9,
            cont <= 0x000f_ffff,
    ;
}

/// A coefficient continuation whose upper declet is clear stands for what
/// its lower declet stands for, and one that is all clear stands for 0.
pub proof fn lemma_short_continuation(cont: u32)
    ensures
        cont <= DECLET_MASK ==> dpd_value(cont, 2) == dpd_value(cont, 1),
        cont == 0 ==> dpd_value(cont, 2) == 0,
{
    assert(declet_value(0) == 0) by {
        assert(declet_hundreds(0) == 0 && declet_tens(0) == 0 && declet_units(0) == 0)
            by (bit_vector);
    }
    assert(cont <= 0x3ff ==> (cont >> 10) & 0x3ff == 0 && cont & 0x3ff == cont) by (bit_vector);
}

impl Decimal32 {
    /// What a word can read as: an exponent prefix up to 3, a leading digit
    /// up to 9 and so a coefficient of at most seven digits, an exponent
    /// that fits in eight bits. A regular word has an exponent from -101
    /// to 90, and the words that are not regular are those with the
    /// combination field 30 or 31.
    pub proof fn lemma_model_bounds(&self)
        ensures
            self.combination_spec() <= 31,
            0 <= self.exponent_msb_spec() <= 3,
            self.exponent_cont_spec() <= 63,
            0 <= self.coeffecient_msd_spec() <= 9,
            self.coeffecient_cont_spec() <= COEFFECIENT_MASK,
            0 <= self.biased_exponent() <= 255,
            -128 <= self@.exponent <= 127,
            self@.coeffecient <= COEFFECIENT_MAX,
            self.exponent_spec() == self@.exponent,
            self.coeffecient_spec() == self@.coeffecient,
            self.sign_spec() == self@.negative,
            self.is_regular() <==> self.combination_spec() <= 29,
            self.is_regular() ==> self@.exponent == self.biased_exponent() - EXPONENT_BIAS,
            self.is_regular() ==> -101 <= self@.exponent <= 90,
    {
        lemma_field_bounds(self.bits);
        lemma_declet_digits(self.coeffecient_cont_spec() & DECLET_MASK);
        lemma_declet_digits((self.coeffecient_cont_spec() >> 10) & DECLET_MASK);
    }

    /// A new decimal is regular and not negative. Its combination field is
    /// 24, which carries the exponent prefix 0 and the digit 8: the word
    /// reads as the coefficient 8000000 with the biased exponent 0.
    pub proof fn lemma_new()
        ensures
            Self::new_spec().combination_spec() == 24,
            Self::new_spec().biased_exponent() == 0,
            Self::new_spec().is_regular(),
            Self::new_spec()@ == (DecimalValue {
                negative: false,
                exponent: -101,
                coeffecient: 8_000_000,
            }),
    {
        assert(!sign_bit(ZERO) && combination_bits(ZERO) == 24 && exponent_cont_bits(ZERO) == 0
            && coeffecient_cont_bits(ZERO) == 0) by (bit_vector);
        lemma_short_continuation(0);
    }

    /// A decimal whose combination field carries the digit 0 and whose
    /// coefficient continuation is all clear has the coefficient 0.
    pub proof fn lemma_zero_coeffecient(&self)
        requires
            self.coeffecient_msd_spec() == 0,
            self.coeffecient_cont_spec() == 0,
        ensures
            self@.coeffecient == 0,
            self.coeffecient_spec() == 0,
    {
        lemma_short_continuation(0);
    }

    /// Setting the sign gives that sign and leaves exponent and coefficient
    /// as they were, whatever the word was before.
    pub proof fn lemma_with_sign(&self, sign: bool)
        ensures
            self.with_sign(sign)@ == (DecimalValue { negative: sign, ..self@ }),
            self.with_sign(sign).sign_spec() == sign,
            self.with_sign(sign).exponent_spec() == self.exponent_spec(),
            self.with_sign(sign).coeffecient_spec() == self.coeffecient_spec(),
            self.with_sign(sign).is_regular() == self.is_regular(),
    {
        lemma_with_sign_bit(self.bits, sign);
    }

    /// Setting a storable exponent and reading it gives it back, and leaves
    /// sign and coefficient as they were, whatever the word was before.
    pub proof fn lemma_exponent_round_trip(&self, exp: i8)
        requires
            exponent_is_storable(exp),
        ensures
            self.with_exponent(exp) is Ok,
            self.with_exponent(exp).unwrap()@ == (DecimalValue { exponent: exp as int, ..self@ }),
            self.with_exponent(exp).unwrap().exponent_spec() == exp,
            self.with_exponent(exp).unwrap().coeffecient_spec() == self.coeffecient_spec(),
            self.with_exponent(exp).unwrap().sign_spec() == self.sign_spec(),
            self.with_exponent(exp).unwrap().coeffecient_msd_spec() == self.coeffecient_msd_spec(),
            self.with_exponent(exp).unwrap().coeffecient_cont_spec()
                == self.coeffecient_cont_spec(),
            self.with_exponent(exp).unwrap().is_regular(),
    {
        self.lemma_model_bounds();
        let biased: u8 = (exp + EXPONENT_BIAS) as u8;
        let msd: u8 = self.coeffecient_msd_spec() as u8;
        let msb: u8 = biased >> 6;
        let cont: u8 = biased & 0x3f;
        assert(biased >> 6 <= 2 && biased & 0x3f <= 63 && 64 * (biased >> 6) + (biased & 0x3f)
            == biased) by (bit_vector)
            requires
                biased <= 191,
        ;
        lemma_combination_of(msb, msd);
        let comb: u8 = combination_of(msb, msd);
        lemma_with_combination_bits(self.bits, comb);
        lemma_with_exponent_cont_bits(with_combination_bits(self.bits, comb), cont);
        self.with_exponent(exp).unwrap().lemma_model_bounds();
    }

    /// Setting a coefficient of up to seven digits in a regular decimal and
    /// reading it gives it back, and leaves sign and exponent as they were.
    pub proof fn lemma_coeffecient_round_trip(&self, coeff: u32)
        requires
            coeff <= COEFFECIENT_MAX,
            self.is_regular(),
        ensures
            self.with_coeffecient(coeff) is Ok,
            self.with_coeffecient(coeff).unwrap()@ == (DecimalValue {
                coeffecient: coeff as nat,
                ..self@
            }),
            self.with_coeffecient(coeff).unwrap().coeffecient_spec() == coeff,
            self.with_coeffecient(coeff).unwrap().exponent_spec() == self.exponent_spec(),
            self.with_coeffecient(coeff).unwrap().sign_spec() == self.sign_spec(),
            self.with_coeffecient(coeff).unwrap().biased_exponent() == self.biased_exponent(),
            self.with_coeffecient(coeff).unwrap().coeffecient_cont_spec() == dpd_pack(
                coeff % 1_000_000,
                2,
            ),
            self.with_coeffecient(coeff).unwrap().is_regular(),
    {
        self.lemma_model_bounds();
        let msb: u8 = self.exponent_msb_spec() as u8;
        let msd: u8 = (coeff / 1_000_000) as u8;
        let cont: u32 = dpd_pack(coeff % 1_000_000, 2);
        lemma_dpd_round_trip(coeff % 1_000_000, 2);
        lemma_combination_of(msb, msd);
        let comb: u8 = combination_of(msb, msd);
        lemma_with_combination_bits(self.bits, comb);
        lemma_with_coeffecient_cont_bits(with_combination_bits(self.bits, comb), cont);
        self.with_coeffecient(coeff).unwrap().lemma_model_bounds();
    }

    /// An exponent that is accepted but not storable has the prefix 3. The
    /// combination field written is then 24 and the leading digit, or 30
    /// or 31 for the digits 8 and 9, and stands for another leading digit:
    /// the coefficient is changed. The exponent is read back as it was set
    /// exactly when the leading digit was 6 or more.
    pub proof fn lemma_exponent_beyond_regular(&self, exp: i8)
        requires
            EXPONENT_MIN <= exp <= EXPONENT_MAX,
            !exponent_is_storable(exp),
        ensures
            self.with_exponent(exp) is Ok,
            self.with_exponent(exp).unwrap().combination_spec() == (if self.coeffecient_msd_spec()
                <= 7 {
                24 + self.coeffecient_msd_spec()
            } else {
                22 + self.coeffecient_msd_spec()
            }),
            self.with_exponent(exp).unwrap().exponent_cont_spec() == exp + EXPONENT_BIAS
                - BIASED_EXPONENT_MAX - 1,
            self.with_exponent(exp).unwrap().coeffecient_msd_spec() != self.coeffecient_msd_spec(),
            self.with_exponent(exp).unwrap()@.coeffecient != self@.coeffecient,
            self.with_exponent(exp).unwrap()@.exponent == exp <==> self.coeffecient_msd_spec()
                >= 6,
            self.with_exponent(exp).unwrap()@.negative == self@.negative,
            self.with_exponent(exp).unwrap().coeffecient_cont_spec()
                == self.coeffecient_cont_spec(),
    {
        self.lemma_model_bounds();
        let biased: u8 = (exp + EXPONENT_BIAS) as u8;
        let msd: u8 = self.coeffecient_msd_spec() as u8;
        let msb: u8 = biased >> 6;
        let cont: u8 = biased & 0x3f;
        assert(biased >> 6 == 3 && biased & 0x3f <= 63 && 192 + (biased & 0x3f) == biased)
            by (bit_vector)
            requires
                biased >= 192,
        ;
        lemma_combination_of(msb, msd);
        let comb: u8 = combination_of(msb, msd);
        lemma_with_combination_bits(self.bits, comb);
        lemma_with_exponent_cont_bits(with_combination_bits(self.bits, comb), cont);
        self.with_exponent(exp).unwrap().lemma_model_bounds();
        lemma_declet_digits(self.coeffecient_cont_spec() & DECLET_MASK);
        lemma_declet_digits((self.coeffecient_cont_spec() >> 10) & DECLET_MASK);
    }

    /// In a decimal that is not regular the exponent prefix is 3, and the
    /// combination field written for a new coefficient stands for another
    /// leading digit: the coefficient is not read back as it was set. The
    /// exponent is kept exactly when the leading digit set is 6 or more.
    pub proof fn lemma_coeffecient_beyond_regular(&self, coeff: u32)
        requires
            coeff <= COEFFECIENT_MAX,
            !self.is_regular(),
        ensures
            self.with_coeffecient(coeff) is Ok,
            self.with_coeffecient(coeff).unwrap().combination_spec() == (if coeff / 1_000_000
                <= 7 {
                24 + coeff / 1_000_000
            } else {
                22 + coeff / 1_000_000
            }),
            self.with_coeffecient(coeff).unwrap()@.coeffecient != coeff,
            self.with_coeffecient(coeff).unwrap()@.exponent == self@.exponent <==> coeff
                / 1_000_000 >= 6,
            self.with_coeffecient(coeff).unwrap()@.negative == self@.negative,
            self.with_coeffecient(coeff).unwrap().exponent_cont_spec()
                == self.exponent_cont_spec(),
    {
        self.lemma_model_bounds();
        let msb: u8 = self.exponent_msb_spec() as u8;
        let msd: u8 = (coeff / 1_000_000) as u8;
        let cont: u32 = dpd_pack(coeff % 1_000_000, 2);
        lemma_dpd_round_trip(coeff % 1_000_000, 2);
        lemma_combination_of(msb, msd);
        let comb: u8 = combination_of(msb, msd);
        lemma_with_combination_bits(self.bits, comb);
        lemma_with_coeffecient_cont_bits(with_combination_bits(self.bits, comb), cont);
        self.with_coeffecient(coeff).unwrap().lemma_model_bounds();
    }

    /// The decimal made from an integer is regular and not negative. Its
    /// coefficient is the integer rounded to seven digits and its biased
    /// exponent the number of digits dropped: an integer of up to seven
    /// digits is its coefficient, with the biased exponent 0.
    pub proof fn lemma_from_u32(num: u32)
        ensures
            Self::from_u32_spec(num)@ == (DecimalValue {
                negative: false,
                exponent: rounded_shift(num) - EXPONENT_BIAS,
                coeffecient: rounded_coeffecient(num),
            }),
            Self::from_u32_spec(num).biased_exponent() == rounded_shift(num),
            Self::from_u32_spec(num).is_regular(),
            num <= COEFFECIENT_MAX ==> Self::from_u32_spec(num)@.coeffecient == num
                && Self::from_u32_spec(num)@.exponent == -101,
            Self::holds_exactly(num) <==> Self::from_u32_spec(num)@.coeffecient == num,
    {
        lemma_rounded(num);
        Self::lemma_new();
        let coeff: u32 = rounded_coeffecient(num) as u32;
        let shift: u8 = rounded_shift(num) as u8;
        let start = Self::new_spec();
        start.lemma_coeffecient_round_trip(coeff);
        let stored = start.with_coeffecient(coeff).unwrap();
        stored.lemma_model_bounds();
        lemma_with_exponent_cont_bits(stored.bits, shift);
        Self::from_u32_spec(num).lemma_model_bounds();
    }
}

} // verus!

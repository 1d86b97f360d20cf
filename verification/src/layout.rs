//! The four bit fields of a decimal32 word.
//!
//! | field                    | bits | position |
//! |--------------------------|------|----------|
//! | sign                     | 1    | 31       |
//! | combination              | 5    | 26 to 30 |
//! | exponent continuation    | 6    | 20 to 25 |
//! | coefficient continuation | 20   | 0 to 19  |
//!
//! A field is read by masking and shifting. It is written by clearing it
//! and or-ing in the new value, shifted to its place; the lemmas here say
//! that such a write leaves the other three fields as they were, provided
//! the value fits in the field.
use vstd::prelude::*;

verus! {

/// The sign bit.
pub const SIGN_MASK: u32 = 0x8000_0000;

/// The five bits of the combination field.
pub const COMBINATION_MASK: u32 = 0x7c00_0000;

/// The six bits of the exponent continuation.
pub const EXPONENT_MASK: u32 = 0x03f0_0000;

/// The twenty bits of the coefficient continuation.
pub const COEFFECIENT_MASK: u32 = 0x000f_ffff;

/// Whether the sign bit of `bits` is set.
pub open spec fn sign_bit(bits: u32) -> bool {
    bits & SIGN_MASK != 0
}

/// The combination field of `bits`.
pub open spec fn combination_bits(bits: u32) -> u32 {
    (bits & COMBINATION_MASK) >> 26
}

/// The exponent continuation of `bits`.
pub open spec fn exponent_cont_bits(bits: u32) -> u32 {
    (bits & EXPONENT_MASK) >> 20
}

/// The coefficient continuation of `bits`.
pub open spec fn coeffecient_cont_bits(bits: u32) -> u32 {
    bits & COEFFECIENT_MASK
}

/// `bits` with the sign bit cleared and then set to `sign`.
pub open spec fn with_sign_bit(bits: u32, sign: bool) -> u32 {
    (bits & !SIGN_MASK) | ((if sign {
        1u32
    } else {
        0u32
    }) << 31)
}

/// `bits` with the combination field cleared and `comb`, shifted to the
/// field's place, or-ed in.
pub open spec fn with_combination_bits(bits: u32, comb: u8) -> u32 {
    (bits & !COMBINATION_MASK) | ((comb as u32) << 26)
}

/// `bits` with the exponent continuation cleared and `cont`, shifted to the
/// field's place, or-ed in.
pub open spec fn with_exponent_cont_bits(bits: u32, cont: u8) -> u32 {
    (bits & !EXPONENT_MASK) | ((cont as u32) << 20)
}

/// `bits` with the coefficient continuation cleared and `cont` or-ed in.
pub open spec fn with_coeffecient_cont_bits(bits: u32, cont: u32) -> u32 {
    (bits & !COEFFECIENT_MASK) | cont
}

/// The four fields of a word are within their widths.
pub proof fn lemma_field_bounds(bits: u32)
    ensures
        combination_bits(bits) <= 31,
        exponent_cont_bits(bits) <= 63,
        coeffecient_cont_bits(bits) <= COEFFECIENT_MASK,
{
    assert(combination_bits(bits) <= 31 && exponent_cont_bits(bits) <= 63
        && coeffecient_cont_bits(bits) <= 0x000f_ffff) by (bit_vector);
}

/// Writing the sign bit changes no other field.
pub proof fn lemma_with_sign_bit(bits: u32, sign: bool)
    ensures
        sign_bit(with_sign_bit(bits, sign)) == sign,
        combination_bits(with_sign_bit(bits, sign)) == combination_bits(bits),
        exponent_cont_bits(with_sign_bit(bits, sign)) == exponent_cont_bits(bits),
        coeffecient_cont_bits(with_sign_bit(bits, sign)) == coeffecient_cont_bits(bits),
{
    let after = with_sign_bit(bits, sign);
    assert(sign_bit(after) == sign && combination_bits(after) == combination_bits(bits)
        && exponent_cont_bits(after) == exponent_cont_bits(bits) && coeffecient_cont_bits(after)
        == coeffecient_cont_bits(bits)) by (bit_vector)
        requires
            after == with_sign_bit(bits, sign),
    ;
}

/// Writing a combination field that fits in five bits changes no other
/// field.
pub proof fn lemma_with_combination_bits(bits: u32, comb: u8)
    requires
        comb <= 31,
    ensures
        sign_bit(with_combination_bits(bits, comb)) == sign_bit(bits),
        combination_bits(with_combination_bits(bits, comb)) == comb,
        exponent_cont_bits(with_combination_bits(bits, comb)) == exponent_cont_bits(bits),
        coeffecient_cont_bits(with_combination_bits(bits, comb)) == coeffecient_cont_bits(bits),
{
    let after = with_combination_bits(bits, comb);
    assert(sign_bit(after) == sign_bit(bits) && combination_bits(after) == comb
        && exponent_cont_bits(after) == exponent_cont_bits(bits) && coeffecient_cont_bits(after)
        == coeffecient_cont_bits(bits)) by (bit_vector)
        requires
            after == with_combination_bits(bits, comb),
            comb <= 31,
    ;
}

/// Writing an exponent continuation that fits in six bits changes no other
/// field.
pub proof fn lemma_with_exponent_cont_bits(bits: u32, cont: u8)
    requires
        cont <= 63,
    ensures
        sign_bit(with_exponent_cont_bits(bits, cont)) == sign_bit(bits),
        combination_bits(with_exponent_cont_bits(bits, cont)) == combination_bits(bits),
        exponent_cont_bits(with_exponent_cont_bits(bits, cont)) == cont,
        coeffecient_cont_bits(with_exponent_cont_bits(bits, cont)) == coeffecient_cont_bits(bits),
{
    let after = with_exponent_cont_bits(bits, cont);
    assert(sign_bit(after) == sign_bit(bits) && combination_bits(after) == combination_bits(bits)
        && exponent_cont_bits(after) == cont && coeffecient_cont_bits(after)
        == coeffecient_cont_bits(bits)) by (bit_vector)
        requires
            after == with_exponent_cont_bits(bits, cont),
            cont <= 63,
    ;
}

/// Writing a coefficient continuation that fits in twenty bits changes no
/// other field.
pub proof fn lemma_with_coeffecient_cont_bits(bits: u32, cont: u32)
    requires
        cont <= COEFFECIENT_MASK,
    ensures
        sign_bit(with_coeffecient_cont_bits(bits, cont)) == sign_bit(bits),
        combination_bits(with_coeffecient_cont_bits(bits, cont)) == combination_bits(bits),
        exponent_cont_bits(with_coeffecient_cont_bits(bits, cont)) == exponent_cont_bits(bits),
        coeffecient_cont_bits(with_coeffecient_cont_bits(bits, cont)) == cont,
{
    let after = with_coeffecient_cont_bits(bits, cont);
    assert(sign_bit(after) == sign_bit(bits) && combination_bits(after) == combination_bits(bits)
        && exponent_cont_bits(after) == exponent_cont_bits(bits) && coeffecient_cont_bits(after)
        == cont) by (bit_vector)
        requires
            after == with_coeffecient_cont_bits(bits, cont),
            cont <= 0x000f_ffff,
    ;
}

} // verus!

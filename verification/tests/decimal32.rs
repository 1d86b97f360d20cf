use decimally_core::decimal::Decimal;
use decimally_core::decimal32::{
    encode_combination_field, Decimal32, COEFFECIENT_MAX, EXPONENT_MAX, EXPONENT_MIN, ZERO,
};
use decimally_core::error::DecimalStorageError;

#[test]
fn test_decimal32_sign() {
    let pos = Decimal32 { bits: 0x0000_0000 };
    assert_eq!(pos.sign(), false);
    assert_eq!(pos.is_sign_positive(), true);
    assert_eq!(pos.is_sign_negative(), false);

    let neg = Decimal32 { bits: 0x8000_0000 };
    assert_eq!(neg.sign(), true);
    assert_eq!(neg.is_sign_positive(), false);
    assert_eq!(neg.is_sign_negative(), true);

    for dec in &mut [pos, neg] {
        for signed in &[false, true, false, true] {
            let signed = *signed;
            dec.set_sign(signed);
            assert_eq!(dec.sign(), signed);
            assert_eq!(dec.is_sign_positive(), !signed);
            assert_eq!(dec.is_sign_negative(), signed);
        }
    }
}

#[test]
fn test_decimal32_exponent() {
    let pos_exp = Decimal32 { bits: 0xA260_03D0 };
    let neg_exp = Decimal32 { bits: 0xA230_03D0 };

    assert_eq!(pos_exp.exponent(), 1);
    assert_eq!(neg_exp.exponent(), -2);

    let mut dec = Decimal32::new();
    assert_eq!(dec.set_exponent(EXPONENT_MIN - 1).is_err(), true);
    assert_eq!(dec.set_exponent(EXPONENT_MAX + 1).is_err(), true);

    for exp in &[EXPONENT_MIN, -5, 0, 5, EXPONENT_MAX] {
        let exp = *exp;
        dec.set_exponent(exp).unwrap();
        assert_eq!(exp, dec.exponent());
    }
}

#[test]
fn test_decimal32_coeffecient() {
    let mut dec = Decimal32 { bits: 0xA260_03D0 };
    assert_eq!(dec.coeffecient(), 750);

    assert_eq!(dec.set_coeffecient(COEFFECIENT_MAX + 1).is_err(), true);

    for coeff in &[0, 5, 999, 99999, COEFFECIENT_MAX] {
        let coeff = *coeff;
        dec.set_coeffecient(coeff).unwrap();
        assert_eq!(coeff, dec.coeffecient());
    }
}

/// Words with every leading digit and every exponent prefix up to 2, of
/// both signs, with clear and with busy continuations.
fn regular_words() -> Vec<u32> {
    let mut words = Vec::new();
    for comb in 0u32..30 {
        for rest in [0x0000_0000u32, 0x0260_03D0, 0x03FF_FFFF, 0x0150_8421] {
            words.push((comb << 26) | rest);
            words.push(0x8000_0000 | (comb << 26) | rest);
        }
    }
    words
}

#[test]
fn exponent_round_trip_keeps_sign_and_coeffecient() {
    for bits in regular_words() {
        let before = Decimal32 { bits };
        for exp in EXPONENT_MIN..=90 {
            let mut dec = Decimal32 { bits };
            assert_eq!(dec.set_exponent(exp), Ok(()));
            assert_eq!(dec.exponent(), exp);
            assert_eq!(dec.coeffecient(), before.coeffecient());
            assert_eq!(dec.sign(), before.sign());
            assert_eq!(dec.bits & 0x800f_ffff, bits & 0x800f_ffff);
        }
    }
}

#[test]
fn exponent_round_trip_from_irregular_words() {
    for bits in [0x7800_0000u32, 0x7C00_0000, 0xFFFF_FFFF, 0x7BF1_2345] {
        let before = Decimal32 { bits };
        for exp in EXPONENT_MIN..=90 {
            let mut dec = Decimal32 { bits };
            assert_eq!(dec.set_exponent(exp), Ok(()));
            assert_eq!(dec.exponent(), exp);
            assert_eq!(dec.coeffecient(), before.coeffecient());
            assert_eq!(dec.sign(), before.sign());
        }
    }
}

#[test]
fn exponent_above_ninety_changes_leading_digit() {
    // 0x2260_0000 carries the leading digit 0.
    let mut dec = Decimal32 { bits: 0x2260_0000 };
    assert_eq!(dec.coeffecient(), 0);
    assert_eq!(dec.set_exponent(96), Ok(()));
    assert_eq!(dec.combination_field(), 24);
    assert_eq!(dec.exponent_cont(), 5);
    assert_eq!(dec.exponent(), -96);
    assert_eq!(dec.coeffecient(), 8_000_000);

    // With a leading digit of 6 or more the exponent is read back.
    for comb in [6u32, 7, 24, 25] {
        for exp in 91..=EXPONENT_MAX {
            let mut dec = Decimal32 { bits: comb << 26 };
            assert_eq!(dec.set_exponent(exp), Ok(()));
            assert_eq!(dec.exponent(), exp);
        }
    }
    // With a smaller one it is not.
    for comb in 0u32..6 {
        for exp in 91..=EXPONENT_MAX {
            let mut dec = Decimal32 { bits: comb << 26 };
            assert_eq!(dec.set_exponent(exp), Ok(()));
            assert_ne!(dec.exponent(), exp);
        }
    }
    let mut dec = Decimal32 { bits: 7 << 26 };
    assert_eq!(dec.coeffecient(), 7_000_000);
    assert_eq!(dec.set_exponent(91), Ok(()));
    assert_eq!(dec.combination_field(), 31);
    assert_eq!(dec.coeffecient(), 1_000_000);
}

#[test]
fn coeffecient_round_trip_keeps_sign_and_exponent() {
    let mut coeffs: Vec<u32> = vec![
        0, 1, 5, 7, 8, 9, 10, 79, 80, 99, 100, 555, 750, 799, 800, 888, 998, 999, 1000, 1001,
        99_999, 100_000, 999_999, 1_000_000, 1_000_001, 5_999_999, 6_000_000, 7_999_999,
        8_000_000, 8_888_888, 9_000_000, COEFFECIENT_MAX,
    ];
    let mut c: u32 = 0;
    while c <= COEFFECIENT_MAX {
        coeffs.push(c);
        c += 9_973;
    }
    for bits in regular_words() {
        let before = Decimal32 { bits };
        for coeff in &coeffs {
            let mut dec = Decimal32 { bits };
            assert_eq!(dec.set_coeffecient(*coeff), Ok(()));
            assert_eq!(dec.coeffecient(), *coeff);
            assert_eq!(dec.exponent(), before.exponent());
            assert_eq!(dec.sign(), before.sign());
            assert_eq!(dec.bits & 0x83f0_0000, bits & 0x83f0_0000);
        }
    }
}

#[test]
fn coeffecient_round_trip_of_every_value() {
    let mut dec = Decimal32 { bits: 0xA260_03D0 };
    for coeff in 0..=COEFFECIENT_MAX {
        assert_eq!(dec.set_coeffecient(coeff), Ok(()));
        assert_eq!(dec.coeffecient(), coeff);
    }
    assert_eq!(dec.exponent(), 1);
    assert_eq!(dec.sign(), true);
}

#[test]
fn coeffecient_in_irregular_word_is_not_read_back() {
    let mut dec = Decimal32 { bits: 0x7800_0000 };
    assert_eq!(dec.combination_field(), 30);
    assert_eq!(dec.exponent_msb(), 3);
    assert_eq!(dec.exponent(), 91);
    assert_eq!(dec.set_coeffecient(0), Ok(()));
    assert_eq!(dec.combination_field(), 24);
    assert_eq!(dec.coeffecient(), 8_000_000);
    assert_eq!(dec.exponent(), -101);

    let mut dec = Decimal32 { bits: 0x7800_0000 };
    assert_eq!(dec.set_coeffecient(6_000_123), Ok(()));
    assert_eq!(dec.combination_field(), 30);
    assert_eq!(dec.coeffecient(), 123);
    assert_eq!(dec.exponent(), 91);
}

#[test]
fn range_rejection() {
    let mut dec = Decimal32 { bits: 0xA260_03D0 };
    assert_eq!(dec.set_exponent(-96), Err(DecimalStorageError::ExponentTooSmall));
    assert_eq!(dec.bits, 0xA260_03D0);
    assert_eq!(dec.set_exponent(97), Err(DecimalStorageError::ExponentTooLarge));
    assert_eq!(dec.bits, 0xA260_03D0);
    assert_eq!(dec.set_exponent(i8::MIN), Err(DecimalStorageError::ExponentTooSmall));
    assert_eq!(dec.set_exponent(i8::MAX), Err(DecimalStorageError::ExponentTooLarge));
    assert_eq!(
        dec.set_coeffecient(10_000_000),
        Err(DecimalStorageError::CoeffecientTooLarge)
    );
    assert_eq!(dec.bits, 0xA260_03D0);
    assert_eq!(dec.set_coeffecient(u32::MAX), Err(DecimalStorageError::CoeffecientTooLarge));
    assert_eq!(dec.bits, 0xA260_03D0);
    assert_eq!(dec.set_exponent(-95), Ok(()));
    assert_eq!(dec.set_exponent(96), Ok(()));
    assert_eq!(dec.set_coeffecient(9_999_999), Ok(()));
}

#[test]
fn sign_independence() {
    let mut words = regular_words();
    words.extend([0x7800_0000u32, 0x7C00_0000, 0xFFFF_FFFF, 0x7FFF_FFFF]);
    for bits in words {
        let before = Decimal32 { bits };
        for sign in [false, true, true, false] {
            let mut dec = Decimal32 { bits };
            dec.set_sign(sign);
            assert_eq!(dec.sign(), sign);
            assert_eq!(dec.exponent(), before.exponent());
            assert_eq!(dec.coeffecient(), before.coeffecient());
            assert_eq!(dec.bits & 0x7fff_ffff, bits & 0x7fff_ffff);
        }
        let mut dec = Decimal32 { bits };
        dec.set_sign_negative();
        assert_eq!(dec.bits, bits | 0x8000_0000);
        assert_eq!(dec.is_sign_negative(), true);
        dec.set_sign_positive();
        assert_eq!(dec.bits, bits & 0x7fff_ffff);
        assert_eq!(dec.is_sign_positive(), true);
    }
}

#[test]
fn decode_fixed_points() {
    let a = Decimal32 { bits: 0xA260_03D0 };
    assert_eq!(a.exponent(), 1);
    assert_eq!(a.coeffecient(), 750);
    // The top bit of the word is set: the decimal is negative.
    assert_eq!(a.sign(), true);
    assert_eq!(a.combination_field(), 8);
    assert_eq!(a.exponent_msb(), 1);
    assert_eq!(a.exponent_cont(), 38);
    assert_eq!(a.coeffecient_msd(), 0);
    assert_eq!(a.coeffecient_cont(), 0x3D0);

    let b = Decimal32 { bits: 0xA230_03D0 };
    assert_eq!(b.exponent(), -2);
    assert_eq!(b.coeffecient(), 750);
    assert_eq!(b.sign(), true);

    let c = Decimal32 { bits: 0x2260_03D0 };
    assert_eq!(c.exponent(), 1);
    assert_eq!(c.coeffecient(), 750);
    assert_eq!(c.sign(), false);
}

#[test]
fn decode_zero_continuation() {
    for comb in [0u32, 8, 16, 30] {
        for cont in 0u32..64 {
            for sign in [0u32, 0x8000_0000] {
                let dec = Decimal32 { bits: sign | (comb << 26) | (cont << 20) };
                assert_eq!(dec.coeffecient_msd(), 0);
                assert_eq!(dec.coeffecient_cont(), 0);
                assert_eq!(dec.coeffecient(), 0);
            }
        }
    }
    assert_eq!(Decimal32 { bits: 0x2260_0000 }.coeffecient(), 0);
}

#[test]
fn decode_coeffecient_of_each_length() {
    // One declet.
    assert_eq!(Decimal32 { bits: 0x2260_03D0 }.coeffecient(), 750);
    assert_eq!(Decimal32 { bits: 0x2260_00FF }.coeffecient(), 999);
    assert_eq!(Decimal32 { bits: 0x2260_03FF }.coeffecient(), 999);
    // Two declets: 123 is 0x0A3, 456 is 0x256.
    assert_eq!(Decimal32 { bits: 0x2260_0000 | (0x0A3 << 10) | 0x256 }.coeffecient(), 123_456);
    // The upper declet all set is 999; the lower is clear.
    assert_eq!(Decimal32 { bits: 0x2260_0000 | 0x000F_FC00 }.coeffecient(), 999_000);
    assert_eq!(Decimal32 { bits: 0x2260_0000 | (0x001 << 10) }.coeffecient(), 1_000);
    // A leading digit before two declets.
    assert_eq!(
        Decimal32 { bits: (0x0B << 26) | (0x0A3 << 10) | 0x256 }.coeffecient(),
        3_123_456
    );
    assert_eq!(Decimal32 { bits: (25 << 26) | (0x0FF << 10) | 0x0FF }.coeffecient(), 9_999_999);
    assert_eq!(Decimal32 { bits: 0xFFFF_FFFF }.coeffecient(), 1_999_999);
}

#[test]
fn exponent_of_every_biased_value() {
    for msb in 0u32..3 {
        for cont in 0u32..64 {
            let dec = Decimal32 { bits: (msb << 29) | (cont << 20) };
            assert_eq!(dec.exponent_msb(), msb as u8);
            assert_eq!(dec.exponent_cont(), cont as u8);
            assert_eq!(dec.exponent() as i32, (64 * msb + cont) as i32 - 101);
        }
    }
    // Prefix 3 is carried by the fields 30 and 31 only. Above the biased
    // exponent 228 the difference does not fit in eight bits and wraps.
    assert_eq!(Decimal32 { bits: 0x7800_0000 }.exponent(), 91);
    assert_eq!(Decimal32 { bits: 0x7800_0000 | (36 << 20) }.exponent(), 127);
    assert_eq!(Decimal32 { bits: 0x7800_0000 | (37 << 20) }.exponent(), -128);
    assert_eq!(Decimal32 { bits: 0x7FF0_0000 }.exponent(), -102);
}

#[test]
fn combination_lookups() {
    let exp_msb: [u8; 32] = [
        0, 0, 0, 0, 0, 0, 0, 0, 1, 1, 1, 1, 1, 1, 1, 1, 2, 2, 2, 2, 2, 2, 2, 2, 0, 0, 1, 1, 2, 2,
        3, 3,
    ];
    let msd: [u8; 32] = [
        0, 1, 2, 3, 4, 5, 6, 7, 0, 1, 2, 3, 4, 5, 6, 7, 0, 1, 2, 3, 4, 5, 6, 7, 8, 9, 8, 9, 8, 9,
        0, 1,
    ];
    for comb in 0u32..32 {
        let dec = Decimal32 { bits: (comb << 26) | 0x8123_4567 & !0x7C00_0000 };
        assert_eq!(dec.combination_field(), comb as u8);
        assert_eq!(dec.exponent_msb(), exp_msb[comb as usize]);
        assert_eq!(dec.coeffecient_msd(), msd[comb as usize]);
    }
}

#[test]
fn combination_field_encoding() {
    assert_eq!(encode_combination_field(0, 0), 0);
    assert_eq!(encode_combination_field(1, 0), 8);
    assert_eq!(encode_combination_field(2, 7), 23);
    assert_eq!(encode_combination_field(0, 8), 24);
    assert_eq!(encode_combination_field(0, 9), 25);
    assert_eq!(encode_combination_field(1, 8), 26);
    assert_eq!(encode_combination_field(2, 9), 29);
    assert_eq!(encode_combination_field(3, 0), 24);
    assert_eq!(encode_combination_field(3, 5), 29);
    assert_eq!(encode_combination_field(3, 6), 30);
    assert_eq!(encode_combination_field(3, 8), 30);
    assert_eq!(encode_combination_field(3, 9), 31);
    for exp_msb in 0u8..3 {
        for digit in 0u8..10 {
            let comb = encode_combination_field(exp_msb, digit);
            let dec = Decimal32 { bits: (comb as u32) << 26 };
            assert_eq!(dec.exponent_msb(), exp_msb);
            assert_eq!(dec.coeffecient_msd(), digit);
        }
    }
}

#[test]
fn field_setters_keep_the_other_fields() {
    for bits in [0u32, 0xFFFF_FFFF, 0xA260_03D0, 0x5555_5555, 0xAAAA_AAAA] {
        for comb in 0u8..32 {
            let mut dec = Decimal32 { bits };
            dec.set_combination_field(comb);
            assert_eq!(dec.bits, (bits & !0x7C00_0000) | ((comb as u32) << 26));
            assert_eq!(dec.combination_field(), comb);
        }
        for cont in 0u8..64 {
            let mut dec = Decimal32 { bits };
            dec.set_exponent_cont(cont);
            assert_eq!(dec.bits, (bits & !0x03F0_0000) | ((cont as u32) << 20));
            assert_eq!(dec.exponent_cont(), cont);
        }
        for cont in [0u32, 1, 0x3D0, 0x000F_FC00, 0x000F_FFFF, 0x0005_5555] {
            let mut dec = Decimal32 { bits };
            dec.set_coeffecient_cont(cont);
            assert_eq!(dec.bits, (bits & !0x000F_FFFF) | cont);
            assert_eq!(dec.coeffecient_cont(), cont);
        }
    }
}

#[test]
fn field_setters_with_wide_arguments() {
    let mut dec = Decimal32 { bits: 0 };
    dec.set_combination_field(0x20);
    assert_eq!(dec.bits, 0x8000_0000);
    let mut dec = Decimal32 { bits: 0 };
    dec.set_combination_field(0xFF);
    assert_eq!(dec.bits, 0xFC00_0000);
    let mut dec = Decimal32 { bits: 0 };
    dec.set_exponent_cont(0x60);
    assert_eq!(dec.bits, 0x0600_0000);
    let mut dec = Decimal32 { bits: 0 };
    dec.set_coeffecient_cont(0xFFFF_FFFF);
    assert_eq!(dec.bits, 0xFFFF_FFFF);
}

#[test]
fn construction() {
    let dec = Decimal32::new();
    assert_eq!(dec.sign(), false);
    assert_eq!(dec.is_sign_positive(), true);
    assert_eq!(dec.bits, 0x6000_0000);
    assert_eq!(dec.bits, ZERO);
    // The word reads through the combination field 24.
    assert_eq!(dec.combination_field(), 24);
    assert_eq!(dec.exponent(), -101);
    assert_eq!(dec.coeffecient(), 8_000_000);
}

#[test]
fn narrow_conversion() {
    let dec = Decimal32::from_u8(200);
    assert_eq!(dec.coeffecient(), 200);
    assert_eq!(dec.is_sign_positive(), true);
    assert_eq!(dec.sign(), false);
    assert_eq!(dec.bits, 0x0000_0100);
    assert_eq!(dec.exponent(), -101);

    for num in 0..=u8::MAX {
        let dec = Decimal32::from_u8(num);
        assert_eq!(dec.coeffecient(), num as u32);
        assert_eq!(dec.sign(), false);
        let checked = Decimal32::from_u8_checked(num);
        assert_eq!(checked.is_some(), true);
        assert_eq!(checked.unwrap().bits, dec.bits);
    }
    for num in 0..=u16::MAX {
        let dec = Decimal32::from_u16(num);
        assert_eq!(dec.coeffecient(), num as u32);
        assert_eq!(dec.sign(), false);
        assert_eq!(dec.bits, Decimal32::from_u32(num as u32).bits);
    }
}

#[test]
fn conversion_from_u32() {
    for num in [0u32, 1, 999, 65_536, 1_000_000, 9_999_999] {
        let dec = Decimal32::from_u32(num);
        assert_eq!(dec.coeffecient(), num);
        assert_eq!(dec.exponent(), -101);
        assert_eq!(dec.sign(), false);
    }
    // Beyond seven digits: rounded to nearest, ties to even, and the
    // exponent raised by the digits dropped.
    let cases: [(u32, u32, i8); 12] = [
        (10_000_000, 1_000_000, -100),
        (10_000_004, 1_000_000, -100),
        (10_000_005, 1_000_000, -100),
        (10_000_006, 1_000_001, -100),
        (10_000_015, 1_000_002, -100),
        (12_345_675, 1_234_568, -100),
        (12_345_665, 1_234_566, -100),
        (99_999_994, 9_999_999, -100),
        (99_999_995, 1_000_000, -99),
        (999_999_950, 1_000_000, -98),
        (999_999_949, 9_999_999, -99),
        (4_294_967_295, 4_294_967, -98),
    ];
    for (num, coeff, exp) in cases {
        let dec = Decimal32::from_u32(num);
        assert_eq!(dec.coeffecient(), coeff);
        assert_eq!(dec.exponent(), exp);
        assert_eq!(dec.sign(), false);
    }
    assert_eq!(Decimal32::from_u32(4_294_965_500).coeffecient(), 4_294_966);
    assert_eq!(Decimal32::from_u32(4_294_966_500).coeffecient(), 4_294_966);
}

/// Calls the checked constructor through the trait alone.
fn checked_from_u8<D: Decimal>(num: u8) -> Option<D> {
    D::from_u8_checked(num)
}

#[test]
fn checked_conversion_gives_every_u8() {
    for num in 0..=u8::MAX {
        let checked: Option<Decimal32> = checked_from_u8(num);
        assert_eq!(checked.is_some(), true);
        let dec = checked.unwrap();
        assert_eq!(dec.coeffecient(), num as u32);
        assert_eq!(dec.sign(), false);
        assert_eq!(dec.bits, Decimal32::from_u32(num as u32).bits);
    }
}

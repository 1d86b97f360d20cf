//! Densely packed decimal: three decimal digits held in ten bits.
//!
//! A ten-bit group is called a declet. Its bits, from the most significant
//! down, are written `p q r s t u v w x y`. Bit `v`, then `w x`, then `s t`
//! select one of eight rows of the decoding table; the row says, for each of
//! the three digits, whether it is small (0 to 7, three bits taken from the
//! declet) or large (8 or 9, one bit taken from the declet).
//!
//! | row | `v w x s t` | hundreds | tens    | units   |
//! |-----|-------------|----------|---------|---------|
//! | 0   | `0 - - - -` | `0pqr`   | `0stu`  | `0wxy`  |
//! | 1   | `1 0 0 - -` | `0pqr`   | `0stu`  | `100y`  |
//! | 2   | `1 0 1 - -` | `0pqr`   | `100u`  | `0sty`  |
//! | 3   | `1 1 0 - -` | `100r`   | `0stu`  | `0pqy`  |
//! | 4   | `1 1 1 0 0` | `100r`   | `100u`  | `0pqy`  |
//! | 5   | `1 1 1 0 1` | `100r`   | `0pqu`  | `100y`  |
//! | 6   | `1 1 1 1 0` | `0pqr`   | `100u`  | `100y`  |
//! | 7   | `1 1 1 1 1` | `100r`   | `100u`  | `100y`  |
//!
//! Every declet decodes to a value from 0 to 999. In row 7 the bits `p q`
//! are not read, so four declets decode to each of the eight values made of
//! large digits only; the canonical one has `p q` clear.
use vstd::prelude::*;

verus! {

/// The ten bits of one declet.
pub const DECLET_MASK: u32 = 0x3ff;

/// The row of the decoding table that `d` falls in, from 0 to 7.
pub open spec fn declet_row(d: u32) -> int {
    if d & 0x8 == 0 {
        0
    } else if (d >> 1) & 3 != 3 {
        1 + ((d >> 1) & 3)
    } else {
        4 + ((d >> 5) & 3)
    }
}

/// The hundreds digit that `d` decodes to.
pub open spec fn declet_hundreds(d: u32) -> u32 {
    let row = declet_row(d);
    if row == 3 || row == 4 || row == 5 || row == 7 {
        8 | ((d >> 7) & 1)
    } else {
        (d >> 7) & 7
    }
}

/// The tens digit that `d` decodes to.
pub open spec fn declet_tens(d: u32) -> u32 {
    let row = declet_row(d);
    if row == 2 || row == 4 || row == 6 || row == 7 {
        8 | ((d >> 4) & 1)
    } else if row == 5 {
        ((d >> 7) & 6) | ((d >> 4) & 1)
    } else {
        (d >> 4) & 7
    }
}

/// The units digit that `d` decodes to.
pub open spec fn declet_units(d: u32) -> u32 {
    let row = declet_row(d);
    if row == 1 || row == 5 || row == 6 || row == 7 {
        8 | (d & 1)
    } else if row == 0 {
        d & 7
    } else if row == 2 {
        ((d >> 4) & 6) | (d & 1)
    } else {
        ((d >> 7) & 6) | (d & 1)
    }
}

/// The number from 0 to 999 that the low ten bits of `d` stand for.
pub open spec fn declet_value(d: u32) -> nat {
    (100 * declet_hundreds(d) + 10 * declet_tens(d) + declet_units(d)) as nat
}

/// The canonical declet of the digits `h`, `t`, `u`, each from 0 to 9.
pub open spec fn declet_of_digits(h: u32, t: u32, u: u32) -> u32 {
    if h < 8 && t < 8 && u < 8 {
        (h << 7) | (t << 4) | u
    } else if h < 8 && t < 8 {
        (h << 7) | (t << 4) | 0x8 | (u & 1)
    } else if h < 8 && u < 8 {
        (h << 7) | ((u & 6) << 4) | ((t & 1) << 4) | 0xa | (u & 1)
    } else if t < 8 && u < 8 {
        ((u & 6) << 7) | ((h & 1) << 7) | (t << 4) | 0xc | (u & 1)
    } else if u < 8 {
        ((u & 6) << 7) | ((h & 1) << 7) | ((t & 1) << 4) | 0xe | (u & 1)
    } else if t < 8 {
        ((t & 6) << 7) | ((h & 1) << 7) | 0x20 | ((t & 1) << 4) | 0xe | (u & 1)
    } else if h < 8 {
        (h << 7) | 0x40 | ((t & 1) << 4) | 0xe | (u & 1)
    } else {
        ((h & 1) << 7) | 0x60 | ((t & 1) << 4) | 0xe | (u & 1)
    }
}

/// The canonical declet of a number from 0 to 999.
pub open spec fn declet_of(value: u32) -> u32 {
    declet_of_digits(value / 100, (value / 10) % 10, value % 10)
}

/// Whether `d` is a declet that encoding produces: it fits in ten bits and,
/// where all three digits are large, the two bits that are not read are clear.
pub open spec fn declet_is_canonical(d: u32) -> bool {
    d <= DECLET_MASK && (declet_row(d) == 7 ==> d & 0x300 == 0)
}

/// The number that the `groups` low-order groups of `packed` stand for.
///
/// The first two groups are declets, in bits 0 to 9 and 10 to 19. The third
/// is a single leading digit, held as a plain binary number in bits 20 to 23.
pub open spec fn dpd_value(packed: u32, groups: u8) -> nat {
    let low = declet_value(packed & DECLET_MASK);
    let high = declet_value((packed >> 10) & DECLET_MASK);
    let lead = ((packed >> 20) & 0xf) as nat;
    if groups == 1 {
        low
    } else if groups == 2 {
        1000 * high + low
    } else {
        1_000_000 * lead + 1000 * high + low
    }
}

/// One more than the largest number that `groups` groups can hold.
pub open spec fn dpd_limit(groups: u8) -> nat {
    if groups == 1 {
        1000
    } else if groups == 2 {
        1_000_000
    } else {
        10_000_000
    }
}

/// The canonical packing of `value` into `groups` groups, laid out as
/// [`dpd_value`] reads them.
pub open spec fn dpd_pack(value: u32, groups: u8) -> u32 {
    let low = declet_of(value % 1000);
    let high = declet_of((value / 1000) % 1000);
    let lead = value / 1_000_000;
    if groups == 1 {
        low
    } else if groups == 2 {
        (high << 10) | low
    } else {
        (lead << 20) | (high << 10) | low
    }
}

/// Each digit of a declet is a decimal digit, whatever the ten bits are, and
/// bits above the tenth are not read.
pub proof fn lemma_declet_digits(d: u32)
    ensures
        declet_hundreds(d) <= 9,
        declet_tens(d) <= 9,
        declet_units(d) <= 9,
        declet_value(d) <= 999,
        declet_value(d & DECLET_MASK) == declet_value(d),
{
    assert(declet_hundreds(d) <= 9 && declet_tens(d) <= 9 && declet_units(d) <= 9)
        by (bit_vector);
    assert(declet_hundreds(d & 0x3ff) == declet_hundreds(d) && declet_tens(d & 0x3ff)
        == declet_tens(d) && declet_units(d & 0x3ff) == declet_units(d)) by (bit_vector);
}

/// Encoding three digits and decoding the declet gives the digits back, and
/// the declet is canonical.
pub proof fn lemma_declet_of_digits(h: u32, t: u32, u: u32)
    requires
        h <= 9,
        t <= 9,
        u <= 9,
    ensures
        declet_hundreds(declet_of_digits(h, t, u)) == h,
        declet_tens(declet_of_digits(h, t, u)) == t,
        declet_units(declet_of_digits(h, t, u)) == u,
        declet_value(declet_of_digits(h, t, u)) == 100 * h + 10 * t + u,
        declet_is_canonical(declet_of_digits(h, t, u)),
{
    assert(declet_hundreds(declet_of_digits(h, t, u)) == h && declet_tens(
        declet_of_digits(h, t, u),
    ) == t && declet_units(declet_of_digits(h, t, u)) == u) by (bit_vector)
        requires
            h <= 9,
            t <= 9,
            u <= 9,
    ;
    assert(declet_is_canonical(declet_of_digits(h, t, u))) by (bit_vector)
        requires
            h <= 9,
            t <= 9,
            u <= 9,
    ;
}

/// Decoding is a left inverse of encoding: every number from 0 to 999 comes
/// back from its declet.
pub proof fn lemma_declet_round_trip(value: u32)
    requires
        value <= 999,
    ensures
        declet_value(declet_of(value)) == value,
        declet_is_canonical(declet_of(value)),
        declet_of(value) <= DECLET_MASK,
{
    lemma_declet_of_digits(value / 100, (value / 10) % 10, value % 10);
}

/// Three decimal digits are the digits of the number they spell.
pub proof fn lemma_digits_of_number(h: u32, t: u32, u: u32)
    requires
        h <= 9,
        t <= 9,
        u <= 9,
    ensures
        (100 * h + 10 * t + u) / 100 == h,
        ((100 * h + 10 * t + u) / 10) % 10 == t,
        (100 * h + 10 * t + u) % 10 == u,
{
}

/// Encoding what a declet decodes to gives the declet back exactly when the
/// declet is canonical: of the declets with one value, encoding picks the
/// canonical one.
pub proof fn lemma_declet_canonical(d: u32)
    requires
        d <= DECLET_MASK,
    ensures
        declet_of(declet_value(d) as u32) == d <==> declet_is_canonical(d),
{
    let h = declet_hundreds(d);
    let t = declet_tens(d);
    let u = declet_units(d);
    assert(h <= 9 && t <= 9 && u <= 9) by {
        lemma_declet_digits(d);
    }
    assert((declet_of_digits(h, t, u) == d) == declet_is_canonical(d)) by {
        assert((declet_of_digits(declet_hundreds(d), declet_tens(d), declet_units(d)) == d)
            == declet_is_canonical(d)) by (bit_vector)
            requires
                d <= 0x3ff,
        ;
    }
    let v = (100 * h + 10 * t + u) as u32;
    assert(declet_value(d) == 100 * h + 10 * t + u);
    assert(declet_of(v) == declet_of_digits(h, t, u)) by {
        lemma_digits_of_number(h, t, u);
    }
}

/// Three fields that were put side by side are read back unchanged.
pub proof fn lemma_packed_fields(lead: u32, high: u32, low: u32)
    requires
        lead <= 0xf,
        high <= DECLET_MASK,
        low <= DECLET_MASK,
    ensures
        ((lead << 20) | (high << 10) | low) & DECLET_MASK == low,
        (((lead << 20) | (high << 10) | low) >> 10) & DECLET_MASK == high,
        (((lead << 20) | (high << 10) | low) >> 20) & 0xf == lead,
        ((high << 10) | low) & DECLET_MASK == low,
        (((high << 10) | low) >> 10) & DECLET_MASK == high,
        (high << 10) | low <= 0xf_ffff,
        (lead << 20) | (high << 10) | low <= 0xff_ffff,
{
    assert(((lead << 20) | (high << 10) | low) & 0x3ff == low && (((lead << 20) | (high << 10)
        | low) >> 10) & 0x3ff == high && (((lead << 20) | (high << 10) | low) >> 20) & 0xf
        == lead && ((high << 10) | low) & 0x3ff == low && (((high << 10) | low) >> 10) & 0x3ff
        == high && (high << 10) | low <= 0xf_ffff && (lead << 20) | (high << 10) | low
        <= 0xff_ffff) by (bit_vector)
        requires
            lead <= 0xf,
            high <= 0x3ff,
            low <= 0x3ff,
    ;
}

/// What `groups` groups stand for is below the limit for that many groups,
/// provided the leading digit, where it is read, is a decimal digit.
pub proof fn lemma_dpd_value_bound(packed: u32, groups: u8)
    requires
        1 <= groups <= 3,
        groups == 3 ==> (packed >> 20) & 0xf <= 9,
    ensures
        dpd_value(packed, groups) < dpd_limit(groups),
{
    lemma_declet_digits(packed & DECLET_MASK);
    lemma_declet_digits((packed >> 10) & DECLET_MASK);
}

/// Unpacking is a left inverse of packing: every number below the limit for
/// `groups` groups comes back from its packing. The packing fills no bit
/// above its groups, and each declet in it is canonical.
pub proof fn lemma_dpd_round_trip(value: u32, groups: u8)
    requires
        1 <= groups <= 3,
        value < dpd_limit(groups),
    ensures
        dpd_value(dpd_pack(value, groups), groups) == value,
        groups == 1 ==> dpd_pack(value, groups) <= 0x3ff,
        groups == 2 ==> dpd_pack(value, groups) <= 0xf_ffff,
        groups == 3 ==> dpd_pack(value, groups) <= 0xff_ffff,
        declet_is_canonical(dpd_pack(value, groups) & DECLET_MASK),
        declet_is_canonical((dpd_pack(value, groups) >> 10) & DECLET_MASK),
{
    assert(declet_is_canonical(0)) by (bit_vector);
    let low = declet_of(value % 1000);
    let high = declet_of((value / 1000) % 1000);
    let lead = value / 1_000_000;
    lemma_declet_round_trip(value % 1000);
    lemma_declet_round_trip((value / 1000) % 1000);
    lemma_packed_fields(lead, high, low);
    assert(low & 0x3ff == low && (low >> 10) & 0x3ff == 0) by (bit_vector)
        requires
            low <= 0x3ff,
    ;
}

/// Decodes the declet in the low ten bits of `declet` to a number from 0
/// to 999. Higher bits are not read.
pub fn digits_from_declet(declet: u32) -> (value: u32)
    ensures
        value == declet_value(declet),
        value <= 999,
{
    proof {
        lemma_declet_digits(declet);
    }
    let high3: u32 = (declet >> 7) & 7;
    let mid3: u32 = (declet >> 4) & 7;
    let low3: u32 = declet & 7;
    let high1: u32 = 8 | ((declet >> 7) & 1);
    let mid1: u32 = 8 | ((declet >> 4) & 1);
    let low1: u32 = 8 | (declet & 1);
    let row: u32 = if declet & 0x8 == 0 {
        0
    } else if (declet >> 1) & 3 != 3 {
        proof {
            assert((declet >> 1) & 3 <= 3) by (bit_vector);
        }
        1 + ((declet >> 1) & 3)
    } else {
        proof {
            assert((declet >> 5) & 3 <= 3) by (bit_vector);
        }
        4 + ((declet >> 5) & 3)
    };
    let hundreds: u32 = if row == 3 || row == 4 || row == 5 || row == 7 {
        high1
    } else {
        high3
    };
    let tens: u32 = if row == 2 || row == 4 || row == 6 || row == 7 {
        mid1
    } else if row == 5 {
        ((declet >> 7) & 6) | ((declet >> 4) & 1)
    } else {
        mid3
    };
    let units: u32 = if row == 1 || row == 5 || row == 6 || row == 7 {
        low1
    } else if row == 0 {
        low3
    } else if row == 2 {
        ((declet >> 4) & 6) | (declet & 1)
    } else {
        ((declet >> 7) & 6) | (declet & 1)
    };
    100 * hundreds + 10 * tens + units
}

/// Encodes a number from 0 to 999 as its canonical declet.
pub fn digits_to_declet(value: u32) -> (declet: u32)
    requires
        value <= 999,
    ensures
        declet == declet_of(value),
        declet <= DECLET_MASK,
        declet_is_canonical(declet),
        declet_value(declet) == value,
{
    proof {
        lemma_declet_round_trip(value);
    }
    let h: u32 = value / 100;
    let t: u32 = (value / 10) % 10;
    let u: u32 = value % 10;
    if h < 8 && t < 8 && u < 8 {
        (h << 7) | (t << 4) | u
    } else if h < 8 && t < 8 {
        (h << 7) | (t << 4) | 0x8 | (u & 1)
    } else if h < 8 && u < 8 {
        (h << 7) | ((u & 6) << 4) | ((t & 1) << 4) | 0xa | (u & 1)
    } else if t < 8 && u < 8 {
        ((u & 6) << 7) | ((h & 1) << 7) | (t << 4) | 0xc | (u & 1)
    } else if u < 8 {
        ((u & 6) << 7) | ((h & 1) << 7) | ((t & 1) << 4) | 0xe | (u & 1)
    } else if t < 8 {
        ((t & 6) << 7) | ((h & 1) << 7) | 0x20 | ((t & 1) << 4) | 0xe | (u & 1)
    } else if h < 8 {
        (h << 7) | 0x40 | ((t & 1) << 4) | 0xe | (u & 1)
    } else {
        ((h & 1) << 7) | 0x60 | ((t & 1) << 4) | 0xe | (u & 1)
    }
}

/// Unpacks the `groups` low-order groups of `packed` into one number.
///
/// With one group the declet in bits 0 to 9 is decoded; with two, the declet
/// in bits 10 to 19 gives the thousands; with three, the digit in bits 20
/// to 23 gives the millions. Bits above the groups asked for are not read,
/// and every bit pattern has a value. The leading digit is taken as it
/// stands: one above 9 gives a number of more than seven digits.
pub fn digits_from_dpd(packed: u32, groups: u8) -> (value: u32)
    requires
        1 <= groups <= 3,
    ensures
        value == dpd_value(packed, groups),
        groups == 1 ==> value <= 999,
        groups == 2 ==> value <= 999_999,
        groups == 3 && (packed >> 20) & 0xf <= 9 ==> value <= 9_999_999,
{
    let low: u32 = digits_from_declet(packed & DECLET_MASK);
    if groups == 1 {
        return low;
    }
    let high: u32 = digits_from_declet((packed >> 10) & DECLET_MASK);
    if groups == 2 {
        return 1000 * high + low;
    }
    let lead: u32 = (packed >> 20) & 0xf;
    proof {
        assert((packed >> 20) & 0xf <= 0xf) by (bit_vector);
    }
    1_000_000 * lead + 1000 * high + low
}

/// Packs `value` into `groups` groups, each declet canonical, so that
/// [`digits_from_dpd`] with the same `groups` gives `value` back.
pub fn digits_to_dpd(value: u32, groups: u8) -> (packed: u32)
    requires
        1 <= groups <= 3,
        value < dpd_limit(groups),
    ensures
        packed == dpd_pack(value, groups),
        dpd_value(packed, groups) == value,
        groups == 1 ==> packed <= 0x3ff,
        groups == 2 ==> packed <= 0xf_ffff,
        groups == 3 ==> packed <= 0xff_ffff,
{
    proof {
        lemma_dpd_round_trip(value, groups);
    }
    let low: u32 = digits_to_declet(value % 1000);
    if groups == 1 {
        return low;
    }
    let high: u32 = digits_to_declet((value / 1000) % 1000);
    if groups == 2 {
        return (high << 10) | low;
    }
    let lead: u32 = value / 1_000_000;
    (lead << 20) | (high << 10) | low
}

} // verus!

//! Gillham gray-code decoding of barometric altitude.
use vstd::prelude::*;
use crate::altitude::{ma_code, ma_code_value};

verus! {

/// Reads one bit out of a packed altitude code.
pub fn extract_bit(value: &u16, bit: u16) -> (r: u16)
    requires
        bit < 16,
    ensures
        r == (*value >> bit) & 1,
        r <= 1,
{
    let r = (*value >> bit) & 1;
    proof {
        let v = *value;
        assert((v >> bit) & 1 <= 1) by (bit_vector);
    }
    r
}

/// The reordered 11-bit Gillham word drawn from a packed altitude code: the
/// 500-ft gray bits D2 D4 A1 A2 A4 B1 B2 B4 on top of the 100-ft bits.
pub open spec fn gillham_word(code: u16) -> u16 {
    (((code >> 4u16) & 1) << 10u16) | (((code >> 2u16) & 1) << 9u16) | (((code >> 12u16) & 1)
        << 8u16) | (((code >> 10u16) & 1) << 7u16) | (((code >> 8u16) & 1) << 6u16) | (((code
        >> 7u16) & 1) << 5u16) | (((code >> 5u16) & 1) << 4u16) | (((code >> 3u16) & 1)
        << 3u16) | (((code >> 13u16) & 1) << 2u16) | (((code >> 11u16) & 1) << 1u16) | ((code
        >> 13u16) & 1)
}

/// Sequential XOR-chain conversion of the low eight gray bits to binary.
pub open spec fn gray_to_bin8(n: u16) -> u16 {
    let b7 = (n >> 7u16) & 1;
    let b6 = b7 ^ ((n >> 6u16) & 1);
    let b5 = b6 ^ ((n >> 5u16) & 1);
    let b4 = b5 ^ ((n >> 4u16) & 1);
    let b3 = b4 ^ ((n >> 3u16) & 1);
    let b2 = b3 ^ ((n >> 2u16) & 1);
    let b1 = b2 ^ ((n >> 1u16) & 1);
    let b0 = b1 ^ (n & 1);
    (b7 << 7u16) | (b6 << 6u16) | (b5 << 5u16) | (b4 << 4u16) | (b3 << 3u16) | (b2 << 2u16) | (
    b1 << 1u16) | b0
}

/// The 100-ft correction table, keyed by the parity of the 500-ft count.
pub open spec fn low_correction(high_odd: bool, sub: u16) -> u16 {
    if !high_odd {
        match sub {
            4u16 => 4u16,
            6u16 => 3u16,
            3u16 => 1u16,
            2u16 => 2u16,
            _ => 0u16,
        }
    } else {
        match sub {
            1u16 => 4u16,
            3u16 => 3u16,
            6u16 => 1u16,
            2u16 => 2u16,
            _ => 0u16,
        }
    }
}

/// The pair (500-ft count, corrected 100-ft digit) that [`graytobin`]
/// produces from a packed altitude code.
pub open spec fn graytobin_value(code: u16) -> (u32, u32) {
    let n = gillham_word(code);
    let result = gray_to_bin8(n & 0xFF);
    let high = result >> 3u16;
    let sub = n & 7;
    let low = low_correction(high & 1 == 1, sub);
    (high as u32, low as u32)
}

/// Decodes the Gillham-coded altitude bits of a Comm-B style frame into a
/// 500-ft count and a table-corrected 100-ft digit.
pub fn graytobin(message: &[u32]) -> (r: (u32, u32))
    requires
        message@.len() == 14 || message@.len() == 28,
    ensures
        r == graytobin_value(ma_code_value(message@)),
        r.0 < 32,
        r.1 <= 4,
{
    let code = match ma_code(message) {
        Some(c) => c,
        None => {
            proof {
                assert(false);
            }
            0
        },
    };
    let n = (extract_bit(&code, 4) << 10) | (extract_bit(&code, 2) << 9) | (extract_bit(
        &code,
        12,
    ) << 8) | (extract_bit(&code, 10) << 7) | (extract_bit(&code, 8) << 6) | (extract_bit(
        &code,
        7,
    ) << 5) | (extract_bit(&code, 5) << 4) | (extract_bit(&code, 3) << 3) | (extract_bit(
        &code,
        13,
    ) << 2) | (extract_bit(&code, 11) << 1) | extract_bit(&code, 13);
    proof {
        let c = code;
        assert(((((c >> 4u16) & 1) << 10u16) | (((c >> 2u16) & 1) << 9u16) | (((c >> 12u16) & 1)
            << 8u16) | (((c >> 10u16) & 1) << 7u16) | (((c >> 8u16) & 1) << 6u16) | (((c
            >> 7u16) & 1) << 5u16) | (((c >> 5u16) & 1) << 4u16) | (((c >> 3u16) & 1)
            << 3u16) | (((c >> 13u16) & 1) << 2u16) | (((c >> 11u16) & 1) << 1u16) | ((c
            >> 13u16) & 1)) == gillham_word(c));
    }
    let g = n & 0xFF;
    let b7 = (g >> 7) & 1;
    let b6 = b7 ^ ((g >> 6) & 1);
    let b5 = b6 ^ ((g >> 5) & 1);
    let b4 = b5 ^ ((g >> 4) & 1);
    let b3 = b4 ^ ((g >> 3) & 1);
    let b2 = b3 ^ ((g >> 2) & 1);
    let b1 = b2 ^ ((g >> 1) & 1);
    let b0 = b1 ^ (g & 1);
    let result = (b7 << 7) | (b6 << 6) | (b5 << 5) | (b4 << 4) | (b3 << 3) | (b2 << 2) | (b1
        << 1) | b0;
    let sub = n & 7;
    let high = result >> 3;
    proof {
        assert(result == gray_to_bin8(n & 0xFF));
        assert(result >> 3u16 < 32 && n & 7 < 8) by (bit_vector)
            requires
                result == gray_to_bin8(n & 0xFF),
        ;
    }
    let low: u16 = match high & 1 {
        0 => match sub {
            4 => 4,
            6 => 3,
            3 => 1,
            2 => 2,
            _ => 0,
        },
        _ => match sub {
            1 => 4,
            3 => 3,
            6 => 1,
            2 => 2,
            _ => 0,
        },
    };
    proof {
        assert(high & 1 == 0 || high & 1 == 1) by (bit_vector);
    }
    (high as u32, low as u32)
}

/// The 100-ft code that the Gillham tables assign to a digit, the inverse
/// direction of [`low_correction`].
pub open spec fn low_code(high_odd: bool, low: u16) -> u16 {
    if !high_odd {
        match low {
            4u16 => 4u16,
            3u16 => 6u16,
            1u16 => 3u16,
            2u16 => 2u16,
            _ => 0u16,
        }
    } else {
        match low {
            4u16 => 1u16,
            3u16 => 3u16,
            1u16 => 6u16,
            2u16 => 2u16,
            _ => 0u16,
        }
    }
}

/// Gray-to-binary round trip: a 500-ft count below 32 encoded as its gray
/// word decodes back to itself through the XOR chain, whatever 100-ft code
/// sits below it; and each table-covered 100-ft digit survives the trip
/// through the correction table and back, for both parities of the count.
pub proof fn lemma_gillham_round_trip(high: u16, low: u16, sub: u16)
    requires
        high < 32,
        1 <= low <= 4,
    ensures
        gray_to_bin8((((high ^ (high >> 1u16)) << 3u16) | sub) & 0xFF) >> 3u16 == high || sub
            >= 8,
        low_correction(high & 1 == 1, low_code(high & 1 == 1, low)) == low,
{
    assert(gray_to_bin8((((high ^ (high >> 1u16)) << 3u16) | sub) & 0xFF) >> 3u16 == high || sub
        >= 8) by (bit_vector)
        requires
            high < 32,
    ;
}

} // verus!

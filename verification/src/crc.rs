//! The Mode S cyclic redundancy check.
//!
//! The 24-bit remainder is computed bit-serially with the fixed Mode S
//! generator polynomial; the 24-bit register shifts one message bit in per
//! step and folds the generator back in whenever a one falls off the top.
use vstd::prelude::*;
use crate::calc::{get_bit, msg_bit};

verus! {

/// The generator polynomial's low 24 coefficients.
pub const GENERATOR: u32 = 0xFFF409;

/// One step of the bit-serial remainder computation.
pub open spec fn crc_step(rem: u32, b: int) -> u32 {
    let top = (rem >> 23u32) & 1;
    let shifted = ((rem << 1u32) & 0xFFFFFF) | (b as u32);
    if top == 1 {
        shifted ^ 0xFFF409
    } else {
        shifted
    }
}

/// The remainder register after feeding in bits `1..=p` of the message.
pub open spec fn crc_bits(m: Seq<u32>, p: int) -> u32
    decreases p,
{
    if p <= 0 {
        0
    } else {
        crc_step(crc_bits(m, p - 1), msg_bit(m, p))
    }
}

/// The register after feeding `k` further zero bits into `rem`.
pub open spec fn crc_feed_zeros(rem: u32, k: int) -> u32
    decreases k,
{
    if k <= 0 {
        rem
    } else {
        crc_step(crc_feed_zeros(rem, k - 1), 0)
    }
}

/// The checksum of the data part: the remainder over the whole frame with
/// its last 24 bits (the parity field) taken as zero.
pub open spec fn crc_over_data(m: Seq<u32>) -> u32 {
    crc_feed_zeros(crc_bits(m, 4 * m.len() as int - 24), 24)
}

/// Computes the CRC remainder over the full frame, parity bits included.
///
/// A downlink frame whose last 24 bits are pure parity leaves a zero
/// remainder here when undamaged.
pub fn reminder(message: &[u32]) -> (r: u32)
    requires
        message@.len() == 14 || message@.len() == 28,
    ensures
        r == crc_bits(message@, 4 * message@.len() as int),
{
    let nbits: u32 = 4 * (message.len() as u32);
    let mut rem: u32 = 0;
    let mut p: u32 = 1;
    while p <= nbits
        invariant
            1 <= p <= nbits + 1,
            nbits == 4 * message@.len(),
            message@.len() == 14 || message@.len() == 28,
            rem == crc_bits(message@, p - 1),
        decreases nbits + 1 - p,
    {
        let b = get_bit(message, p);
        let top = (rem >> 23) & 1;
        rem = ((rem << 1) & 0xFFFFFF) | b;
        if top == 1 {
            rem = rem ^ GENERATOR;
        }
        p += 1;
    }
    rem
}

/// Computes the checksum of the data part of the frame: the remainder with
/// the 24-bit parity field replaced by zeros.  XOR-ing this against the
/// transmitted parity field recovers the interrogator or aircraft address.
pub fn get_crc(message: &[u32], df: u32) -> (r: u32)
    requires
        message@.len() == 14 || message@.len() == 28,
    ensures
        r == crc_over_data(message@),
{
    let nbits: u32 = 4 * (message.len() as u32);
    let data_bits: u32 = nbits - 24;
    let mut rem: u32 = 0;
    let mut p: u32 = 1;
    while p <= data_bits
        invariant
            1 <= p <= data_bits + 1,
            nbits == 4 * message@.len(),
            data_bits == nbits - 24,
            message@.len() == 14 || message@.len() == 28,
            rem == crc_bits(message@, p - 1),
        decreases data_bits + 1 - p,
    {
        let b = get_bit(message, p);
        let top = (rem >> 23) & 1;
        rem = ((rem << 1) & 0xFFFFFF) | b;
        if top == 1 {
            rem = rem ^ GENERATOR;
        }
        p += 1;
    }
    let ghost base = crc_bits(message@, 4 * message@.len() as int - 24);
    let mut k: u32 = 0;
    while k < 24
        invariant
            k <= 24,
            base == crc_bits(message@, 4 * message@.len() as int - 24),
            rem == crc_feed_zeros(base, k as int),
        decreases 24 - k,
    {
        let prev = rem;
        let top = (prev >> 23) & 1;
        let shifted = ((prev << 1) & 0xFFFFFF) | 0;
        rem = if top == 1 {
            shifted ^ GENERATOR
        } else {
            shifted
        };
        proof {
            assert(crc_feed_zeros(base, k + 1) == crc_step(crc_feed_zeros(base, k as int), 0));
            assert(rem == crc_step(prev, 0));
        }
        k += 1;
    }
    rem
}

} // verus!

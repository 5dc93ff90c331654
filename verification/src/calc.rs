//! Bit-range extraction from a message of 4-bit nibbles.
//!
//! Bit positions are 1-indexed from the most significant bit of the first
//! nibble, so bit 1 is the top bit of `message[0]` and bit `4 * len` is the
//! bottom bit of the last nibble.
use vstd::prelude::*;
use vstd::arithmetic::div_mod::{lemma_add_mod_noop, lemma_mul_mod_noop_left, lemma_small_mod};
use vstd::arithmetic::power2::{lemma2_to64, lemma_pow2_adds, pow2};

verus! {

/// The value (0 or 1) of the 1-indexed bit `pos` of the nibble sequence `m`.
pub open spec fn msg_bit(m: Seq<u32>, pos: int) -> int
    recommends
        1 <= pos <= 4 * m.len(),
{
    ((m[(pos - 1) / 4] >> ((3 - (pos - 1) % 4) as u32)) & 1) as int
}

/// The big-endian integer formed by bits `s..=e` of `m`; 0 for an empty range.
pub open spec fn bits_value(m: Seq<u32>, s: int, e: int) -> int
    decreases e - s + 1,
{
    if e < s {
        0
    } else {
        bits_value(m, s, e - 1) * 2 + msg_bit(m, e)
    }
}

/// Every bit range denotes a non-negative value below `2^(number of bits)`.
pub proof fn lemma_bits_value_bound(m: Seq<u32>, s: int, e: int)
    requires
        s - 1 <= e,
    ensures
        0 <= bits_value(m, s, e) < pow2((e - s + 1) as nat),
    decreases e - s + 1,
{
    if e < s {
        assert(pow2(0) == 1) by {
            lemma2_to64();
        }
    } else {
        lemma_bits_value_bound(m, s, e - 1);
        lemma_pow2_adds((e - s) as nat, 1);
        assert(pow2(1) == 2) by {
            lemma2_to64();
        }
        let nb = m[(e - 1) / 4];
        let sh = (3 - (e - 1) % 4) as u32;
        assert((nb >> sh) & 1 == 0 || (nb >> sh) & 1 == 1) by (bit_vector);
        assert(msg_bit(m, e) == ((nb >> sh) & 1) as int);
        let a = bits_value(m, s, e - 1);
        let p = pow2((e - s) as nat) as int;
        assert(a * 2 + msg_bit(m, e) < p * 2) by (nonlinear_arith)
            requires
                0 <= a < p,
                0 <= msg_bit(m, e) <= 1,
        ;
    }
}

/// The bits of one whole nibble read back the nibble's low four bits.
pub proof fn lemma_bits_value_nibble(m: Seq<u32>, i: int)
    requires
        0 <= i < m.len(),
    ensures
        bits_value(m, 4 * i + 1, 4 * i + 4) == (m[i] & 0xF) as int,
{
    let n = m[i];
    assert(msg_bit(m, 4 * i + 1) == ((n >> 3u32) & 1) as int);
    assert(msg_bit(m, 4 * i + 2) == ((n >> 2u32) & 1) as int);
    assert(msg_bit(m, 4 * i + 3) == ((n >> 1u32) & 1) as int);
    assert(msg_bit(m, 4 * i + 4) == ((n >> 0u32) & 1) as int);
    assert(bits_value(m, 4 * i + 1, 4 * i) == 0);
    assert(bits_value(m, 4 * i + 1, 4 * i + 1) == msg_bit(m, 4 * i + 1));
    assert(bits_value(m, 4 * i + 1, 4 * i + 2) == msg_bit(m, 4 * i + 1) * 2 + msg_bit(
        m,
        4 * i + 2,
    ));
    assert(bits_value(m, 4 * i + 1, 4 * i + 3) == bits_value(m, 4 * i + 1, 4 * i + 2) * 2
        + msg_bit(m, 4 * i + 3));
    assert(bits_value(m, 4 * i + 1, 4 * i + 4) == bits_value(m, 4 * i + 1, 4 * i + 3) * 2
        + msg_bit(m, 4 * i + 4));
    assert(((((n >> 3u32) & 1) * 2 + ((n >> 2u32) & 1)) * 2 + ((n >> 1u32) & 1)) * 2 + ((n
        >> 0u32) & 1) == n & 0xF) by (bit_vector);
}

/// Returns the nibble index and the bit offset within that nibble of a
/// 1-indexed bit position.
pub fn bit_location(position: u32) -> (r: (usize, usize))
    requires
        position >= 1,
    ensures
        r.0 == (position - 1) as int / 4,
        r.1 == (position - 1) as int % 4,
{
    let ibyte = ((position - 1) >> 2) as usize;
    let ibit = ((position - 1) & 3) as usize;
    proof {
        let p = (position - 1) as u32;
        assert(p >> 2 == p / 4 && (p & 3) == p % 4) by (bit_vector);
    }
    (ibyte, ibit)
}

/// Extracts the big-endian value of the inclusive 1-indexed bit range
/// `sb..=eb`.
///
/// Returns `None` exactly when the range is empty (`eb < sb`) or falls
/// outside the message.  Every range of at most 32 bits reads exactly; a
/// wider range keeps the low 32 bits of the value.
pub fn range_value(message: &[u32], sb: u32, eb: u32) -> (r: Option<u32>)
    ensures
        r is Some <==> (1 <= sb <= eb && eb <= 4 * message@.len()),
        (r is Some && eb - sb < 32) ==> r->0 == bits_value(message@, sb as int, eb as int),
        r is Some ==> r->0 == bits_value(message@, sb as int, eb as int) % 0x1_0000_0000,
{
    if sb < 1 || eb < sb {
        return None;
    }
    let (ebi, _ebb) = bit_location(eb);
    if ebi >= message.len() {
        return None;
    }
    let ghost ms = message@;
    let mut acc: u32 = 0;
    let mut p: u64 = sb as u64;
    proof {
        lemma_small_mod(0nat, 0x1_0000_0000);
    }
    while p <= eb as u64
        invariant
            1 <= sb <= p <= eb + 1,
            eb <= 4 * ms.len(),
            ms == message@,
            acc as int == bits_value(ms, sb as int, p - 1) % 0x1_0000_0000,
        decreases eb + 1 - p,
    {
        let b = get_bit(message, p as u32);
        let prev = acc;
        acc = (acc << 1) | b;
        proof {
            let bv = bits_value(ms, sb as int, p - 1);
            assert(acc == (prev * 2 + b) % 0x1_0000_0000) by (bit_vector)
                requires
                    acc == ((prev << 1) | b),
                    b <= 1,
            ;
            assert(bits_value(ms, sb as int, p as int) == bv * 2 + msg_bit(ms, p as int));
            lemma_mul_mod_noop_left(bv, 2, 0x1_0000_0000);
            lemma_add_mod_noop(bv * 2, b as int, 0x1_0000_0000);
            lemma_add_mod_noop((bv % 0x1_0000_0000) * 2, b as int, 0x1_0000_0000);
            lemma_small_mod(b as nat, 0x1_0000_0000);
        }
        p += 1;
    }
    proof {
        if eb - sb < 32 {
            lemma_bits_value_bound(ms, sb as int, eb as int);
            if eb - sb + 1 < 32 {
                vstd::arithmetic::power2::lemma_pow2_strictly_increases(
                    (eb - sb + 1) as nat,
                    32,
                );
            }
            assert(pow2(32) == 0x1_0000_0000) by {
                lemma2_to64();
            }
            lemma_small_mod(bits_value(ms, sb as int, eb as int) as nat, 0x1_0000_0000);
        }
    }
    Some(acc)
}

/// Reads the single bit at 1-indexed `position`.
pub fn get_bit(message: &[u32], position: u32) -> (r: u32)
    requires
        1 <= position <= 4 * message@.len(),
    ensures
        r == msg_bit(message@, position as int),
        r == 0 || r == 1,
{
    let (ibyte, ibit) = bit_location(position);
    let r = (message[ibyte] >> ((3 - ibit) as u32)) & 1;
    proof {
        let n = message@[ibyte as int];
        let k = (3 - ibit) as u32;
        assert((n >> k) & 1 == 0 || (n >> k) & 1 == 1) by (bit_vector);
    }
    r
}

/// Reads a flag bit together with a bit-range value.
///
/// A `flag` position of zero means the flag is absent and stands for the
/// value 0 without touching the message.
pub fn flag_and_range_value(message: &[u32], flag: u32, sb: u32, eb: u32) -> (r: Option<
    (u32, u32),
>)
    requires
        flag == 0 || flag <= 4 * message@.len(),
    ensures
        r is Some <==> (1 <= sb <= eb && eb <= 4 * message@.len()),
        r is Some ==> (r->0).0 == (if flag == 0 {
            0int
        } else {
            msg_bit(message@, flag as int)
        }),
        (r is Some && eb - sb < 32) ==> (r->0).1 == bits_value(message@, sb as int, eb as int),
{
    let f = if flag == 0 {
        0
    } else {
        get_bit(message, flag)
    };
    match range_value(message, sb, eb) {
        Some(value) => Some((f, value)),
        None => None,
    }
}

/// Reads a status bit, a flag bit, and a bit-range value in one step.
///
/// As with [`flag_and_range_value`], a zero `status` or `flag` position
/// stands for an absent bit and yields 0.
pub fn status_flag_and_range_value(message: &[u32], status: u32, flag: u32, sb: u32, eb: u32) -> (r:
    Option<(u32, u32, u32)>)
    requires
        status == 0 || status <= 4 * message@.len(),
        flag == 0 || flag <= 4 * message@.len(),
    ensures
        r is Some <==> (1 <= sb <= eb && eb <= 4 * message@.len()),
        r is Some ==> (r->0).0 == (if status == 0 {
            0int
        } else {
            msg_bit(message@, status as int)
        }),
        r is Some ==> (r->0).1 == (if flag == 0 {
            0int
        } else {
            msg_bit(message@, flag as int)
        }),
        (r is Some && eb - sb < 32) ==> (r->0).2 == bits_value(message@, sb as int, eb as int),
{
    let s = if status == 0 {
        0
    } else {
        get_bit(message, status)
    };
    match flag_and_range_value(message, flag, sb, eb) {
        Some((f, v)) => Some((s, f, v)),
        None => None,
    }
}

/// Reading any whole nibble of a valid frame by its aligned bit range
/// reproduces that nibble exactly, so the bit extractor over the full
/// frame reproduces the frame's own nibble sequence.
pub proof fn lemma_nibble_round_trip(m: Seq<u32>, i: int)
    requires
        crate::valid_message(m),
        0 <= i < m.len(),
    ensures
        bits_value(m, 4 * i + 1, 4 * i + 4) == m[i],
{
    lemma_bits_value_nibble(m, i);
    let n = m[i];
    assert(n < 16 ==> n & 0xF == n) by (bit_vector);
}

} // verus!


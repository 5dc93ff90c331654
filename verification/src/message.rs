//! Framing of raw squitter text into nibble messages.
use vstd::prelude::*;
use crate::calc::{bits_value, range_value};

verus! {

/// Whether a character code point is an ASCII hexadecimal digit.
pub open spec fn is_hex_code(u: u32) -> bool {
    (48 <= u <= 57) || (65 <= u <= 70) || (97 <= u <= 102)
}

/// The numeric value of an ASCII hexadecimal digit code point.
pub open spec fn hex_code_value(u: u32) -> u32 {
    if 48 <= u <= 57 {
        (u - 48) as u32
    } else if 65 <= u <= 70 {
        (u - 55) as u32
    } else {
        (u - 87) as u32
    }
}

/// The nibble values of the hexadecimal digits of `s`, in order, with every
/// other character dropped.
pub open spec fn hex_nibbles(s: Seq<char>) -> Seq<u32>
    decreases s.len(),
{
    if s.len() == 0 {
        Seq::empty()
    } else {
        let rest = hex_nibbles(s.drop_last());
        let u = s.last() as u32;
        if is_hex_code(u) {
            rest.push(hex_code_value(u))
        } else {
            rest
        }
    }
}

/// Every nibble produced by hex filtering is below 16.
pub proof fn lemma_hex_nibbles_bounded(s: Seq<char>)
    ensures
        forall|i: int| 0 <= i < hex_nibbles(s).len() ==> hex_nibbles(s)[i] < 16,
    decreases s.len(),
{
    if s.len() > 0 {
        lemma_hex_nibbles_bounded(s.drop_last());
        let rest = hex_nibbles(s.drop_last());
        let u = s.last() as u32;
        if is_hex_code(u) {
            assert(hex_nibbles(s) == rest.push(hex_code_value(u)));
            assert(hex_code_value(u) < 16);
            assert forall|i: int| 0 <= i < hex_nibbles(s).len() implies hex_nibbles(s)[i]
                < 16 by {
                if i < rest.len() {
                    assert(hex_nibbles(s)[i] == rest[i]);
                } else {
                    assert(hex_nibbles(s)[i] == hex_code_value(u));
                }
            }
        } else {
            assert(hex_nibbles(s) == rest);
        }
    }
}

/// Strips every character that is not a hexadecimal digit and frames what
/// remains.
///
/// A result of 14 or 28 digits is a bare squitter; 26 or 40 digits mean an
/// SBS-style wrapper whose first 12 digits are discarded.  Any other count
/// is a framing failure.
pub fn clean_squitter(line: &str) -> (r: Option<Vec<u32>>)
    ensures
        ({
            let h = hex_nibbles(line@);
            &&& (r is Some <==> (h.len() == 14 || h.len() == 26 || h.len() == 28 || h.len()
                == 40))
            &&& ((h.len() == 14 || h.len() == 28) ==> r is Some && r->0@ == h)
            &&& ((h.len() == 26 || h.len() == 40) ==> r is Some && r->0@ == h.skip(12))
        }),
{
    let n = line.unicode_len();
    let mut v: Vec<u32> = Vec::new();
    let mut i: usize = 0;
    while i < n
        invariant
            i <= n,
            n == line@.len(),
            v@ == hex_nibbles(line@.take(i as int)),
        decreases n - i,
    {
        let c = line.get_char(i);
        let u = c as u32;
        if 48 <= u && u <= 57 {
            v.push(u - 48);
        } else if 65 <= u && u <= 70 {
            v.push(u - 55);
        } else if 97 <= u && u <= 102 {
            v.push(u - 87);
        }
        proof {
            assert(line@.take(i + 1).drop_last() =~= line@.take(i as int));
            assert(line@.take(i + 1).last() == line@[i as int]);
        }
        i += 1;
    }
    proof {
        assert(line@.take(n as int) =~= line@);
    }
    let len = v.len();
    if len == 14 || len == 28 {
        Some(v)
    } else if len == 26 || len == 40 {
        let mut w: Vec<u32> = Vec::new();
        let mut j: usize = 12;
        while j < v.len()
            invariant
                12 <= j <= v@.len(),
                w@ == v@.subrange(12, j as int),
            decreases v@.len() - j,
        {
            let x = v[j];
            w.push(x);
            j += 1;
        }
        proof {
            assert(v@.subrange(12, v@.len() as int) =~= v@.skip(12));
        }
        Some(w)
    } else {
        None
    }
}

/// Converts one raw squitter line into a message of nibbles.
///
/// Framing accepts exactly the lines whose hexadecimal content is 14 or 28
/// digits long, directly or after removing an SBS wrapper; parity is not
/// checked here, address recovery judges it.
pub fn get_message(squitter: &str) -> (r: Option<Vec<u32>>)
    ensures
        ({
            let h = hex_nibbles(squitter@);
            &&& (r is Some <==> (h.len() == 14 || h.len() == 26 || h.len() == 28 || h.len()
                == 40))
            &&& ((h.len() == 14 || h.len() == 28) ==> r is Some && r->0@ == h)
            &&& ((h.len() == 26 || h.len() == 40) ==> r is Some && r->0@ == h.skip(12))
            &&& (r is Some ==> (r->0@.len() == 14 || r->0@.len() == 28))
            &&& (r is Some ==> forall|i: int| 0 <= i < r->0@.len() ==> r->0@[i] < 16)
        }),
{
    proof {
        lemma_hex_nibbles_bounded(squitter@);
    }
    match clean_squitter(squitter) {
        Some(message) => {
            let len = message.len();
            if len == 14 || len == 28 {
                Some(message)
            } else {
                proof {
                    assert(false);
                }
                None
            }
        },
        None => None,
    }
}

/// The shorter alias the stream reader uses for [`get_message`].
pub fn message(squitter: &str) -> (r: Option<Vec<u32>>)
    ensures
        ({
            let h = hex_nibbles(squitter@);
            &&& (r is Some <==> (h.len() == 14 || h.len() == 26 || h.len() == 28 || h.len()
                == 40))
            &&& ((h.len() == 14 || h.len() == 28) ==> r is Some && r->0@ == h)
            &&& ((h.len() == 26 || h.len() == 40) ==> r is Some && r->0@ == h.skip(12))
            &&& (r is Some ==> (r->0@.len() == 14 || r->0@.len() == 28))
            &&& (r is Some ==> forall|i: int| 0 <= i < r->0@.len() ==> r->0@[i] < 16)
        }),
{
    get_message(squitter)
}

/// Reads the Downlink Format, the 5-bit type discriminator in bits 1 to 5.
pub fn get_downlink_format(message: &[u32]) -> (r: Option<u32>)
    ensures
        r is Some <==> message@.len() >= 2,
        r is Some ==> r->0 == bits_value(message@, 1, 5),
        r is Some ==> r->0 < 32,
{
    proof {
        if message@.len() >= 2 {
            crate::calc::lemma_bits_value_bound(message@, 1, 5);
            vstd::arithmetic::power2::lemma2_to64();
        }
    }
    range_value(message, 1, 5)
}

/// The shorter alias for [`get_downlink_format`].
pub fn df(message: &[u32]) -> (r: Option<u32>)
    ensures
        r is Some <==> message@.len() >= 2,
        r is Some ==> r->0 == bits_value(message@, 1, 5),
        r is Some ==> r->0 < 32,
{
    get_downlink_format(message)
}

/// Reads the type code and subtype of an extended squitter payload.
pub fn get_message_type(message: &[u32]) -> (r: (u32, u32))
    requires
        message@.len() == 28,
        forall|i: int| 0 <= i < message@.len() ==> message@[i] < 16,
    ensures
        r.0 == (message@[8] << 1u32) | (message@[9] >> 3u32),
        r.1 == message@[9] & 7,
        r.0 < 32,
        r.1 < 8,
{
    let tc = (message[8] << 1) | (message[9] >> 3);
    let st = message[9] & 7;
    proof {
        let a = message@[8];
        let b = message@[9];
        assert(((a << 1u32) | (b >> 3u32)) < 32 && (b & 7) < 8) by (bit_vector)
            requires
                a < 16 && b < 16,
        ;
    }
    (tc, st)
}

/// Reads the transponder capability field of a DF11 or DF17 frame.
pub fn get_capability(message: &[u32]) -> (r: u32)
    requires
        message@.len() >= 2,
    ensures
        r == message@[1] & 7,
        r < 8,
{
    let r = message[1] & 0b0111;
    proof {
        let b = message@[1];
        assert((b & 7) < 8) by (bit_vector);
    }
    r
}

/// The hexadecimal text of a message's values, concatenated in order.
pub open spec fn hex_join(m: Seq<u32>) -> Seq<char>
    decreases m.len(),
{
    if m.len() == 0 {
        Seq::empty()
    } else {
        hex_join(m.drop_last()) + crate::fmt::hex_chars(m.last() as int)
    }
}

/// Renders a message back into hexadecimal text, one digit per nibble for
/// well-formed messages.
pub fn get_hex_message(message: &[u32]) -> (r: String)
    ensures
        r@ == hex_join(message@),
{
    let mut s = String::new();
    let mut i: usize = 0;
    proof {
        assert(hex_join(message@.take(0)) =~= Seq::<char>::empty());
    }
    while i < message.len()
        invariant
            i <= message@.len(),
            s@ == hex_join(message@.take(i as int)),
        decreases message@.len() - i,
    {
        let piece = crate::fmt::format_hex_u64(message[i] as u64);
        s.append(piece.as_str());
        proof {
            assert(message@.take(i + 1).drop_last() =~= message@.take(i as int));
            assert(message@.take(i + 1).last() == message@[i as int]);
            assert(s@ =~= hex_join(message@.take(i + 1)));
        }
        i += 1;
    }
    proof {
        assert(message@.take(message@.len() as int) =~= message@);
    }
    s
}

} // verus!


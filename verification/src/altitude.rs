//! Barometric and GNSS altitude decoding.
use vstd::prelude::*;
use crate::calc::{bits_value, lemma_bits_value_bound, msg_bit, get_bit, range_value};
use crate::gray::{graytobin, graytobin_value};

verus! {

/// The packed 13-bit altitude code of a short or Comm-B frame: the AC field
/// in bits 20 to 32, with the metric bit M and the 25-ft bit Q moved out of
/// the word to its bottom two positions.
pub open spec fn ma_code_value(m: Seq<u32>) -> u16 {
    (((bits_value(m, 20, 25) * 64 + bits_value(m, 27, 32)) * 4) + msg_bit(m, 26) * 2 + msg_bit(
        m,
        28,
    )) as u16
}

/// The packed 12-bit altitude code of an extended squitter: the AC field in
/// bits 41 to 52, with its Q bit repeated at the bottom.
pub open spec fn me_code_value(m: Seq<u32>) -> u16 {
    (bits_value(m, 41, 52) * 4 + msg_bit(m, 48)) as u16
}

/// Packs the altitude code of a short or Comm-B frame.
pub fn ma_code(message: &[u32]) -> (r: Option<u16>)
    requires
        message@.len() == 14 || message@.len() == 28,
    ensures
        r is Some,
        r->0 == ma_code_value(message@),
{
    proof {
        lemma_bits_value_bound(message@, 20, 25);
        lemma_bits_value_bound(message@, 27, 32);
        vstd::arithmetic::power2::lemma2_to64();
    }
    let hi = match range_value(message, 20, 25) {
        Some(v) => v,
        None => {
            proof {
                assert(false);
            }
            0
        },
    };
    let lo = match range_value(message, 27, 32) {
        Some(v) => v,
        None => {
            proof {
                assert(false);
            }
            0
        },
    };
    let mbit = get_bit(message, 26);
    let qbit = get_bit(message, 28);
    Some((((hi * 64 + lo) * 4) + mbit * 2 + qbit) as u16)
}

/// Packs the altitude code of an extended squitter frame.
pub fn me_code(message: &[u32]) -> (r: Option<u16>)
    requires
        message@.len() == 28,
    ensures
        r is Some,
        r->0 == me_code_value(message@),
{
    proof {
        lemma_bits_value_bound(message@, 41, 52);
        vstd::arithmetic::power2::lemma2_to64();
    }
    let w = match range_value(message, 41, 52) {
        Some(v) => v,
        None => {
            proof {
                assert(false);
            }
            0
        },
    };
    let qbit = get_bit(message, 48);
    Some((w * 4 + qbit) as u16)
}

/// The altitude in feet that a packed code denotes, before the sanity cap.
///
/// With M and Q clear the Gillham tables apply and a value below the
/// 1200-ft baseline is garbage, not a negative altitude; with Q set the
/// code counts 25-ft steps from -1000 ft, where a result below zero is
/// likewise garbage; with M set the code is metric and converted to feet.
pub open spec fn altitude_code_value(m: Seq<u32>, code: u16) -> Option<u32> {
    if code & 0b10 == 0 {
        if code & 1 == 0 {
            let (high, low) = graytobin_value(ma_code_value(m));
            if high * 500 + low * 100 >= 1200 {
                Some((high * 500 + low * 100 - 1200) as u32)
            } else {
                None
            }
        } else {
            let n = ((code >> 7u16) << 4u16) | ((code >> 2u16) & 0b1111);
            if n * 25 >= 1000 {
                Some((n * 25 - 1000) as u32)
            } else {
                None
            }
        }
    } else {
        let n = (((code >> 7u16) << 4u16) & 0b11111110000) | ((code >> 2u16) & 0b1111);
        Some(((n as u32) * 31 / 100) as u32)
    }
}

/// The decoded altitude with the sanity cap applied: any result of 100,000
/// ft or more is a decode error and reads as absent.
pub open spec fn altitude_of(m: Seq<u32>, df: u32) -> Option<u32> {
    let code = if df == 17 {
        me_code_value(m)
    } else {
        ma_code_value(m)
    };
    match altitude_code_value(m, code) {
        Some(a) => if a < 100000 {
            Some(a)
        } else {
            None
        },
        None => None,
    }
}

/// Decodes the altitude carried by a packed code, if any.
pub fn altitude_value(message: &[u32], code: Option<u16>) -> (r: Option<u32>)
    requires
        message@.len() == 14 || message@.len() == 28,
    ensures
        r == match code {
            Some(c) => altitude_code_value(message@, c),
            None => None::<u32>,
        },
{
    match code {
        Some(code) => {
            if code & 0b10 == 0 {
                if code & 1 == 0 {
                    let (high, low) = graytobin(message);
                    let value = high * 500 + low * 100;
                    if value >= 1200 {
                        Some(value - 1200)
                    } else {
                        None
                    }
                } else {
                    let n = ((code >> 7) << 4) | ((code >> 2) & 0b1111);
                    proof {
                        let c = code;
                        assert((((c >> 7u16) << 4u16) | ((c >> 2u16) & 0b1111)) < 8192)
                            by (bit_vector);
                    }
                    let f = (n as u32) * 25;
                    if f >= 1000 {
                        Some(f - 1000)
                    } else {
                        None
                    }
                }
            } else {
                let n = (((code >> 7) << 4) & 0b11111110000) | ((code >> 2) & 0b1111);
                proof {
                    let c = code;
                    assert(((((c >> 7u16) << 4u16) & 0b11111110000) | ((c >> 2u16) & 0b1111))
                        < 2048) by (bit_vector);
                }
                Some((n as u32) * 31 / 100)
            }
        },
        None => None,
    }
}

/// Decodes the barometric altitude of a frame, reading the extended
/// squitter AC field for DF17 and the Comm-B AC field otherwise.
pub fn altitude(message: &[u32], df: u32) -> (r: Option<u32>)
    requires
        message@.len() == if df == 17 {
            28int
        } else {
            14int
        } || message@.len() == 28,
    ensures
        r == altitude_of(message@, df),
{
    let code = if df == 17 {
        me_code(message)
    } else {
        ma_code(message)
    };
    match altitude_value(message, code) {
        Some(a) => {
            if a < 100000 {
                Some(a)
            } else {
                None
            }
        },
        None => None,
    }
}

/// The signed difference between GNSS and barometric altitude of an
/// airborne velocity message, in feet.
pub open spec fn altitude_delta_of(m: Seq<u32>) -> Option<i32> {
    let d = bits_value(m, 82, 88);
    if d == 0 {
        None
    } else if msg_bit(m, 81) == 1 {
        Some((-((d - 1) * 25)) as i32)
    } else {
        Some(((d - 1) * 25) as i32)
    }
}

/// Decodes the GNSS-minus-barometric altitude difference of an airborne
/// velocity message; zero means no information.
pub fn altitude_delta(message: &[u32]) -> (r: Option<i32>)
    requires
        message@.len() == 28,
    ensures
        r == altitude_delta_of(message@),
{
    proof {
        lemma_bits_value_bound(message@, 82, 88);
        vstd::arithmetic::power2::lemma2_to64();
    }
    let d = match range_value(message, 82, 88) {
        Some(v) => v,
        None => {
            proof {
                assert(false);
            }
            0
        },
    };
    if d == 0 {
        return None;
    }
    let sign = get_bit(message, 81);
    let magnitude = (d - 1) * 25;
    if sign == 1 {
        Some(-(magnitude as i32))
    } else {
        Some(magnitude as i32)
    }
}

/// The GNSS height field of an operational status style frame, a direct
/// bit-range read of bits 41 to 52.
pub fn altitude_gnss(message: &[u32]) -> (r: Option<u32>)
    requires
        message@.len() == 28,
    ensures
        r is Some,
        r->0 == bits_value(message@, 41, 52),
{
    range_value(message, 41, 52)
}

} // verus!

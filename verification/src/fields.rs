//! Pure field decoders: squawk, callsign, velocity, status and version
//! fields, each a function of the message bits alone.
//!
//! Angles are carried in hundredths of a degree, speeds in knots, ground
//! movement in eighths of a knot, so that every value is an exact integer.
use vstd::prelude::*;
use crate::calc::{bits_value, lemma_bits_value_bound, msg_bit, get_bit, range_value};

verus! {

/// The identity code of a surveillance reply, four octal digits.
pub open spec fn squawk_value(m: Seq<u32>) -> u32 {
    let a = msg_bit(m, 21) + 2 * msg_bit(m, 23) + 4 * msg_bit(m, 25);
    let b = msg_bit(m, 27) + 2 * msg_bit(m, 29) + 4 * msg_bit(m, 31);
    let c = msg_bit(m, 20) + 2 * msg_bit(m, 22) + 4 * msg_bit(m, 24);
    let d = msg_bit(m, 28) + 2 * msg_bit(m, 30) + 4 * msg_bit(m, 32);
    (1000 * a + 100 * b + 10 * c + d) as u32
}

/// Decodes the 4096-code squawk from the interleaved identity field.
pub fn squawk(message: &[u32]) -> (r: Option<u32>)
    requires
        message@.len() == 14 || message@.len() == 28,
    ensures
        r is Some,
        r->0 == squawk_value(message@),
        r->0 <= 7777,
{
    let a = get_bit(message, 21) + 2 * get_bit(message, 23) + 4 * get_bit(message, 25);
    let b = get_bit(message, 27) + 2 * get_bit(message, 29) + 4 * get_bit(message, 31);
    let c = get_bit(message, 20) + 2 * get_bit(message, 22) + 4 * get_bit(message, 24);
    let d = get_bit(message, 28) + 2 * get_bit(message, 30) + 4 * get_bit(message, 32);
    Some(1000 * a + 100 * b + 10 * c + d)
}

/// The 64-character ADS-B callsign alphabet, indexed by 6-bit character
/// codes; `#` marks the undefined codes.
pub fn ais_charset() -> (r: &'static str)
    ensures
        r@ == "#ABCDEFGHIJKLMNOPQRSTUVWXYZ##### ###############0123456789######"@,
        r@.len() == 64,
        r.is_ascii(),
{
    let cs = "#ABCDEFGHIJKLMNOPQRSTUVWXYZ##### ###############0123456789######";
    proof {
        reveal_strlit("#ABCDEFGHIJKLMNOPQRSTUVWXYZ##### ###############0123456789######");
    }
    cs
}

/// The callsign character that a 6-bit code denotes.
pub open spec fn ais_char(code: int) -> char {
    "#ABCDEFGHIJKLMNOPQRSTUVWXYZ##### ###############0123456789######"@[code]
}

/// The 6-bit character code at position `i` of the callsign field.
pub open spec fn ais_code(m: Seq<u32>, i: int) -> int {
    bits_value(m, 41 + 6 * i, 46 + 6 * i)
}

/// The first `k` callsign characters, decoded in order.
pub open spec fn ais_seq(m: Seq<u32>, k: int) -> Seq<char>
    decreases k,
{
    if k <= 0 {
        Seq::empty()
    } else {
        ais_seq(m, k - 1).push(ais_char(ais_code(m, k - 1)))
    }
}

/// The callsign length once trailing space codes are trimmed from the
/// first `k` characters.
pub open spec fn ais_trim_len(m: Seq<u32>, k: int) -> int
    decreases k,
{
    if k <= 0 {
        0
    } else if ais_code(m, k - 1) == 32 {
        ais_trim_len(m, k - 1)
    } else {
        k
    }
}

/// Decodes the eight-character callsign of an identification payload,
/// trimmed of trailing fill spaces.
pub fn ais(message: &[u32]) -> (r: Option<String>)
    requires
        message@.len() == 28,
    ensures
        r is Some,
        r->0@ == ais_seq(message@, ais_trim_len(message@, 8)),
{
    let ghost ms = message@;
    let mut codes: Vec<u32> = Vec::new();
    let mut i: usize = 0;
    while i < 8
        invariant
            i <= 8,
            ms == message@,
            ms.len() == 28,
            codes@.len() == i,
            forall|j: int| 0 <= j < i ==> codes@[j] == ais_code(ms, j) && codes@[j] < 64,
        decreases 8 - i,
    {
        proof {
            lemma_bits_value_bound(ms, 41 + 6 * i as int, 46 + 6 * i as int);
            vstd::arithmetic::power2::lemma2_to64();
        }
        let sb = 41 + 6 * (i as u32);
        let eb = 46 + 6 * (i as u32);
        let code = match range_value(message, sb, eb) {
            Some(v) => v,
            None => {
                proof {
                    assert(false);
                }
                0
            },
        };
        let ghost prev = codes@;
        codes.push(code);
        proof {
            assert(code == ais_code(ms, i as int));
            assert(code < 64);
            assert forall|j: int| 0 <= j < i + 1 implies codes@[j] == ais_code(ms, j) && codes@[j]
                < 64 by {
                if j < i {
                    assert(codes@[j] == prev[j]);
                } else {
                    assert(codes@[j] == code);
                }
            }
        }
        i += 1;
    }
    let mut end: usize = 8;
    while end > 0 && codes[end - 1] == 32
        invariant
            end <= 8,
            codes@.len() == 8,
            forall|j: int| 0 <= j < 8 ==> codes@[j] == ais_code(ms, j) && codes@[j] < 64,
            ais_trim_len(ms, 8) == ais_trim_len(ms, end as int),
        decreases end,
    {
        end = end - 1;
    }
    proof {
        assert(ais_trim_len(ms, end as int) == end as int);
    }
    let cs = ais_charset();
    let mut s = String::new();
    let mut k: usize = 0;
    while k < end
        invariant
            k <= end <= 8,
            codes@.len() == 8,
            forall|j: int| 0 <= j < 8 ==> codes@[j] == ais_code(ms, j) && codes@[j] < 64,
            cs@ == "#ABCDEFGHIJKLMNOPQRSTUVWXYZ##### ###############0123456789######"@,
            cs@.len() == 64,
            cs.is_ascii(),
            s@ == ais_seq(ms, k as int),
        decreases end - k,
    {
        let code = codes[k] as usize;
        proof {
            assert(codes@[k as int] == ais_code(ms, k as int) && codes@[k as int] < 64);
        }
        let piece = cs.substring_ascii(code, code + 1);
        s.append(piece);
        proof {
            assert(piece@ =~= seq![ais_char(codes@[k as int] as int)]);
            assert(s@ =~= ais_seq(ms, k + 1));
        }
        k += 1;
    }
    Some(s)
}

/// The surveillance status letter of an airborne position payload: a
/// permanent alert, a temporary alert, or an ident pulse; blank otherwise.
pub open spec fn surveillance_status_value(m: Seq<u32>) -> char {
    let v = bits_value(m, 38, 39);
    if v == 1 {
        'A'
    } else if v == 2 {
        'T'
    } else if v == 3 {
        'S'
    } else {
        ' '
    }
}

/// Decodes the surveillance status of an airborne position payload.
pub fn surveillance_status(message: &[u32]) -> (r: char)
    requires
        message@.len() == 28,
    ensures
        r == surveillance_status_value(message@),
{
    let v = match range_value(message, 38, 39) {
        Some(v) => v,
        None => {
            proof {
                assert(false);
            }
            0
        },
    };
    if v == 1 {
        'A'
    } else if v == 2 {
        'T'
    } else if v == 3 {
        'S'
    } else {
        ' '
    }
}

/// Reads the ADS-B version of an operational status payload.
pub fn version(message: &[u32]) -> (r: Option<u32>)
    requires
        message@.len() == 28,
    ensures
        r is Some,
        r->0 == bits_value(message@, 41, 43),
{
    range_value(message, 41, 43)
}

/// The vertical rate in feet per minute; a zero field means no information.
pub open spec fn vertical_rate_value(m: Seq<u32>) -> Option<i32> {
    let v = bits_value(m, 70, 78);
    if v == 0 {
        None
    } else if msg_bit(m, 69) == 1 {
        Some((-((v - 1) * 64)) as i32)
    } else {
        Some(((v - 1) * 64) as i32)
    }
}

/// Decodes the vertical rate of an airborne velocity payload.
pub fn vertical_rate(message: &[u32]) -> (r: Option<i32>)
    requires
        message@.len() == 28,
    ensures
        r == vertical_rate_value(message@),
{
    proof {
        lemma_bits_value_bound(message@, 70, 78);
        vstd::arithmetic::power2::lemma2_to64();
    }
    let v = match range_value(message, 70, 78) {
        Some(v) => v,
        None => {
            proof {
                assert(false);
            }
            0
        },
    };
    if v == 0 {
        return None;
    }
    let sign = get_bit(message, 69);
    let rate = (v - 1) * 64;
    if sign == 1 {
        Some(-(rate as i32))
    } else {
        Some(rate as i32)
    }
}

/// The resolution advisory marker of an ACAS payload: an active advisory,
/// a terminated one, or none.
pub open spec fn threat_encounter_value(m: Seq<u32>) -> Option<char> {
    if bits_value(m, 41, 54) != 0 {
        if msg_bit(m, 59) == 1 {
            Some('t')
        } else {
            Some('T')
        }
    } else {
        None
    }
}

/// Decodes the resolution advisory state of an ACAS active-resolution
/// payload.
pub fn threat_encounter(message: &[u32]) -> (r: Option<char>)
    requires
        message@.len() == 28,
    ensures
        r == threat_encounter_value(message@),
{
    let ara = match range_value(message, 41, 54) {
        Some(v) => v,
        None => {
            proof {
                assert(false);
            }
            0
        },
    };
    if ara != 0 {
        if get_bit(message, 59) == 1 {
            Some('t')
        } else {
            Some('T')
        }
    } else {
        None
    }
}

/// Reads the compact position report of a position payload: the parity
/// (0 even, 1 odd) and the encoded latitude and longitude.
pub fn cpr(message: &[u32]) -> (r: (u32, u32, u32))
    requires
        message@.len() == 28,
    ensures
        r.0 == msg_bit(message@, 54),
        r.1 == bits_value(message@, 55, 71),
        r.2 == bits_value(message@, 72, 88),
        r.1 < 0x20000 && r.2 < 0x20000,
{
    proof {
        lemma_bits_value_bound(message@, 55, 71);
        lemma_bits_value_bound(message@, 72, 88);
        vstd::arithmetic::power2::lemma2_to64();
    }
    let form = get_bit(message, 54);
    let lat = match range_value(message, 55, 71) {
        Some(v) => v,
        None => {
            proof {
                assert(false);
            }
            0
        },
    };
    let lon = match range_value(message, 72, 88) {
        Some(v) => v,
        None => {
            proof {
                assert(false);
            }
            0
        },
    };
    (form, lat, lon)
}

/// The surface movement speed in eighths of a knot, from the 7-bit
/// movement field's stepped encoding; absent when the field gives no
/// information.
pub open spec fn ground_movement_value(mv: u32) -> Option<u32> {
    if mv == 0 {
        None
    } else if mv == 1 {
        Some(0u32)
    } else if mv <= 8 {
        Some((mv - 1) as u32)
    } else if mv <= 12 {
        Some((8 + (mv - 8) * 2) as u32)
    } else if mv <= 38 {
        Some((16 + (mv - 12) * 4) as u32)
    } else if mv <= 93 {
        Some((120 + (mv - 38) * 8) as u32)
    } else if mv <= 108 {
        Some((560 + (mv - 93) * 16) as u32)
    } else if mv <= 123 {
        Some((800 + (mv - 108) * 40) as u32)
    } else if mv == 124 {
        Some(1400u32)
    } else {
        None
    }
}

/// Decodes the surface ground movement of a surface position payload, in
/// eighths of a knot.
pub fn ground_movement(message: &[u32]) -> (r: Option<u32>)
    requires
        message@.len() == 28,
    ensures
        r == ground_movement_value(bits_value(message@, 38, 44) as u32),
{
    proof {
        lemma_bits_value_bound(message@, 38, 44);
        vstd::arithmetic::power2::lemma2_to64();
    }
    let mv = match range_value(message, 38, 44) {
        Some(v) => v,
        None => {
            proof {
                assert(false);
            }
            0
        },
    };
    if mv == 0 {
        None
    } else if mv == 1 {
        Some(0)
    } else if mv <= 8 {
        Some(mv - 1)
    } else if mv <= 12 {
        Some(8 + (mv - 8) * 2)
    } else if mv <= 38 {
        Some(16 + (mv - 12) * 4)
    } else if mv <= 93 {
        Some(120 + (mv - 38) * 8)
    } else if mv <= 108 {
        Some(560 + (mv - 93) * 16)
    } else if mv <= 123 {
        Some(800 + (mv - 108) * 40)
    } else if mv == 124 {
        Some(1400)
    } else {
        None
    }
}

/// The surface ground track in hundredths of a degree, present only when
/// its status bit is set.
pub open spec fn ground_track_value(m: Seq<u32>) -> Option<u32> {
    if msg_bit(m, 45) == 1 {
        Some(((bits_value(m, 46, 52) * 36000 + 64) / 128) as u32)
    } else {
        None
    }
}

/// Decodes the ground track of a surface position payload.
pub fn ground_track(message: &[u32]) -> (r: Option<u32>)
    requires
        message@.len() == 28,
    ensures
        r == ground_track_value(message@),
        r is Some ==> r->0 <= 36000,
{
    proof {
        lemma_bits_value_bound(message@, 46, 52);
        vstd::arithmetic::power2::lemma2_to64();
    }
    if get_bit(message, 45) == 1 {
        let v = match range_value(message, 46, 52) {
            Some(v) => v,
            None => {
                proof {
                    assert(false);
                }
                0
            },
        };
        Some((v * 36000 + 64) / 128)
    } else {
        None
    }
}

/// The magnetic heading of an airborne velocity payload without a ground
/// vector, in hundredths of a degree, present only with its status bit.
pub open spec fn heading_value(m: Seq<u32>) -> Option<u32> {
    if msg_bit(m, 46) == 1 {
        Some(((bits_value(m, 47, 56) * 36000 + 512) / 1024) as u32)
    } else {
        None
    }
}

/// Decodes the magnetic heading of an air-referenced velocity payload.
pub fn heading(message: &[u32]) -> (r: Option<u32>)
    requires
        message@.len() == 28,
    ensures
        r == heading_value(message@),
        r is Some ==> r->0 <= 36000,
{
    proof {
        lemma_bits_value_bound(message@, 47, 56);
        vstd::arithmetic::power2::lemma2_to64();
    }
    if get_bit(message, 46) == 1 {
        let v = match range_value(message, 47, 56) {
            Some(v) => v,
            None => {
                proof {
                    assert(false);
                }
                0
            },
        };
        Some((v * 36000 + 512) / 1024)
    } else {
        None
    }
}

} // verus!

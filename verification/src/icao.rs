//! Recovery of the 24-bit ICAO transponder address.
use vstd::prelude::*;
use crate::calc::{bits_value, range_value};
use crate::crc::{crc_over_data, get_crc};

verus! {

/// Downlink formats whose last 24 bits overlay the address onto the parity
/// field, so the address is recovered by XOR against the local checksum.
pub open spec fn df_uses_parity_overlay(df: u32) -> bool {
    df == 0 || df == 4 || df == 5 || df == 16 || df == 20 || df == 21
}

/// The address that [`get_icao`] recovers, before the zero filter.
pub open spec fn icao_value(m: Seq<u32>, df: u32) -> u32 {
    if df_uses_parity_overlay(df) {
        (bits_value(m, 4 * m.len() as int - 23, 4 * m.len() as int) as u32) ^ crc_over_data(m)
    } else {
        bits_value(m, 9, 32) as u32
    }
}

/// Recovers the ICAO address of a well-formed message.
///
/// For the parity-overlay formats the transmitted parity field is XOR-ed
/// with the locally computed checksum; for the others the address stands in
/// bits 9 to 32 directly.  A zero result is a decode failure, never the
/// address of an aircraft, so it yields `None`.
pub fn get_icao(message: &[u32], df: u32) -> (r: Option<u32>)
    requires
        message@.len() == 14 || message@.len() == 28,
    ensures
        r is Some <==> icao_value(message@, df) != 0,
        r is Some ==> r->0 == icao_value(message@, df),
{
    match df {
        0 | 4 | 5 | 16 | 20 | 21 => {
            let len: u32 = 4 * (message.len() as u32);
            let field = match range_value(message, len - 23, len) {
                Some(v) => v,
                None => {
                    proof {
                        assert(false);
                    }
                    0
                },
            };
            let addr = field ^ get_crc(message, df);
            if addr != 0 {
                Some(addr)
            } else {
                None
            }
        },
        _ => {
            let addr = match range_value(message, 9, 32) {
                Some(v) => v,
                None => {
                    proof {
                        assert(false);
                    }
                    0
                },
            };
            if addr != 0 {
                Some(addr)
            } else {
                None
            }
        },
    }
}

/// The wake-turbulence letter of an ADS-B identification category pair.
pub open spec fn wtc_of(vc: (u32, u32)) -> Option<char> {
    match vc {
        (4u32, 1u32) => Some('L'),
        (4u32, 2u32) => Some('S'),
        (4u32, 3u32) => Some('M'),
        (4u32, 4u32) => Some('H'),
        (4u32, 5u32) => Some('J'),
        (4u32, 7u32) => Some('R'),
        _ => None,
    }
}

/// Looks up the wake-turbulence category letter of a category pair.
///
/// Exactly the six defined pairs with a type code of 4 carry a letter; every
/// other pair, (4, 0) and (4, 6) included, has none.
pub fn get_wake_turbulence_category(vc: &(u32, u32)) -> (r: Option<char>)
    ensures
        r == wtc_of(*vc),
        r is Some <==> (vc.0 == 4 && (1 <= vc.1 <= 5 || vc.1 == 7)),
{
    match *vc {
        (4, 1) => Some('L'),
        (4, 2) => Some('S'),
        (4, 3) => Some('M'),
        (4, 4) => Some('H'),
        (4, 5) => Some('J'),
        (4, 7) => Some('R'),
        _ => None,
    }
}

/// The same lookup under the name the display path uses.
pub fn icao_wtc(vc: &(u32, u32)) -> (r: Option<char>)
    ensures
        r == wtc_of(*vc),
{
    get_wake_turbulence_category(vc)
}

} // verus!

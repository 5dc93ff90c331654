//! The per-line decoding pipeline: everything the stream loop decides,
//! short of the reading itself.
use vstd::prelude::*;
use crate::calc::bits_value;
use crate::crc::{crc_bits, reminder};
use crate::frames::DF;
use crate::icao::{df_uses_parity_overlay, get_icao, icao_value};
use crate::message::{get_downlink_format, get_message, hex_nibbles};
use crate::plane::Plane;
use crate::planes::{entry_fresh, Planes, IDLE_THRESHOLD};

verus! {

/// Relies on chrono's `Utc::now`: the wall clock read as whole seconds
/// since the Unix epoch.  Nothing is promised of the value, two reads may
/// even go backwards.
#[verifier::external_body]
fn clock_seconds() -> i64 {
    chrono::Utc::now().timestamp()
}

/// The current time in whole seconds since the epoch, clamped below at
/// zero.
pub fn now_seconds() -> (r: u64) {
    let t = clock_seconds();
    if t < 0 {
        0
    } else {
        t as u64
    }
}

/// Frames, checks, dispatches and merges one raw line into the table at
/// time `now`, and runs the periodic sweep.
///
/// Returns the line's Downlink Format exactly when the line frames as a
/// squitter, a pure-parity format carries a zero checksum remainder, and
/// the address recovers to a non-zero value; on success the table holds
/// the address's record stamped `now`, and a dropped line touches no
/// table entry.
pub fn process_line(
    planes: &mut Planes,
    cleanup_count: &mut u32,
    line: &str,
    use_update_method: bool,
    relaxed: bool,
    now: u64,
) -> (r: Option<u32>)
    requires
        old(planes).wf(),
        *old(cleanup_count) < 0xFFFF_FFFF,
    ensures
        final(planes).wf(),
        ({
            let h = hex_nibbles(line@);
            let framed = h.len() == 14 || h.len() == 26 || h.len() == 28 || h.len() == 40;
            let m = if h.len() == 26 || h.len() == 40 {
                h.skip(12)
            } else {
                h
            };
            let df = bits_value(m, 1, 5) as u32;
            let crc_ok = df_uses_parity_overlay(df) || crc_bits(m, 4 * m.len() as int) == 0;
            &&& (r is Some <==> framed && crc_ok && icao_value(m, df) != 0)
            &&& (r is Some ==> r->0 == df)
            &&& (r is Some ==> final(planes).contains_icao(icao_value(m, df)) && final(planes).plane_of(icao_value(m, df)).timestamp == now)
            &&& (r is None ==> *final(planes) == *old(planes) && *final(cleanup_count) == *old(
                cleanup_count,
            ))
        }),
{
    let message = match get_message(line) {
        Some(m) => m,
        None => {
            return None;
        },
    };
    let df = match get_downlink_format(message.as_slice()) {
        Some(v) => v,
        None => {
            proof {
                assert(false);
            }
            0
        },
    };
    let overlay = df == 0 || df == 4 || df == 5 || df == 16 || df == 20 || df == 21;
    if !overlay && reminder(message.as_slice()) != 0 {
        return None;
    }
    let icao = match get_icao(message.as_slice(), df) {
        Some(v) => v,
        None => {
            return None;
        },
    };
    let downlink = DF::decode(message.as_slice(), relaxed);
    planes.update_aircraft(
        &downlink,
        message.as_slice(),
        df,
        icao,
        use_update_method,
        relaxed,
        now,
    );
    let ghost mid = *planes;
    planes.cleanup(cleanup_count, now);
    proof {
        broadcast use vstd::prelude::Seq::lemma_filter_contains;

        let k = choose|k: int|
            0 <= k < mid.aircrafts@.len() && (#[trigger] mid.aircrafts@[k]).0 == icao;
        let e = mid.aircrafts@[k];
        assert(e.1.timestamp == now);
        if planes.aircrafts@ == mid.aircrafts@ {
            planes.lemma_plane_of_index(k);
        } else {
            let pred = |x: (u32, Plane)| entry_fresh(x, now as int, IDLE_THRESHOLD as int);
            assert(entry_fresh(e, now as int, IDLE_THRESHOLD as int));
            assert(mid.aircrafts@.filter(pred).contains(e));
            let j = choose|j: int|
                0 <= j < planes.aircrafts@.len() && planes.aircrafts@[j] == e;
            planes.lemma_plane_of_index(j);
        }
    }
    Some(df)
}

/// Decodes one line against the wall clock: the time is read once and
/// every effect of the line carries that reading.
pub fn process_line_now(
    planes: &mut Planes,
    cleanup_count: &mut u32,
    line: &str,
    use_update_method: bool,
    relaxed: bool,
) -> (r: Option<u32>)
    requires
        old(planes).wf(),
        *old(cleanup_count) < 0xFFFF_FFFF,
    ensures
        final(planes).wf(),
        ({
            let h = hex_nibbles(line@);
            let framed = h.len() == 14 || h.len() == 26 || h.len() == 28 || h.len() == 40;
            let m = if h.len() == 26 || h.len() == 40 {
                h.skip(12)
            } else {
                h
            };
            let df = bits_value(m, 1, 5) as u32;
            let crc_ok = df_uses_parity_overlay(df) || crc_bits(m, 4 * m.len() as int) == 0;
            &&& (r is Some <==> framed && crc_ok && icao_value(m, df) != 0)
            &&& (r is Some ==> r->0 == df)
        }),
{
    let now = now_seconds();
    process_line(planes, cleanup_count, line, use_update_method, relaxed, now)
}

} // verus!

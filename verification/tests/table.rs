use squitterator::cpr::{cpr_location, nl_lookup};
use squitterator::fields::{ais, ground_movement, squawk};
use squitterator::fmt::{format_hex_u64, format_i64, format_u64, padded_left};
use squitterator::frames::classify;
use squitterator::plane::Plane;
use squitterator::planes::Planes;
use squitterator::velocity::track_and_groundspeed;
use squitterator::{
    decode, df, get_hex_message, get_message, process_line, set_observer_coords_from_str,
    DecodeError, Legend, DisplayFlags, DF,
};

// The published worked example of a global airborne decode: the even and
// odd samples resolve near 52.25720 N, 3.91937 E when the even sample is
// the more recent.
#[test]
fn test_cpr_global_even_recent() {
    let r = cpr_location(93000, 51372, 74158, 50194, false);
    let (lat, lon) = r.expect("pair should resolve");
    assert!((lat - 52257202).abs() <= 100, "lat {}", lat);
    assert!((lon - 3919373).abs() <= 100, "lon {}", lon);
}

// Swapping which parity is the more recent moves the decode to the odd
// solution but never changes the longitude-zone count.
#[test]
fn test_cpr_global_recency_swap() {
    let even = cpr_location(93000, 51372, 74158, 50194, false).expect("even decode");
    let odd = cpr_location(93000, 51372, 74158, 50194, true).expect("odd decode");
    assert!((odd.0 - 52265780).abs() <= 100, "lat {}", odd.0);
    assert_eq!(
        nl_lookup(even.0.unsigned_abs()),
        nl_lookup(odd.0.unsigned_abs())
    );
    // both solutions lie in the same one-zone band
    assert!((even.0 - odd.0).abs() < 6_000_000);
}

#[test]
fn test_ais_callsign() {
    let message = get_message("8D4840D6202CC371C32CE0576098").unwrap();
    assert_eq!(ais(&message).unwrap(), "KLM1023");
}

#[test]
fn test_squawk_decode() {
    let message = get_message("A8281200200464B3CF7820CD194C").unwrap();
    assert_eq!(squawk(&message), Some(2010));
}

#[test]
fn test_velocity_decode() {
    let message = get_message("8D485020994409940838175B284F").unwrap();
    let (track, grspeed) = track_and_groundspeed(&message, false);
    assert_eq!(grspeed, Some(159));
    assert_eq!(track, Some(18300));
}

#[test]
fn test_ground_movement_steps() {
    // a crafted surface position payload whose movement field is 2: the
    // first moving step, one eighth of a knot
    let message = get_message("8D4840D638200000000000000000").unwrap();
    assert_eq!(ground_movement(&message), Some(1));
}

#[test]
fn test_decode_pipeline_errors() {
    match decode("too short") {
        Err(e) => assert_eq!(e, DecodeError::InvalidLength),
        Ok(_) => panic!("a non-squitter line must fail framing"),
    }
    // the same extended squitter with its last parity digit corrupted
    match decode("8D40621D58C382D690C8AC2863A8") {
        Err(e) => assert_eq!(e, DecodeError::Checksum),
        Ok(_) => panic!("a corrupted pure-parity frame must fail its checksum"),
    }
    match decode("8D40621D58C382D690C8AC2863A7") {
        Ok(DF::EXT(e)) => {
            assert_eq!(e.icao, Some(4219421));
            assert_eq!(e.message_type.0, 11);
        }
        _ => panic!("expected an extended squitter frame"),
    }
}

// An aircraft unheard past the idle threshold is gone after the sweep;
// one updated within the threshold survives.
#[test]
fn test_eviction() {
    let mut planes = Planes::new();
    let stale = get_message("A8281200200464B3CF7820CD194C").unwrap();
    let fresh = get_message("8D40621D58C382D690C8AC2863A7").unwrap();
    let df_stale = df(&stale).unwrap();
    let df_fresh = df(&fresh).unwrap();
    let dl_stale = DF::decode(&stale, false);
    let dl_fresh = DF::decode(&fresh, false);
    planes.update_aircraft(&dl_stale, &stale, df_stale, 0x123456, false, false, 1000);
    planes.update_aircraft(&dl_fresh, &fresh, df_fresh, 0x40621D, false, false, 1050);
    planes.evict(1070, 60);
    assert_eq!(planes.aircrafts.len(), 1);
    assert_eq!(planes.aircrafts[0].0, 0x40621D);
}

// A later message that carries no squawk leaves the learned squawk alone.
#[test]
fn test_merge_never_clears() {
    let with_squawk = get_message("A8281200200464B3CF7820CD194C").unwrap();
    let ident = get_message("8D4840D6202CC371C32CE0576098").unwrap();
    let mut plane = Plane::new(100);
    plane.update(&with_squawk, df(&with_squawk).unwrap(), false, 100);
    assert_eq!(plane.squawk, Some(2010));
    plane.update(&ident, df(&ident).unwrap(), false, 110);
    assert_eq!(plane.squawk, Some(2010), "squawk must survive an identification message");
    assert_eq!(plane.ais.as_deref(), Some("KLM1023"));
    assert_eq!(plane.timestamp, 110);
}

#[test]
fn test_process_line() {
    let mut planes = Planes::new();
    let mut count: u32 = 0;
    let r = process_line(
        &mut planes,
        &mut count,
        "8D40621D58C382D690C8AC2863A7",
        false,
        false,
        42,
    );
    assert_eq!(r, Some(17));
    assert_eq!(planes.aircrafts.len(), 1);
    assert_eq!(planes.aircrafts[0].1.timestamp, 42);
    assert_eq!(process_line(&mut planes, &mut count, "junk", false, false, 43), None);
    // a corrupted pure-parity frame is dropped without touching the table
    assert_eq!(
        process_line(
            &mut planes,
            &mut count,
            "8D40621D58C382D690C8AC2863A8",
            false,
            false,
            44
        ),
        None
    );
    assert_eq!(planes.aircrafts.len(), 1);
}

#[test]
fn test_classify_unclassified() {
    // an all-zero Comm-B payload matches no register
    let message = get_message("A0000000000000000000007ADA59").unwrap();
    assert_eq!(classify(&message, false), (0, 0));
}

#[test]
fn test_observer_parse() {
    let c = set_observer_coords_from_str("52.66411442720024, -8.622299905360963").unwrap();
    assert_eq!(c.lat, 52664114);
    assert_eq!(c.lon, -8622299);
    assert!(set_observer_coords_from_str("no comma here").is_none());
    assert!(set_observer_coords_from_str("1.0,abc").is_none());
}

#[test]
fn test_hex_round_trip() {
    let message = get_message("8D40621D58C382D690C8AC2863A7").unwrap();
    assert_eq!(get_hex_message(&message), "8D40621D58C382D690C8AC2863A7");
}

#[test]
fn test_formatting() {
    assert_eq!(format_u64(0), "0");
    assert_eq!(format_u64(14300), "14300");
    assert_eq!(format_i64(-832), "-832");
    assert_eq!(format_hex_u64(0x40621D), "40621D");
    assert_eq!(padded_left("7", 4, true), "0007");
    assert_eq!(padded_left("42", 5, false), "   42");
}

#[test]
fn test_legend_base() {
    let flags = DisplayFlags::new(false, false, false, false, false);
    let legend = Legend::from_display_flags(&flags);
    assert!(legend.value.starts_with("ICAO      : ICAO Address                \n"));
    assert!(legend.value.contains("W         : Wake Turbulence Category    \n"));
}

#[test]
fn test_row_rendering() {
    let mut plane = Plane::new(100);
    plane.icao = 0x40621D;
    plane.altitude = Some(38000);
    plane.squawk = Some(2010);
    let row = plane.row(false, 105);
    assert!(row.starts_with("40621D   "));
    assert!(row.contains("38000"));
    assert!(row.contains("2010"));
    assert!(row.ends_with("  5"));
}

// The genuine even/odd airborne position pair of the worked example,
// pushed through the record merge: the position resolves within a
// ten-thousandth of a degree of the published values.
#[test]
fn test_position_through_update() {
    let even = get_message("8D40621D58C382D690C8AC2863A7").unwrap();
    let odd = get_message("8D40621D58C386435CC412692AD6").unwrap();
    let mut plane = Plane::new(100);
    plane.update(&odd, df(&odd).unwrap(), false, 100);
    assert_eq!(plane.position_timestamp, None);
    plane.update(&even, df(&even).unwrap(), false, 102);
    assert_eq!(plane.position_timestamp, Some(102));
    assert!((plane.lat - 52257202).abs() <= 100, "lat {}", plane.lat);
    assert!((plane.lon - 3919373).abs() <= 100, "lon {}", plane.lon);
    assert_eq!(plane.altitude, Some(38000));
}

// The snapshot is ordered by address whatever order updates arrived in.
#[test]
fn test_snapshot_order() {
    let mut planes = Planes::new();
    let m1 = get_message("A8281200200464B3CF7820CD194C").unwrap();
    let m2 = get_message("8D40621D58C382D690C8AC2863A7").unwrap();
    let d1 = df(&m1).unwrap();
    let d2 = df(&m2).unwrap();
    planes.update_aircraft(&DF::decode(&m1, false), &m1, d1, 0xC0FFEE, false, false, 10);
    planes.update_aircraft(&DF::decode(&m2, false), &m2, d2, 0x40621D, false, false, 11);
    let snapshot = planes.snapshot();
    assert_eq!(snapshot.len(), 2);
    assert!(snapshot[0].0 < snapshot[1].0);
}

use squitterator::frames::{classify, Mds};
use squitterator::{get_message, is_bds_4_0, is_bds_4_4, is_bds_5_0, is_bds_6_0};

#[test]
fn test_bds_4_0_fixture() {
    let message = get_message("A000029C85E42F313000007047D3").unwrap();
    assert_eq!(classify(&message, false), (4, 0));
    let intent = is_bds_4_0(&message).unwrap();
    assert_eq!(intent.mcp_selected_altitude, Some(3008));
    assert_eq!(intent.fms_selected_altitude, Some(3008));
    assert_eq!(intent.barometric_pressure_setting, Some(1020));
}

#[test]
fn test_bds_5_0_fixture() {
    let message = get_message("A000139381951536E024D4CCF6B5").unwrap();
    assert_eq!(classify(&message, false), (5, 0));
    let track_and_turn = is_bds_5_0(&message).unwrap();
    assert_eq!(track_and_turn.roll_angle, Some(2));
    assert_eq!(track_and_turn.track_angle, Some(114));
    assert_eq!(track_and_turn.ground_speed, Some(438));
    assert_eq!(track_and_turn.true_airspeed, Some(424));
}

#[test]
fn test_bds_6_0_fixture() {
    let message = get_message("A00004128F39F91A7E27C46ADC21").unwrap();
    assert_eq!(classify(&message, false), (6, 0));
    let heading_and_speed = is_bds_6_0(&message).unwrap();
    assert_eq!(heading_and_speed.magnetic_heading, Some(43));
    assert_eq!(heading_and_speed.indicated_airspeed, Some(252));
    assert_eq!(heading_and_speed.mach_number, Some(420));
    assert_eq!(heading_and_speed.barometric_altitude_rate, Some(-1920));
    assert_eq!(heading_and_speed.internal_vertical_velocity, Some(-1920));
}

#[test]
fn test_bds_4_4_fixture() {
    let message = get_message("A0001692185BD5CF400000DFC696").unwrap();
    assert_eq!(classify(&message, false), (4, 4));
    let meteo = is_bds_4_4(&message).unwrap();
    assert_eq!(meteo.wind, Some((22, 345)));
    assert_eq!(meteo.temp, Some(-4875));
}

#[test]
fn test_bds_1_7_fixture() {
    let message = get_message("A0000638FA81C10000000081A92F").unwrap();
    assert_eq!(classify(&message, false), (1, 7));
    let frame = Mds::decode(&message, false);
    let capability = frame.capability.unwrap();
    assert_eq!(capability.flags, 0xFA81C1);
    assert!(capability.bds40 && capability.bds50 && capability.bds60);
}

#[test]
fn test_commb_frame_fields() {
    // the selected altitude lands in the frame through the classifier
    let message = get_message("A000029C85E42F313000007047D3").unwrap();
    let frame = Mds::decode(&message, false);
    assert_eq!(frame.selected_altitude, Some(3008));
    assert_eq!(frame.barometric_pressure_setting, Some(1020));
}

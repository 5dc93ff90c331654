use squitterator::{get_header, DisplayFlags, LegendHeaders};

#[test]
fn header_test_base() {
    let display_flags = DisplayFlags::new(false, false, false, false, false);
    let headers = LegendHeaders::from_display_flags(&display_flags);
    let (header_line, _separator_line) = get_header(&display_flags);
    assert_eq!(
        (headers.header.as_str(), header_line.as_str()),
        (
            "  ICAO RG SQWK W CALLSIGN  LATITUDE   LONGITUDE  DIST ALT B VRATE TRK HDG GSP LC\n",
            "  ICAO RG SQWK W CALLSIGN  LATITUDE   LONGITUDE  DIST ALT B VRATE TRK HDG GSP LC\n"
        )
    )
}

#[test]
fn header_test_weather_0() {
    let display_flags = DisplayFlags::new(true, false, false, false, false);
    let headers = LegendHeaders::from_display_flags(&display_flags);
    let (header_line, _separator_line) = get_header(&display_flags);
    assert_eq!(
        (headers.header.as_str(), header_line.as_str()),
        (
            "  ICAO RG SQWK W CALLSIGN  LATITUDE   LONGITUDE  DIST ALT B VRATE TRK HDG GSP  TEMP WND WDR HUM PRES TB LC\n",
            "  ICAO RG SQWK W CALLSIGN  LATITUDE   LONGITUDE  DIST ALT B VRATE TRK HDG GSP  TEMP WND WDR HUM PRES TB LC\n"
        )
    )
}

#[test]
fn header_test_weather_1() {
    let display_flags = DisplayFlags::new(true, true, false, false, false);
    let headers = LegendHeaders::from_display_flags(&display_flags);
    let (header_line, _separator_line) = get_header(&display_flags);
    assert_eq!(
        (headers.header.as_str(), header_line.as_str()),
        (
            "  ICAO RG SQWK W CALLSIGN  LATITUDE   LONGITUDE  DIST ALT B VRATE TRK HDG GSP RLL TAR  TEMP WND WDR HUM PRES TB LC\n",
            "  ICAO RG SQWK W CALLSIGN  LATITUDE   LONGITUDE  DIST ALT B VRATE TRK HDG GSP RLL TAR  TEMP WND WDR HUM PRES TB LC\n"
        )
    )
}

#[test]
fn header_test_weather_2() {
    let display_flags = DisplayFlags::new(true, true, true, false, false);
    let headers = LegendHeaders::from_display_flags(&display_flags);
    let (header_line, _separator_line) = get_header(&display_flags);
    assert_eq!(
        (headers.header.as_str(), header_line.as_str()),
        (
            "  ICAO RG SQWK W CALLSIGN  LATITUDE   LONGITUDE  DIST ALT B VRATE TRK HDG GSP TAS IAS MACH RLL TAR  TEMP WND WDR HUM PRES TB LC\n",
            "  ICAO RG SQWK W CALLSIGN  LATITUDE   LONGITUDE  DIST ALT B VRATE TRK HDG GSP TAS IAS MACH RLL TAR  TEMP WND WDR HUM PRES TB LC\n"
        )
    )
}

#[test]
fn header_test_weather_3() {
    let display_flags = DisplayFlags::new(true, true, true, true, false);
    let headers = LegendHeaders::from_display_flags(&display_flags);
    let (header_line, _separator_line) = get_header(&display_flags);
    assert_eq!(
        (headers.header.as_str(), header_line.as_str()),
        (
            "  ICAO RG SQWK W CALLSIGN  LATITUDE   LONGITUDE  DIST ALT B ALT G ALT S BARO VRATE TRK HDG GSP TAS IAS MACH RLL TAR  TEMP WND WDR HUM PRES TB LC\n",
            "  ICAO RG SQWK W CALLSIGN  LATITUDE   LONGITUDE  DIST ALT B ALT G ALT S BARO VRATE TRK HDG GSP TAS IAS MACH RLL TAR  TEMP WND WDR HUM PRES TB LC\n"
        )
    )
}

#[test]
fn header_test_weather_4() {
    let display_flags = DisplayFlags::new(true, true, true, true, true);
    let headers = LegendHeaders::from_display_flags(&display_flags);
    let (header_line, _separator_line) = get_header(&display_flags);
    assert_eq!(
        (headers.header.as_str(), header_line.as_str()),
        (
            "  ICAO RG SQWK W CALLSIGN  LATITUDE   LONGITUDE  DIST ALT B ALT G ALT S BARO VRATE TRK HDG GSP TAS IAS MACH RLL TAR  TEMP WND WDR HUM PRES TB VX DF TC V S PTH LC\n",
            "  ICAO RG SQWK W CALLSIGN  LATITUDE   LONGITUDE  DIST ALT B ALT G ALT S BARO VRATE TRK HDG GSP TAS IAS MACH RLL TAR  TEMP WND WDR HUM PRES TB VX DF TC V S PTH LC\n"
        )
    )
}

#[test]
fn header_test_angles_0() {
    let display_flags = DisplayFlags::new(false, true, false, false, false);
    let headers = LegendHeaders::from_display_flags(&display_flags);
    let (header_line, _separator_line) = get_header(&display_flags);
    assert_eq!(
        (headers.header.as_str(), header_line.as_str()),
        (
            "  ICAO RG SQWK W CALLSIGN  LATITUDE   LONGITUDE  DIST ALT B VRATE TRK HDG GSP RLL TAR LC\n",
            "  ICAO RG SQWK W CALLSIGN  LATITUDE   LONGITUDE  DIST ALT B VRATE TRK HDG GSP RLL TAR LC\n"
        )
    )
}

#[test]
fn header_test_angles_1() {
    let display_flags = DisplayFlags::new(false, true, true, false, false);
    let headers = LegendHeaders::from_display_flags(&display_flags);
    let (header_line, _separator_line) = get_header(&display_flags);
    assert_eq!(
        (headers.header.as_str(), header_line.as_str()),
        (
            "  ICAO RG SQWK W CALLSIGN  LATITUDE   LONGITUDE  DIST ALT B VRATE TRK HDG GSP TAS IAS MACH RLL TAR LC\n",
            "  ICAO RG SQWK W CALLSIGN  LATITUDE   LONGITUDE  DIST ALT B VRATE TRK HDG GSP TAS IAS MACH RLL TAR LC\n"
        )
    )
}

#[test]
fn header_test_angles_2() {
    let display_flags = DisplayFlags::new(false, true, true, true, false);
    let headers = LegendHeaders::from_display_flags(&display_flags);
    let (header_line, _separator_line) = get_header(&display_flags);
    assert_eq!(
        (headers.header.as_str(), header_line.as_str()),
        (
            "  ICAO RG SQWK W CALLSIGN  LATITUDE   LONGITUDE  DIST ALT B ALT G ALT S BARO VRATE TRK HDG GSP TAS IAS MACH RLL TAR LC\n",
            "  ICAO RG SQWK W CALLSIGN  LATITUDE   LONGITUDE  DIST ALT B ALT G ALT S BARO VRATE TRK HDG GSP TAS IAS MACH RLL TAR LC\n"
        )
    )
}

#[test]
fn header_test_angles_3() {
    let display_flags = DisplayFlags::new(false, true, true, true, true);
    let headers = LegendHeaders::from_display_flags(&display_flags);
    let (header_line, _separator_line) = get_header(&display_flags);
    assert_eq!(
        (headers.header.as_str(), header_line.as_str()),
        (
            "  ICAO RG SQWK W CALLSIGN  LATITUDE   LONGITUDE  DIST ALT B ALT G ALT S BARO VRATE TRK HDG GSP TAS IAS MACH RLL TAR VX DF TC V S PTH LC\n",
            "  ICAO RG SQWK W CALLSIGN  LATITUDE   LONGITUDE  DIST ALT B ALT G ALT S BARO VRATE TRK HDG GSP TAS IAS MACH RLL TAR VX DF TC V S PTH LC\n"
        )
    )
}

#[test]
fn header_test_speed_0() {
    let display_flags = DisplayFlags::new(false, false, true, false, false);
    let headers = LegendHeaders::from_display_flags(&display_flags);
    let (header_line, _separator_line) = get_header(&display_flags);
    assert_eq!(
        (headers.header.as_str(), header_line.as_str()),
        (
            "  ICAO RG SQWK W CALLSIGN  LATITUDE   LONGITUDE  DIST ALT B VRATE TRK HDG GSP TAS IAS MACH LC\n",
            "  ICAO RG SQWK W CALLSIGN  LATITUDE   LONGITUDE  DIST ALT B VRATE TRK HDG GSP TAS IAS MACH LC\n"
        )
    )
}

#[test]
fn header_test_speed_1() {
    let display_flags = DisplayFlags::new(false, false, true, true, false);
    let headers = LegendHeaders::from_display_flags(&display_flags);
    let (header_line, _separator_line) = get_header(&display_flags);
    assert_eq!(
        (headers.header.as_str(), header_line.as_str()),
        (
            "  ICAO RG SQWK W CALLSIGN  LATITUDE   LONGITUDE  DIST ALT B ALT G ALT S BARO VRATE TRK HDG GSP TAS IAS MACH LC\n",
            "  ICAO RG SQWK W CALLSIGN  LATITUDE   LONGITUDE  DIST ALT B ALT G ALT S BARO VRATE TRK HDG GSP TAS IAS MACH LC\n"
        )
    )
}

#[test]
fn header_test_speed_2() {
    let display_flags = DisplayFlags::new(false, false, true, true, true);
    let headers = LegendHeaders::from_display_flags(&display_flags);
    let (header_line, _separator_line) = get_header(&display_flags);
    assert_eq!(
        (headers.header.as_str(), header_line.as_str()),
        (
            "  ICAO RG SQWK W CALLSIGN  LATITUDE   LONGITUDE  DIST ALT B ALT G ALT S BARO VRATE TRK HDG GSP TAS IAS MACH VX DF TC V S PTH LC\n",
            "  ICAO RG SQWK W CALLSIGN  LATITUDE   LONGITUDE  DIST ALT B ALT G ALT S BARO VRATE TRK HDG GSP TAS IAS MACH VX DF TC V S PTH LC\n"
        )
    )
}

#[test]
fn header_test_altitude_0() {
    let display_flags = DisplayFlags::new(false, false, false, true, false);
    let headers = LegendHeaders::from_display_flags(&display_flags);
    let (header_line, _separator_line) = get_header(&display_flags);
    assert_eq!(
        (headers.header.as_str(), header_line.as_str()),
        (
            "  ICAO RG SQWK W CALLSIGN  LATITUDE   LONGITUDE  DIST ALT B ALT G ALT S BARO VRATE TRK HDG GSP LC\n",
            "  ICAO RG SQWK W CALLSIGN  LATITUDE   LONGITUDE  DIST ALT B ALT G ALT S BARO VRATE TRK HDG GSP LC\n"
        )
    )
}

#[test]
fn header_test_altitude_1() {
    let display_flags = DisplayFlags::new(false, false, false, true, true);
    let headers = LegendHeaders::from_display_flags(&display_flags);
    let (header_line, _separator_line) = get_header(&display_flags);
    assert_eq!(
        (headers.header.as_str(), header_line.as_str()),
        (
            "  ICAO RG SQWK W CALLSIGN  LATITUDE   LONGITUDE  DIST ALT B ALT G ALT S BARO VRATE TRK HDG GSP VX DF TC V S PTH LC\n",
            "  ICAO RG SQWK W CALLSIGN  LATITUDE   LONGITUDE  DIST ALT B ALT G ALT S BARO VRATE TRK HDG GSP VX DF TC V S PTH LC\n"
        )
    )
}

#[test]
fn header_test_extra_0() {
    let display_flags = DisplayFlags::new(false, false, false, false, true);
    let headers = LegendHeaders::from_display_flags(&display_flags);
    let (header_line, _separator_line) = get_header(&display_flags);
    assert_eq!(
        (headers.header.as_str(), header_line.as_str()),
        (
            "  ICAO RG SQWK W CALLSIGN  LATITUDE   LONGITUDE  DIST ALT B VRATE TRK HDG GSP VX DF TC V S PTH LC\n",
            "  ICAO RG SQWK W CALLSIGN  LATITUDE   LONGITUDE  DIST ALT B VRATE TRK HDG GSP VX DF TC V S PTH LC\n"
        )
    )
}

#[test]
fn test_separator_base() {
    let display_flags = DisplayFlags::new(false, false, false, false, false);
    let headers = LegendHeaders::from_display_flags(&display_flags);
    assert_eq!(
        headers.separator,
        "------ -- ---- - -------- --------- ----------- ----- ----- ----- --- --- --- --\n"
    );
}

#[test]
fn test_flags_from_arg_str() {
    let flags = DisplayFlags::from_arg_str("aAews");
    assert!(flags.angles());
    assert!(flags.altitude());
    assert!(flags.extra());
    assert!(flags.weather());
    assert!(flags.speed());
    assert!(!flags.quiet());
    let quiet = DisplayFlags::from_arg_str("Q");
    assert!(quiet.quiet());
}

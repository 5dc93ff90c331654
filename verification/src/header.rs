//! Display column selection and the table header line.
use vstd::prelude::*;

verus! {

/// Which optional column groups the table shows, packed as bit flags.
pub struct DisplayFlags {
    pub bits: u8,
}

/// The flag bit a display-selection character sets; zero for any other
/// character.
pub open spec fn char_flag(c: char) -> u8 {
    if c == 'w' {
        1u8
    } else if c == 'a' {
        2u8
    } else if c == 's' {
        4u8
    } else if c == 'A' {
        8u8
    } else if c == 'e' {
        16u8
    } else if c == 'Q' {
        32u8
    } else {
        0u8
    }
}

/// The flag bits collected from a selection string.
pub open spec fn flags_of_str(s: Seq<char>) -> u8
    decreases s.len(),
{
    if s.len() == 0 {
        0u8
    } else {
        flags_of_str(s.drop_last()) | char_flag(s.last())
    }
}

impl DisplayFlags {
    /// Packs five column-group choices into flags.
    pub fn new(weather: bool, angles: bool, speed: bool, altitude: bool, extra: bool) -> (r: Self)
        ensures
            r.weather_spec() == weather,
            r.angles_spec() == angles,
            r.speed_spec() == speed,
            r.altitude_spec() == altitude,
            r.extra_spec() == extra,
            !r.quiet_spec(),
    {
        let bits: u8 = (if weather {
            1u8
        } else {
            0u8
        }) | (if angles {
            2u8
        } else {
            0u8
        }) | (if speed {
            4u8
        } else {
            0u8
        }) | (if altitude {
            8u8
        } else {
            0u8
        }) | (if extra {
            16u8
        } else {
            0u8
        });
        proof {
            let b = bits;
            assert((b & 1 != 0) == weather && (b & 2 != 0) == angles && (b & 4 != 0) == speed && (
            b & 8 != 0) == altitude && (b & 16 != 0) == extra && (b & 32 == 0)) by (bit_vector)
                requires
                    b == (if weather {
                        1u8
                    } else {
                        0u8
                    }) | (if angles {
                        2u8
                    } else {
                        0u8
                    }) | (if speed {
                        4u8
                    } else {
                        0u8
                    }) | (if altitude {
                        8u8
                    } else {
                        0u8
                    }) | (if extra {
                        16u8
                    } else {
                        0u8
                    }),
            ;
        }
        DisplayFlags { bits }
    }

    /// Reads the column-selection characters of an argument string:
    /// `w`, `a`, `s`, `A`, `e` pick groups and `Q` silences the display.
    pub fn from_arg_str(arg: &str) -> (r: Self)
        ensures
            r.bits == flags_of_str(arg@),
    {
        let n = arg.unicode_len();
        let mut bits: u8 = 0;
        let mut i: usize = 0;
        while i < n
            invariant
                i <= n,
                n == arg@.len(),
                bits == flags_of_str(arg@.take(i as int)),
            decreases n - i,
        {
            let c = arg.get_char(i);
            if c == 'w' {
                bits = bits | 1;
            } else if c == 'a' {
                bits = bits | 2;
            } else if c == 's' {
                bits = bits | 4;
            } else if c == 'A' {
                bits = bits | 8;
            } else if c == 'e' {
                bits = bits | 16;
            } else if c == 'Q' {
                bits = bits | 32;
            } else {
                proof {
                    let b = bits;
                    assert(b | 0 == b) by (bit_vector);
                }
            }
            proof {
                assert(arg@.take(i + 1).drop_last() =~= arg@.take(i as int));
                assert(arg@.take(i + 1).last() == arg@[i as int]);
            }
            i += 1;
        }
        proof {
            assert(arg@.take(n as int) =~= arg@);
        }
        DisplayFlags { bits }
    }

    /// Whether the weather columns are shown.
    pub open spec fn weather_spec(&self) -> bool {
        self.bits & 1 != 0
    }

    /// Whether the angle columns are shown.
    pub open spec fn angles_spec(&self) -> bool {
        self.bits & 2 != 0
    }

    /// Whether the speed columns are shown.
    pub open spec fn speed_spec(&self) -> bool {
        self.bits & 4 != 0
    }

    /// Whether the extra altitude columns are shown.
    pub open spec fn altitude_spec(&self) -> bool {
        self.bits & 8 != 0
    }

    /// Whether the extra status columns are shown.
    pub open spec fn extra_spec(&self) -> bool {
        self.bits & 16 != 0
    }

    /// Whether the display is silenced.
    pub open spec fn quiet_spec(&self) -> bool {
        self.bits & 32 != 0
    }

    /// Whether the weather columns are shown.
    pub fn weather(&self) -> (r: bool)
        ensures
            r == self.weather_spec(),
    {
        self.bits & 1 != 0
    }

    /// Whether the angle columns are shown.
    pub fn angles(&self) -> (r: bool)
        ensures
            r == self.angles_spec(),
    {
        self.bits & 2 != 0
    }

    /// Whether the speed columns are shown.
    pub fn speed(&self) -> (r: bool)
        ensures
            r == self.speed_spec(),
    {
        self.bits & 4 != 0
    }

    /// Whether the extra altitude columns are shown.
    pub fn altitude(&self) -> (r: bool)
        ensures
            r == self.altitude_spec(),
    {
        self.bits & 8 != 0
    }

    /// Whether the extra status columns are shown.
    pub fn extra(&self) -> (r: bool)
        ensures
            r == self.extra_spec(),
    {
        self.bits & 16 != 0
    }

    /// Whether the display is silenced.
    pub fn quiet(&self) -> (r: bool)
        ensures
            r == self.quiet_spec(),
    {
        self.bits & 32 != 0
    }
}

/// The header line that a set of display flags selects.
pub open spec fn header_chars(df: DisplayFlags) -> Seq<char> {
    "  ICAO RG SQWK W CALLSIGN  LATITUDE   LONGITUDE  DIST ALT B "@ + (if df.altitude_spec() {
        "ALT G ALT S BARO "@
    } else {
        Seq::empty()
    }) + "VRATE TRK HDG GSP "@ + (if df.speed_spec() {
        "TAS IAS MACH "@
    } else {
        Seq::empty()
    }) + (if df.angles_spec() {
        "RLL TAR "@
    } else {
        Seq::empty()
    }) + (if df.weather_spec() {
        " TEMP WND WDR HUM PRES TB "@
    } else {
        Seq::empty()
    }) + (if df.extra_spec() {
        "VX DF TC V S PTH "@
    } else {
        Seq::empty()
    }) + "LC\n"@
}

/// The separator line that a set of display flags selects.
pub open spec fn separator_chars(df: DisplayFlags) -> Seq<char> {
    "------ -- ---- - -------- --------- ----------- ----- ----- "@ + (if df.altitude_spec() {
        "----- ----- ---- "@
    } else {
        Seq::empty()
    }) + "----- --- --- --- "@ + (if df.speed_spec() {
        "--- --- ---- "@
    } else {
        Seq::empty()
    }) + (if df.angles_spec() {
        "--- --- "@
    } else {
        Seq::empty()
    }) + (if df.weather_spec() {
        "----- --- --- --- ---- -- "@
    } else {
        Seq::empty()
    }) + (if df.extra_spec() {
        "-- -- -- - - --- "@
    } else {
        Seq::empty()
    }) + "--\n"@
}

/// Builds the header and separator lines of the aircraft table for a set
/// of display flags.
pub fn get_header(display_flags: &DisplayFlags) -> (r: (String, String))
    ensures
        r.0@ == header_chars(*display_flags),
        r.1@ == separator_chars(*display_flags),
{
    let mut header = String::new();
    header.append("  ICAO RG SQWK W CALLSIGN  LATITUDE   LONGITUDE  DIST ALT B ");
    if display_flags.altitude() {
        header.append("ALT G ALT S BARO ");
    }
    header.append("VRATE TRK HDG GSP ");
    if display_flags.speed() {
        header.append("TAS IAS MACH ");
    }
    if display_flags.angles() {
        header.append("RLL TAR ");
    }
    if display_flags.weather() {
        header.append(" TEMP WND WDR HUM PRES TB ");
    }
    if display_flags.extra() {
        header.append("VX DF TC V S PTH ");
    }
    header.append("LC\n");
    let mut separator = String::new();
    separator.append("------ -- ---- - -------- --------- ----------- ----- ----- ");
    if display_flags.altitude() {
        separator.append("----- ----- ---- ");
    }
    separator.append("----- --- --- --- ");
    if display_flags.speed() {
        separator.append("--- --- ---- ");
    }
    if display_flags.angles() {
        separator.append("--- --- ");
    }
    if display_flags.weather() {
        separator.append("----- --- --- --- ---- -- ");
    }
    if display_flags.extra() {
        separator.append("-- -- -- - - --- ");
    }
    separator.append("--\n");
    proof {
        assert(header@ =~= header_chars(*display_flags));
        assert(separator@ =~= separator_chars(*display_flags));
    }
    (header, separator)
}

/// The rendered header and separator lines of the aircraft table.
pub struct LegendHeaders {
    pub header: String,
    pub separator: String,
}

impl LegendHeaders {
    /// Builds both lines for a set of display flags.
    pub fn from_display_flags(display_flags: &DisplayFlags) -> (r: Self)
        ensures
            r.header@ == header_chars(*display_flags),
            r.separator@ == separator_chars(*display_flags),
    {
        let (header, separator) = get_header(display_flags);
        LegendHeaders { header, separator }
    }
}

} // verus!

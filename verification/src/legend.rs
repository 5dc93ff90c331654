//! The legend that explains the table's column abbreviations.
use vstd::prelude::*;
use crate::header::DisplayFlags;

verus! {

/// The legend text that a set of display flags selects: the base entries,
/// then one block per chosen column group.
pub open spec fn legend_chars(df: DisplayFlags) -> Seq<char> {
    "ICAO      : ICAO Address                \nRG        : Registraton Country Code    \nALT B     : Altitude (Barometric)       \nSQWK      : Squawk                      \nCALLSIGN  : Callsign                    \nLATITUDE  : Latitude                    \nLONGITUDE : Longitude                   \nGSP       : Ground Speed                \nTRK       : Track                       \nHDG       : Heading                     \nVRATE     : Vertical Rate               \nLC        : Last Contact                \nW         : Wake Turbulence Category    \n"@
        + (if df.speed_spec() {
        "TAS       : True Air Speed              \nIAS       : Indicated Air Speed         \nMACH      : Mach Number                 \n"@
    } else {
        Seq::empty()
    }) + (if df.angles_spec() {
        "RLL       : Roll Angle                  \n"@
    } else {
        Seq::empty()
    }) + (if df.weather_spec() {
        "TEMP      : Static temperature          \nWND       : Wind Speed                  \nWDR       : Wind Direction              \nHUM       : Humidity                    \nPRES      : Static pressure             \nTB        : Turbulence                  \n"@
    } else {
        Seq::empty()
    }) + (if df.extra_spec() {
        "VX        : Wake Vortex ADS-B Category  \nDF        : Downlink Format             \nTC        : Type Code                   \nV         : ASD-B Version               \nS         : Surveillance Status         \nPTH       : Position, Track, Heaging age\n"@
    } else {
        Seq::empty()
    })
}

/// The rendered legend text.
pub struct Legend {
    pub value: String,
}

impl Legend {
    /// Builds the legend for a set of display flags.
    pub fn from_display_flags(display_flags: &DisplayFlags) -> (r: Self)
        ensures
            r.value@ == legend_chars(*display_flags),
    {
        let mut value = String::new();
        value.append(
            "ICAO      : ICAO Address                \nRG        : Registraton Country Code    \nALT B     : Altitude (Barometric)       \nSQWK      : Squawk                      \nCALLSIGN  : Callsign                    \nLATITUDE  : Latitude                    \nLONGITUDE : Longitude                   \nGSP       : Ground Speed                \nTRK       : Track                       \nHDG       : Heading                     \nVRATE     : Vertical Rate               \nLC        : Last Contact                \nW         : Wake Turbulence Category    \n",
        );
        if display_flags.speed() {
            value.append(
                "TAS       : True Air Speed              \nIAS       : Indicated Air Speed         \nMACH      : Mach Number                 \n",
            );
        }
        if display_flags.angles() {
            value.append("RLL       : Roll Angle                  \n");
        }
        if display_flags.weather() {
            value.append(
                "TEMP      : Static temperature          \nWND       : Wind Speed                  \nWDR       : Wind Direction              \nHUM       : Humidity                    \nPRES      : Static pressure             \nTB        : Turbulence                  \n",
            );
        }
        if display_flags.extra() {
            value.append(
                "VX        : Wake Vortex ADS-B Category  \nDF        : Downlink Format             \nTC        : Type Code                   \nV         : ASD-B Version               \nS         : Surveillance Status         \nPTH       : Position, Track, Heaging age\n",
            );
        }
        proof {
            assert(value@ =~= legend_chars(*display_flags));
        }
        Legend { value }
    }
}

} // verus!

//! Downlink frames: the tagged union over short, extended-squitter and
//! Comm-B frames, and the dispatch from raw lines into it.
use vstd::prelude::*;
use crate::altitude::{altitude, altitude_of};
use crate::bds;
use crate::bds::Capability;
use crate::calc::bits_value;
use crate::fields;
use crate::icao::{get_icao, icao_value};
use crate::message::{get_downlink_format, get_message, hex_nibbles, get_capability};

verus! {

/// Why a raw line yields no frame.
#[derive(Clone, Copy, Debug, PartialEq, Eq, Structural)]
pub enum DecodeError {
    /// The hexadecimal content is not a bare or wrapped squitter length.
    InvalidLength,
    /// A frame whose last 24 bits are pure parity left a non-zero
    /// remainder, so it is corrupted.
    Checksum,
    /// The recovered address is zero, which marks a parity failure.
    NoAddress,
}

/// A short surveillance frame: only the fields its format can carry.
pub struct Srt {
    pub df: Option<u32>,
    pub icao: Option<u32>,
    pub squawk: Option<u32>,
    pub capability: Option<u32>,
    pub altitude: Option<u32>,
}

/// The decoded short frame of a message: the altitude of a DF4, the
/// squawk of a DF5, the capability of a DF11.
pub open spec fn srt_value(m: Seq<u32>) -> Srt {
    let df = bits_value(m, 1, 5) as u32;
    Srt {
        df: Some(df),
        icao: if icao_value(m, df) != 0 {
            Some(icao_value(m, df))
        } else {
            None
        },
        squawk: if df == 5 {
            Some(fields::squawk_value(m))
        } else {
            None
        },
        capability: if df == 11 {
            Some((m[1] & 7) as u32)
        } else {
            None
        },
        altitude: if df == 4 {
            altitude_of(m, df)
        } else {
            None
        },
    }
}

impl Srt {
    /// An empty frame with every field absent.
    pub fn new() -> (r: Self)
        ensures
            r.df is None,
            r.icao is None,
            r.squawk is None,
            r.capability is None,
            r.altitude is None,
    {
        Srt { df: None, icao: None, squawk: None, capability: None, altitude: None }
    }

    /// Decodes a short frame from a message.
    pub fn decode(message: &[u32]) -> (r: Self)
        requires
            crate::valid_message(message@),
        ensures
            r == srt_value(message@),
    {
        let df = match get_downlink_format(message) {
            Some(v) => v,
            None => {
                proof {
                    assert(false);
                }
                0
            },
        };
        let icao = get_icao(message, df);
        let squawk = if df == 5 {
            fields::squawk(message)
        } else {
            None
        };
        let capability = if df == 11 {
            Some(get_capability(message))
        } else {
            None
        };
        let alt = if df == 4 {
            altitude(message, df)
        } else {
            None
        };
        Srt { df: Some(df), icao, squawk, capability, altitude: alt }
    }
}

impl Srt {
    /// An otherwise empty placeholder frame that still carries the
    /// Downlink Format tag, so counters can track unrecognized formats.
    pub fn placeholder(df: u32) -> (r: Self)
        ensures
            r.df == Some(df),
            r.icao is None,
            r.squawk is None,
            r.capability is None,
            r.altitude is None,
    {
        Srt { df: Some(df), icao: None, squawk: None, capability: None, altitude: None }
    }
}

impl Default for Srt {
    /// The empty frame.
    fn default() -> (r: Self)
        ensures
            r.df is None,
            r.icao is None,
            r.squawk is None,
            r.capability is None,
            r.altitude is None,
    {
        Srt::new()
    }
}

/// An extended squitter frame: its address and type code.
pub struct Ext {
    pub df: Option<u32>,
    pub icao: Option<u32>,
    pub message_type: (u32, u32),
}

/// The decoded extended squitter envelope of a message.
pub open spec fn ext_value(m: Seq<u32>) -> Ext {
    let df = bits_value(m, 1, 5) as u32;
    Ext {
        df: Some(df),
        icao: if icao_value(m, df) != 0 {
            Some(icao_value(m, df))
        } else {
            None
        },
        message_type: (((m[8] << 1u32) | (m[9] >> 3u32)) as u32, (m[9] & 7) as u32),
    }
}

impl Ext {
    /// Decodes the envelope of an extended squitter message.
    pub fn decode(message: &[u32]) -> (r: Self)
        requires
            crate::valid_message(message@),
            message@.len() == 28,
        ensures
            r == ext_value(message@),
    {
        let df = match get_downlink_format(message) {
            Some(v) => v,
            None => {
                proof {
                    assert(false);
                }
                0
            },
        };
        let icao = get_icao(message, df);
        let message_type = crate::message::get_message_type(message);
        Ext { df: Some(df), icao, message_type }
    }
}

/// Which Comm-B register a payload classifies as, tried in the fixed
/// priority order 1,7 then 4,0 then 5,0 then 6,0 then 4,4 then 4,5 after
/// the self-identifying registers.
pub open spec fn classify_value(m: Seq<u32>, relaxed: bool) -> (u32, u32) {
    if bds::bds_value(m) != (0u32, 0u32) {
        bds::bds_value(m)
    } else if bds::bds_1_7_accepts(m, relaxed) {
        (1u32, 7u32)
    } else if bds::bds_4_0_consistent(m) && (bds::bds_4_0_mcp(m) is Some || bds::bds_4_0_fms(m)
        is Some) {
        (4u32, 0u32)
    } else if bds::bds_5_0_accepts(m) {
        (5u32, 0u32)
    } else if bds::bds_6_0_accepts(m) {
        (6u32, 0u32)
    } else if bds::bds_4_4_accepts(m) {
        (4u32, 4u32)
    } else if bds::bds_4_5_accepts(m) {
        (4u32, 5u32)
    } else {
        (0u32, 0u32)
    }
}

/// Runs the classifier and reports which register the payload is.
pub fn classify(message: &[u32], relaxed: bool) -> (r: (u32, u32))
    requires
        crate::valid_message(message@),
        message@.len() == 28,
    ensures
        r == classify_value(message@, relaxed),
{
    let reg = bds::bds(message);
    if !(reg.0 == 0 && reg.1 == 0) {
        return reg;
    }
    if bds::is_bds_1_7(message, relaxed).is_some() {
        return (1, 7);
    }
    if bds::is_bds_4_0(message).is_some() {
        return (4, 0);
    }
    if bds::is_bds_5_0(message).is_some() {
        return (5, 0);
    }
    if bds::is_bds_6_0(message).is_some() {
        return (6, 0);
    }
    if bds::is_bds_4_4(message).is_some() {
        return (4, 4);
    }
    if bds::is_bds_4_5(message).is_some() {
        return (4, 5);
    }
    (0, 0)
}

/// A Comm-B frame: the surveillance fields of its envelope and whatever
/// the classified register carries.
pub struct Mds {
    pub df: Option<u32>,
    pub icao: Option<u32>,
    pub altitude: Option<u32>,
    pub ais: Option<String>,
    pub threat_encounter: Option<char>,
    pub capability: Option<Capability>,
    pub selected_altitude: Option<u32>,
    pub target_altitude_source: Option<char>,
    pub barometric_pressure_setting: Option<u32>,
    pub roll_angle: Option<i32>,
    pub track: Option<u32>,
    pub track_angle_rate: Option<i32>,
    pub grspeed: Option<u32>,
    pub true_airspeed: Option<u32>,
    pub track_source: Option<char>,
    pub heading: Option<u32>,
    pub indicated_airspeed: Option<u32>,
    pub mach_number: Option<u32>,
    pub vrate: Option<i32>,
    pub vrate_source: Option<char>,
    pub heading_source: Option<char>,
    pub temperature: Option<i32>,
    pub wind: Option<(u32, u32)>,
    pub humidity: Option<u32>,
    pub turbulence: Option<u32>,
    pub pressure: Option<u32>,
}

impl Mds {
    /// An empty frame with every field absent.
    pub fn new() -> (r: Self)
        ensures
            r.df is None,
            r.icao is None,
            r.altitude is None,
            r.ais is None,
            r.threat_encounter is None,
            r.capability is None,
            r.selected_altitude is None,
            r.target_altitude_source is None,
            r.barometric_pressure_setting is None,
            r.roll_angle is None,
            r.track is None,
            r.track_angle_rate is None,
            r.grspeed is None,
            r.true_airspeed is None,
            r.track_source is None,
            r.heading is None,
            r.indicated_airspeed is None,
            r.mach_number is None,
            r.vrate is None,
            r.vrate_source is None,
            r.heading_source is None,
            r.temperature is None,
            r.wind is None,
            r.humidity is None,
            r.turbulence is None,
            r.pressure is None,
    {
        Mds {
            df: None,
            icao: None,
            altitude: None,
            ais: None,
            threat_encounter: None,
            capability: None,
            selected_altitude: None,
            target_altitude_source: None,
            barometric_pressure_setting: None,
            roll_angle: None,
            track: None,
            track_angle_rate: None,
            grspeed: None,
            true_airspeed: None,
            track_source: None,
            heading: None,
            indicated_airspeed: None,
            mach_number: None,
            vrate: None,
            vrate_source: None,
            heading_source: None,
            temperature: None,
            wind: None,
            humidity: None,
            turbulence: None,
            pressure: None,
        }
    }

    /// Decodes a Comm-B frame: the envelope, then the register chosen by
    /// the classifier, whose fields alone are filled in.
    #[verifier::rlimit(100)]
    pub fn decode(message: &[u32], relaxed: bool) -> (r: Self)
        requires
            crate::valid_message(message@),
            message@.len() == 28,
        ensures
            r.df == Some((bits_value(message@, 1, 5) as u32)),
            r.icao == (if icao_value(message@, bits_value(message@, 1, 5) as u32) != 0 {
                Some(icao_value(message@, bits_value(message@, 1, 5) as u32))
            } else {
                None::<u32>
            }),
            r.altitude == altitude_of(message@, bits_value(message@, 1, 5) as u32),
            r.ais is Some <==> classify_value(message@, relaxed) == (2u32, 0u32),
            r.ais is Some ==> r.ais->0@ == fields::ais_seq(
                message@,
                fields::ais_trim_len(message@, 8),
            ),
            r.threat_encounter == (if classify_value(message@, relaxed) == (3u32, 0u32) {
                fields::threat_encounter_value(message@)
            } else {
                None::<char>
            }),
            r.capability is Some <==> classify_value(message@, relaxed) == (1u32, 7u32),
            classify_value(message@, relaxed) == (4u32, 0u32) ==> r.selected_altitude == (
            match bds::bds_4_0_mcp(message@) {
                Some(x) => Some(x),
                None => bds::bds_4_0_fms(message@),
            }),
            classify_value(message@, relaxed) == (4u32, 0u32) ==> {
                &&& r.barometric_pressure_setting == (
                match bds::barometric_pressure_setting_value(message@) {
                    Some(x) => if 800 <= x <= 1210 {
                        Some(x)
                    } else {
                        None::<u32>
                    },
                    None => None::<u32>,
                })
                &&& r.target_altitude_source is Some
            },
            classify_value(message@, relaxed) != (4u32, 0u32) ==> r.selected_altitude is None
                && r.barometric_pressure_setting is None && r.target_altitude_source is None,
            classify_value(message@, relaxed) == (5u32, 0u32) ==> {
                &&& r.roll_angle == bds::bds_5_0_roll(message@)
                &&& r.track == bds::bds_5_0_track(message@)
                &&& r.track_angle_rate == bds::bds_5_0_track_rate(message@)
                &&& r.grspeed == bds::bds_5_0_gs(message@)
                &&& r.true_airspeed == bds::bds_5_0_tas(message@)
                &&& r.track_source == Some('\u{2085}')
            },
            classify_value(message@, relaxed) != (5u32, 0u32) ==> r.roll_angle is None
                && r.track is None && r.track_angle_rate is None && r.grspeed is None
                && r.true_airspeed is None && r.track_source is None,
            classify_value(message@, relaxed) == (6u32, 0u32) ==> {
                &&& r.heading == bds::bds_6_0_heading(message@)
                &&& r.indicated_airspeed == bds::bds_6_0_ias(message@)
                &&& r.mach_number == bds::bds_6_0_mach(message@)
                &&& r.vrate == (match bds::bds_6_0_bar(message@) {
                    Some(v) => Some(v),
                    None => bds::bds_6_0_ivv(message@),
                })
                &&& r.vrate_source == Some(
                    if bds::bds_6_0_bar(message@) is Some {
                        '\u{2086}'
                    } else {
                        '\u{2071}'
                    },
                )
                &&& r.heading_source == Some('\u{2086}')
            },
            classify_value(message@, relaxed) != (6u32, 0u32) ==> r.heading is None
                && r.indicated_airspeed is None && r.mach_number is None && r.vrate is None
                && r.vrate_source is None && r.heading_source is None,
            classify_value(message@, relaxed) == (4u32, 4u32) ==> {
                &&& r.temperature == Some((bds::bds_4_4_temp(message@) as i32))
                &&& r.wind == bds::bds_4_4_wind(message@)
                &&& r.humidity == bds::bds_4_4_humidity(message@)
                &&& r.turbulence == bds::bds_4_4_turbulence(message@)
                &&& r.pressure == bds::bds_4_4_pressure(message@)
            },
            classify_value(message@, relaxed) != (4u32, 4u32) ==> r.wind is None && r.humidity
                is None && r.turbulence is None && r.pressure is None,
            classify_value(message@, relaxed) == (4u32, 5u32) ==> r.temperature == Some(
                (bds::bds_4_5_temp(message@) as i32),
            ),
            !(classify_value(message@, relaxed) == (4u32, 4u32) || classify_value(
                message@,
                relaxed,
            ) == (4u32, 5u32)) ==> r.temperature is None,
    {
        let mut frame = Mds::new();
        let df = match get_downlink_format(message) {
            Some(v) => v,
            None => {
                proof {
                    assert(false);
                }
                0
            },
        };
        frame.df = Some(df);
        frame.icao = get_icao(message, df);
        frame.altitude = altitude(message, df);
        let mut reg = bds::bds(message);
        if reg.0 == 2 && reg.1 == 0 {
            frame.ais = fields::ais(message);
        }
        if reg.0 == 3 && reg.1 == 0 {
            frame.threat_encounter = fields::threat_encounter(message);
        }
        if reg.0 == 0 && reg.1 == 0 {
            if let Some(result) = bds::is_bds_1_7(message, relaxed) {
                frame.capability = Some(result);
                reg = (1, 7);
            }
        }
        if reg.0 == 0 && reg.1 == 0 {
            if let Some(value) = bds::is_bds_4_0(message) {
                frame.selected_altitude = match value.mcp_selected_altitude {
                    Some(x) => Some(x),
                    None => value.fms_selected_altitude,
                };
                frame.target_altitude_source = match value.target_altitude_source {
                    Some(v) => match v {
                        1 => Some('\u{2081}'),
                        2 => Some('\u{2082}'),
                        3 => Some('\u{2083}'),
                        _ => Some(' '),
                    },
                    _ => Some(' '),
                };
                frame.barometric_pressure_setting = value.barometric_pressure_setting;
                reg = (4, 0);
            }
        }
        if reg.0 == 0 && reg.1 == 0 {
            if let Some(result) = bds::is_bds_5_0(message) {
                frame.roll_angle = result.roll_angle;
                frame.track = result.track_angle;
                frame.track_angle_rate = result.track_angle_rate;
                frame.grspeed = result.ground_speed;
                frame.true_airspeed = result.true_airspeed;
                frame.track_source = Some('\u{2085}');
                reg = (5, 0);
            }
        }
        if reg.0 == 0 && reg.1 == 0 {
            if let Some(result) = bds::is_bds_6_0(message) {
                frame.heading = result.magnetic_heading;
                frame.indicated_airspeed = result.indicated_airspeed;
                frame.mach_number = result.mach_number;
                frame.vrate = match result.barometric_altitude_rate {
                    Some(v) => {
                        frame.vrate_source = Some('\u{2086}');
                        Some(v)
                    },
                    None => {
                        frame.vrate_source = Some('\u{2071}');
                        result.internal_vertical_velocity
                    },
                };
                frame.heading_source = Some('\u{2086}');
                reg = (6, 0);
            }
        }
        if reg.0 == 0 && reg.1 == 0 {
            if let Some(meteo) = bds::is_bds_4_4(message) {
                frame.temperature = meteo.temp;
                if meteo.wind.is_some() {
                    frame.wind = meteo.wind;
                }
                frame.humidity = meteo.humidity;
                frame.turbulence = meteo.turbulence;
                frame.pressure = meteo.pressure;
                reg = (4, 4);
            }
        }
        if reg.0 == 0 && reg.1 == 0 {
            if let Some(t) = bds::is_bds_4_5(message) {
                frame.temperature = Some(t);
                reg = (4, 5);
            }
        }
        frame
    }

    /// Decodes a Comm-B frame with the strict capability checks.
    pub fn from_message(message: &[u32]) -> (r: Self)
        requires
            crate::valid_message(message@),
            message@.len() == 28,
        ensures
            r.df == Some((bits_value(message@, 1, 5) as u32)),
            r.icao == (if icao_value(message@, bits_value(message@, 1, 5) as u32) != 0 {
                Some(icao_value(message@, bits_value(message@, 1, 5) as u32))
            } else {
                None::<u32>
            }),
            r.altitude == altitude_of(message@, bits_value(message@, 1, 5) as u32),
    {
        Mds::decode(message, false)
    }
}

/// The tagged union over the three frame decoders.  Exactly one variant is
/// live per message, chosen by the Downlink Format alone.
pub enum DF {
    SRT(Srt),
    EXT(Ext),
    MDS(Mds),
}

/// Which variant of [`DF`] a Downlink Format value selects: formats up to
/// 16 decode as short frames, 17 as extended squitters, 20 and 21 as
/// Comm-B, and everything else as a placeholder short frame that only
/// carries the format tag.
pub open spec fn df_variant(df: int) -> int {
    if 0 <= df <= 16 {
        0
    } else if df == 17 {
        1
    } else if df == 20 || df == 21 {
        2
    } else {
        3
    }
}

impl DF {
    /// Decodes a message into the frame its Downlink Format selects.
    pub fn decode(message: &[u32], relaxed: bool) -> (r: Self)
        requires
            crate::valid_message(message@),
        ensures
            ({
                let df = bits_value(message@, 1, 5);
                &&& (df_variant(df) == 0 ==> (r matches DF::SRT(s) && s == srt_value(message@)))
                &&& (df_variant(df) == 1 && message@.len() == 28 ==> (r matches DF::EXT(e) && e
                    == ext_value(message@)))
                &&& (df_variant(df) == 2 && message@.len() == 28 ==> (r matches DF::MDS(x)
                    && x.df == Some((df as u32)) && x.icao == (if icao_value(
                    message@,
                    df as u32,
                ) != 0 {
                    Some(icao_value(message@, df as u32))
                } else {
                    None::<u32>
                }) && x.altitude == altitude_of(message@, df as u32)))
                &&& (df_variant(df) != 0 && !(df_variant(df) != 3 && message@.len() == 28)
                    ==> (r matches DF::SRT(s) && s.df == Some((df as u32)) && s.icao is None
                    && s.squawk is None && s.capability is None && s.altitude is None))
            }),
    {
        let df = match get_downlink_format(message) {
            Some(v) => v,
            None => {
                proof {
                    assert(false);
                }
                0
            },
        };
        if df <= 16 {
            DF::SRT(Srt::decode(message))
        } else if df == 17 && message.len() == 28 {
            DF::EXT(Ext::decode(message))
        } else if (df == 20 || df == 21) && message.len() == 28 {
            DF::MDS(Mds::decode(message, relaxed))
        } else {
            DF::SRT(Srt::placeholder(df))
        }
    }

    /// The recovered address of whichever frame is live.
    pub fn icao(&self) -> (r: Option<u32>)
        ensures
            r == match self {
                DF::SRT(s) => s.icao,
                DF::EXT(e) => e.icao,
                DF::MDS(m) => m.icao,
            },
    {
        match self {
            DF::SRT(v) => v.icao,
            DF::EXT(v) => v.icao,
            DF::MDS(v) => v.icao,
        }
    }
}

/// The frame decoders seen as one interface, as the stream reader uses
/// them.
pub trait Downlink: Sized {
    /// Decodes a frame from a well-formed message.
    fn from_message(message: &[u32]) -> (r: Result<Self, &'static str>)
        requires
            crate::valid_message(message@),
    ;

    /// Re-decodes a frame in place from a well-formed message.
    fn update(&mut self, message: &[u32])
        requires
            crate::valid_message(message@),
    ;

    /// The recovered address, if any.
    fn icao(&self) -> Option<u32>;
}

impl Downlink for DF {
    fn from_message(message: &[u32]) -> (r: Result<Self, &'static str>) {
        Ok(DF::decode(message, false))
    }

    fn update(&mut self, message: &[u32]) {
        *self = DF::decode(message, false);
    }

    fn icao(&self) -> Option<u32> {
        DF::icao(self)
    }
}

/// A decoded frame of any one format, as the stream hands it on.
pub struct DownlinkFrame<T: Downlink> {
    pub downlink: T,
}

impl<T: Downlink> DownlinkFrame<T> {
    /// Wraps a decoded frame.
    pub fn new(downlink: T) -> (r: Self)
        ensures
            r.downlink == downlink,
    {
        DownlinkFrame { downlink }
    }
}

/// Decodes one raw line into a frame.
///
/// Framing fails with [`DecodeError::InvalidLength`] exactly when the
/// line's hexadecimal content is no squitter length.  A format whose last
/// 24 bits are pure parity rather than an address overlay must leave a
/// zero checksum remainder, else the frame fails with
/// [`DecodeError::Checksum`]; address recovery fails with
/// [`DecodeError::NoAddress`] exactly when the recovered address is zero.
/// On success the frame variant and its fields follow the Downlink
/// Format.
pub fn decode(line: &str) -> (r: Result<DF, DecodeError>)
    ensures
        ({
            let h = hex_nibbles(line@);
            let framed = h.len() == 14 || h.len() == 26 || h.len() == 28 || h.len() == 40;
            let m = if h.len() == 26 || h.len() == 40 {
                h.skip(12)
            } else {
                h
            };
            let df = bits_value(m, 1, 5) as u32;
            let crc_ok = crate::icao::df_uses_parity_overlay(df) || crate::crc::crc_bits(
                m,
                4 * m.len() as int,
            ) == 0;
            &&& (!framed ==> r == Err::<DF, DecodeError>(DecodeError::InvalidLength))
            &&& (framed && !crc_ok ==> r == Err::<DF, DecodeError>(DecodeError::Checksum))
            &&& (framed && crc_ok && icao_value(m, df) == 0 ==> r == Err::<DF, DecodeError>(
                DecodeError::NoAddress,
            ))
            &&& (framed && crc_ok && icao_value(m, df) != 0 ==> r is Ok)
            &&& (r is Ok ==> {
                let frame = r->Ok_0;
                &&& (df_variant(df as int) == 0 ==> (frame matches DF::SRT(s) && s == srt_value(
                    m,
                )))
                &&& (df_variant(df as int) == 1 && m.len() == 28 ==> (frame matches DF::EXT(e)
                    && e == ext_value(m)))
                &&& (df_variant(df as int) == 2 && m.len() == 28 ==> (frame matches DF::MDS(x)
                    && x.df == Some(df) && x.altitude == altitude_of(m, df)))
                &&& (df_variant(df as int) != 0 && !(df_variant(df as int) != 3 && m.len()
                    == 28) ==> (frame matches DF::SRT(s) && s.df == Some(df) && s.icao is None))
            })
        }),
{
    let message = match get_message(line) {
        Some(m) => m,
        None => {
            return Err(DecodeError::InvalidLength);
        },
    };
    let df = match get_downlink_format(message.as_slice()) {
        Some(v) => v,
        None => {
            proof {
                assert(false);
            }
            0
        },
    };
    let overlay = df == 0 || df == 4 || df == 5 || df == 16 || df == 20 || df == 21;
    if !overlay && crate::crc::reminder(message.as_slice()) != 0 {
        return Err(DecodeError::Checksum);
    }
    if get_icao(message.as_slice(), df).is_none() {
        return Err(DecodeError::NoAddress);
    }
    Ok(DF::decode(message.as_slice(), false))
}

/// The minimal view of a DF20 reply: the address and, once decoded, the
/// altitude.
pub struct Df20 {
    pub icao: Option<u32>,
    pub altitude: Option<u32>,
}

impl Df20 {
    /// An empty frame.
    pub fn new() -> (r: Self)
        ensures
            r.icao is None,
            r.altitude is None,
    {
        Df20 { icao: None, altitude: None }
    }

    /// Reads the address of a Comm-B altitude reply.
    pub fn from_message(message: &[u32]) -> (r: Self)
        requires
            crate::valid_message(message@),
        ensures
            r.icao == (if icao_value(message@, bits_value(message@, 1, 5) as u32) != 0 {
                Some(icao_value(message@, bits_value(message@, 1, 5) as u32))
            } else {
                None::<u32>
            }),
            r.altitude is None,
    {
        let df = match get_downlink_format(message) {
            Some(v) => v,
            None => {
                proof {
                    assert(false);
                }
                0
            },
        };
        Df20 { icao: get_icao(message, df), altitude: None }
    }
}

impl Default for Df20 {
    /// The empty frame.
    fn default() -> (r: Self)
        ensures
            r.icao is None,
            r.altitude is None,
    {
        Df20::new()
    }
}

} // verus!

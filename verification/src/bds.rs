//! Comm-B register classification.
//!
//! DF20/21 payloads do not name their register; each candidate layout is
//! validated against its status-bit consistency rules and value ranges, in
//! a fixed priority order that is part of the decoder's contract.
use vstd::prelude::*;
use crate::calc::{bits_value, lemma_bits_value_bound, msg_bit, get_bit, range_value};

verus! {

/// Rounds `a / b` to the nearest integer, halves away from zero.
pub open spec fn round_div(a: int, b: int) -> int
    recommends
        b > 0,
{
    if a >= 0 {
        (2 * a + b) / (2 * b)
    } else {
        -((2 * (-a) + b) / (2 * b))
    }
}

/// Computes [`round_div`] on machine integers.
pub fn round_div_i64(a: i64, b: i64) -> (r: i64)
    requires
        0 < b <= 1000000,
        -1000000000000000 <= a <= 1000000000000000,
    ensures
        r == round_div(a as int, b as int),
{
    if a >= 0 {
        (2 * a + b) / (2 * b)
    } else {
        -((2 * (-a) + b) / (2 * b))
    }
}

/// Whether a status flag agrees with its gated value range: a set flag
/// over a non-zero range, or a clear flag over an all-zero range.
pub open spec fn goodflags_value(m: Seq<u32>, flag: int, sb: int, eb: int) -> bool {
    (msg_bit(m, flag) == 1) == (bits_value(m, sb, eb) != 0)
}

/// Checks a status flag against the value range it gates.
pub fn goodflags(message: &[u32], flag: u32, sb: u32, eb: u32) -> (r: bool)
    requires
        message@.len() == 28,
        1 <= flag <= 112,
        1 <= sb <= eb <= 112,
        eb - sb < 32,
    ensures
        r == goodflags_value(message@, flag as int, sb as int, eb as int),
{
    let f = get_bit(message, flag);
    let v = match range_value(message, sb, eb) {
        Some(v) => v,
        None => {
            proof {
                assert(false);
            }
            0
        },
    };
    (f == 1) == (v != 0)
}

/// The selected vertical intention of a BDS 4,0 register.
pub struct SelectedVerticalIntention {
    pub mcp_selected_altitude: Option<u32>,
    pub fms_selected_altitude: Option<u32>,
    pub barometric_pressure_setting: Option<u32>,
    pub target_altitude_source: Option<u32>,
}

impl SelectedVerticalIntention {
    /// An empty record with every field absent.
    pub fn new() -> (r: Self)
        ensures
            r.mcp_selected_altitude is None,
            r.fms_selected_altitude is None,
            r.barometric_pressure_setting is None,
            r.target_altitude_source is None,
    {
        SelectedVerticalIntention {
            mcp_selected_altitude: None,
            fms_selected_altitude: None,
            barometric_pressure_setting: None,
            target_altitude_source: None,
        }
    }

    /// Builds a record from already-decoded fields.
    pub fn from_data(
        mcp_selected_altitude: Option<u32>,
        fms_selected_altitude: Option<u32>,
        barometric_pressure_setting: Option<u32>,
        target_altitude_source: Option<u32>,
    ) -> (r: Self)
        ensures
            r.mcp_selected_altitude == mcp_selected_altitude,
            r.fms_selected_altitude == fms_selected_altitude,
            r.barometric_pressure_setting == barometric_pressure_setting,
            r.target_altitude_source == target_altitude_source,
    {
        SelectedVerticalIntention {
            mcp_selected_altitude,
            fms_selected_altitude,
            barometric_pressure_setting,
            target_altitude_source,
        }
    }
}

impl Default for SelectedVerticalIntention {
    /// The empty record.
    fn default() -> (r: Self)
        ensures
            r.mcp_selected_altitude is None,
            r.fms_selected_altitude is None,
            r.barometric_pressure_setting is None,
            r.target_altitude_source is None,
    {
        SelectedVerticalIntention::new()
    }
}

/// The MCP selected altitude in feet, 16-ft steps, gated by its status bit.
pub open spec fn mcp_selected_altitude_value(m: Seq<u32>) -> Option<u32> {
    if msg_bit(m, 33) == 1 {
        Some((bits_value(m, 34, 45) * 16) as u32)
    } else {
        None
    }
}

/// The FMS selected altitude in feet, gated by its status bit.
pub open spec fn fms_selected_altitude_value(m: Seq<u32>) -> Option<u32> {
    if msg_bit(m, 46) == 1 {
        Some((bits_value(m, 47, 58) * 16) as u32)
    } else {
        None
    }
}

/// The barometric pressure setting in millibars, gated by its status bit.
pub open spec fn barometric_pressure_setting_value(m: Seq<u32>) -> Option<u32> {
    if msg_bit(m, 59) == 1 {
        Some(((8000 + bits_value(m, 60, 71)) / 10) as u32)
    } else {
        None
    }
}

/// The target altitude source, gated by its status bit.
pub open spec fn target_altitude_source_value(m: Seq<u32>) -> Option<u32> {
    if msg_bit(m, 86) == 1 {
        Some(bits_value(m, 87, 88) as u32)
    } else {
        None
    }
}

/// Reads the MCP selected altitude field of a BDS 4,0 payload.
pub fn mcp_selected_altitude(message: &[u32]) -> (r: Option<u32>)
    requires
        message@.len() == 28,
    ensures
        r == mcp_selected_altitude_value(message@),
{
    proof {
        lemma_bits_value_bound(message@, 34, 45);
        vstd::arithmetic::power2::lemma2_to64();
    }
    if get_bit(message, 33) == 1 {
        match range_value(message, 34, 45) {
            Some(v) => Some(v * 16),
            None => {
                proof {
                    assert(false);
                }
                None
            },
        }
    } else {
        None
    }
}

/// Reads the FMS selected altitude field of a BDS 4,0 payload.
pub fn fms_selected_altitude(message: &[u32]) -> (r: Option<u32>)
    requires
        message@.len() == 28,
    ensures
        r == fms_selected_altitude_value(message@),
{
    proof {
        lemma_bits_value_bound(message@, 47, 58);
        vstd::arithmetic::power2::lemma2_to64();
    }
    if get_bit(message, 46) == 1 {
        match range_value(message, 47, 58) {
            Some(v) => Some(v * 16),
            None => {
                proof {
                    assert(false);
                }
                None
            },
        }
    } else {
        None
    }
}

/// Reads the barometric pressure setting field of a BDS 4,0 payload.
pub fn barometric_pressure_setting(message: &[u32]) -> (r: Option<u32>)
    requires
        message@.len() == 28,
    ensures
        r == barometric_pressure_setting_value(message@),
{
    proof {
        lemma_bits_value_bound(message@, 60, 71);
        vstd::arithmetic::power2::lemma2_to64();
    }
    if get_bit(message, 59) == 1 {
        match range_value(message, 60, 71) {
            Some(v) => Some((8000 + v) / 10),
            None => {
                proof {
                    assert(false);
                }
                None
            },
        }
    } else {
        None
    }
}

/// Reads the target altitude source field of a BDS 4,0 payload.
pub fn target_altitude_source(message: &[u32]) -> (r: Option<u32>)
    requires
        message@.len() == 28,
    ensures
        r == target_altitude_source_value(message@),
{
    if get_bit(message, 86) == 1 {
        match range_value(message, 87, 88) {
            Some(v) => Some(v),
            None => {
                proof {
                    assert(false);
                }
                None
            },
        }
    } else {
        None
    }
}

/// Keeps a decoded value only when it lies inside an inclusive range.
fn filter_range(v: Option<u32>, lo: u32, hi: u32) -> (r: Option<u32>)
    ensures
        r == match v {
            Some(x) => if lo <= x <= hi {
                Some(x)
            } else {
                None::<u32>
            },
            None => None::<u32>,
        },
{
    match v {
        Some(x) => if lo <= x && x <= hi {
            Some(x)
        } else {
            None
        },
        None => None,
    }
}

/// Whether a payload passes the BDS 4,0 consistency checks: each selected
/// altitude and the pressure setting agree with their status bits, and the
/// reserved ranges are quiet.
pub open spec fn bds_4_0_consistent(m: Seq<u32>) -> bool {
    &&& goodflags_value(m, 33, 34, 45)
    &&& goodflags_value(m, 46, 47, 58)
    &&& goodflags_value(m, 59, 60, 71)
    &&& !goodflags_value(m, 33, 72, 79)
    &&& !goodflags_value(m, 33, 84, 85)
}

/// The in-range MCP altitude that BDS 4,0 accepts.
pub open spec fn bds_4_0_mcp(m: Seq<u32>) -> Option<u32> {
    match mcp_selected_altitude_value(m) {
        Some(x) => if x <= 65530 {
            Some(x)
        } else {
            None
        },
        None => None,
    }
}

/// The in-range FMS altitude that BDS 4,0 accepts.
pub open spec fn bds_4_0_fms(m: Seq<u32>) -> Option<u32> {
    match fms_selected_altitude_value(m) {
        Some(x) => if x <= 65530 {
            Some(x)
        } else {
            None
        },
        None => None,
    }
}

/// Classifies a payload as the BDS 4,0 selected-vertical-intention
/// register.
///
/// Acceptance demands the consistency checks and at least one selected
/// altitude inside its plausible range; the pressure setting and target
/// altitude source are kept only inside theirs.
pub fn is_bds_4_0(message: &[u32]) -> (r: Option<SelectedVerticalIntention>)
    requires
        message@.len() == 28,
    ensures
        r is Some <==> (bds_4_0_consistent(message@) && (bds_4_0_mcp(message@) is Some
            || bds_4_0_fms(message@) is Some)),
        r is Some ==> ({
            let v = r->0;
            &&& v.mcp_selected_altitude == bds_4_0_mcp(message@)
            &&& v.fms_selected_altitude == bds_4_0_fms(message@)
            &&& v.barometric_pressure_setting == match barometric_pressure_setting_value(
                message@,
            ) {
                Some(x) => if 800 <= x <= 1210 {
                    Some(x)
                } else {
                    None::<u32>
                },
                None => None::<u32>,
            }
            &&& v.target_altitude_source == target_altitude_source_value(message@)
        }),
{
    if !goodflags(message, 33, 34, 45) || !goodflags(message, 46, 47, 58) || !goodflags(
        message,
        59,
        60,
        71,
    ) || goodflags(message, 33, 72, 79) || goodflags(message, 33, 84, 85) {
        return None;
    }
    proof {
        lemma_bits_value_bound(message@, 87, 88);
        vstd::arithmetic::power2::lemma2_to64();
    }
    let intent = SelectedVerticalIntention::from_data(
        filter_range(mcp_selected_altitude(message), 0, 65530),
        filter_range(fms_selected_altitude(message), 0, 65530),
        filter_range(barometric_pressure_setting(message), 800, 1210),
        filter_range(target_altitude_source(message), 0, 3),
    );
    if intent.mcp_selected_altitude.is_some() || intent.fms_selected_altitude.is_some() {
        Some(intent)
    } else {
        None
    }
}

/// The common-usage capability report of a BDS 1,7 register: the raw
/// 24-bit flag field and the flags of the registers the tracker reads.
pub struct Capability {
    pub flags: u32,
    pub bds20: bool,
    pub bds40: bool,
    pub bds50: bool,
    pub bds60: bool,
}

/// Whether a payload passes the BDS 1,7 checks: the reserved tail is
/// quiet, some capability is declared, and, unless `relaxed`, the three
/// EHS registers are all declared.
pub open spec fn bds_1_7_accepts(m: Seq<u32>, relaxed: bool) -> bool {
    &&& bits_value(m, 57, 88) == 0
    &&& bits_value(m, 33, 56) != 0
    &&& (relaxed || (msg_bit(m, 41) == 1 && msg_bit(m, 48) == 1 && msg_bit(m, 56) == 1))
}

/// Classifies a payload as the BDS 1,7 capability report.
///
/// The strict mode demands that the register declares the three EHS
/// registers 4,0, 5,0 and 6,0; the relaxed mode drops that demand for
/// feeds whose capability declarations are known to be wrong.
pub fn is_bds_1_7(message: &[u32], relaxed: bool) -> (r: Option<Capability>)
    requires
        message@.len() == 28,
    ensures
        r is Some <==> bds_1_7_accepts(message@, relaxed),
        r is Some ==> ({
            let c = r->0;
            &&& c.flags == bits_value(message@, 33, 56)
            &&& c.bds20 == (msg_bit(message@, 39) == 1)
            &&& c.bds40 == (msg_bit(message@, 41) == 1)
            &&& c.bds50 == (msg_bit(message@, 48) == 1)
            &&& c.bds60 == (msg_bit(message@, 56) == 1)
        }),
{
    let flags = match range_value(message, 33, 56) {
        Some(v) => v,
        None => {
            proof {
                assert(false);
            }
            0
        },
    };
    let reserved = match range_value(message, 57, 88) {
        Some(v) => v,
        None => {
            proof {
                assert(false);
            }
            0
        },
    };
    if reserved != 0 || flags == 0 {
        return None;
    }
    let bds40 = get_bit(message, 41) == 1;
    let bds50 = get_bit(message, 48) == 1;
    let bds60 = get_bit(message, 56) == 1;
    if !relaxed && !(bds40 && bds50 && bds60) {
        return None;
    }
    Some(
        Capability {
            flags,
            bds20: get_bit(message, 39) == 1,
            bds40,
            bds50,
            bds60,
        },
    )
}

/// The track-and-turn report of a BDS 5,0 register; angles in whole
/// degrees, speeds in knots.
pub struct TrackAndTurn {
    pub roll_angle: Option<i32>,
    pub track_angle: Option<u32>,
    pub track_angle_rate: Option<i32>,
    pub ground_speed: Option<u32>,
    pub true_airspeed: Option<u32>,
}

/// The roll angle in whole degrees, negative left wing down.
pub open spec fn bds_5_0_roll(m: Seq<u32>) -> Option<i32> {
    if msg_bit(m, 33) == 1 {
        let v = if msg_bit(m, 34) == 1 {
            bits_value(m, 35, 43) - 512
        } else {
            bits_value(m, 35, 43)
        };
        Some(round_div(v * 45, 256) as i32)
    } else {
        None
    }
}

/// The true track angle in whole degrees clockwise from north.
pub open spec fn bds_5_0_track(m: Seq<u32>) -> Option<u32> {
    if msg_bit(m, 44) == 1 {
        let v = if msg_bit(m, 45) == 1 {
            bits_value(m, 46, 55) - 1024
        } else {
            bits_value(m, 46, 55)
        };
        let d = round_div(v * 90, 512);
        Some((if d < 0 {
            d + 360
        } else {
            d
        }) as u32)
    } else {
        None
    }
}

/// The track angle rate in whole degrees per second.
pub open spec fn bds_5_0_track_rate(m: Seq<u32>) -> Option<i32> {
    if msg_bit(m, 67) == 1 {
        let v = if msg_bit(m, 68) == 1 {
            bits_value(m, 69, 77) - 512
        } else {
            bits_value(m, 69, 77)
        };
        Some(round_div(v, 32) as i32)
    } else {
        None
    }
}

/// The ground speed in knots, 2-kt steps.
pub open spec fn bds_5_0_gs(m: Seq<u32>) -> Option<u32> {
    if msg_bit(m, 56) == 1 {
        Some((bits_value(m, 57, 66) * 2) as u32)
    } else {
        None
    }
}

/// The true airspeed in knots, 2-kt steps.
pub open spec fn bds_5_0_tas(m: Seq<u32>) -> Option<u32> {
    if msg_bit(m, 78) == 1 {
        Some((bits_value(m, 79, 88) * 2) as u32)
    } else {
        None
    }
}

/// Whether a payload passes the BDS 5,0 checks: every status flag agrees
/// with its range, the speeds are plausible, the roll is shallow, and a
/// track or ground speed is present.
pub open spec fn bds_5_0_accepts(m: Seq<u32>) -> bool {
    &&& goodflags_value(m, 33, 34, 43)
    &&& goodflags_value(m, 44, 45, 55)
    &&& goodflags_value(m, 56, 57, 66)
    &&& goodflags_value(m, 67, 68, 77)
    &&& goodflags_value(m, 78, 79, 88)
    &&& match bds_5_0_gs(m) {
        Some(x) => x <= 600,
        None => true,
    }
    &&& match bds_5_0_tas(m) {
        Some(x) => x <= 500,
        None => true,
    }
    &&& match bds_5_0_roll(m) {
        Some(x) => -50 <= x <= 50,
        None => true,
    }
    &&& (bds_5_0_gs(m) is Some || bds_5_0_track(m) is Some)
}

/// Classifies a payload as the BDS 5,0 track-and-turn register.
pub fn is_bds_5_0(message: &[u32]) -> (r: Option<TrackAndTurn>)
    requires
        message@.len() == 28,
    ensures
        r is Some <==> bds_5_0_accepts(message@),
        r is Some ==> ({
            let t = r->0;
            &&& t.roll_angle == bds_5_0_roll(message@)
            &&& t.track_angle == bds_5_0_track(message@)
            &&& t.track_angle_rate == bds_5_0_track_rate(message@)
            &&& t.ground_speed == bds_5_0_gs(message@)
            &&& t.true_airspeed == bds_5_0_tas(message@)
        }),
{
    if !goodflags(message, 33, 34, 43) || !goodflags(message, 44, 45, 55) || !goodflags(
        message,
        56,
        57,
        66,
    ) || !goodflags(message, 67, 68, 77) || !goodflags(message, 78, 79, 88) {
        return None;
    }
    proof {
        lemma_bits_value_bound(message@, 35, 43);
        lemma_bits_value_bound(message@, 46, 55);
        lemma_bits_value_bound(message@, 69, 77);
        lemma_bits_value_bound(message@, 57, 66);
        lemma_bits_value_bound(message@, 79, 88);
        vstd::arithmetic::power2::lemma2_to64();
    }
    let roll_angle: Option<i32> = if get_bit(message, 33) == 1 {
        let raw = match range_value(message, 35, 43) {
            Some(v) => v,
            None => {
                proof {
                    assert(false);
                }
                0
            },
        };
        let v: i64 = if get_bit(message, 34) == 1 {
            raw as i64 - 512
        } else {
            raw as i64
        };
        Some(round_div_i64(v * 45, 256) as i32)
    } else {
        None
    };
    let track_angle: Option<u32> = if get_bit(message, 44) == 1 {
        let raw = match range_value(message, 46, 55) {
            Some(v) => v,
            None => {
                proof {
                    assert(false);
                }
                0
            },
        };
        let v: i64 = if get_bit(message, 45) == 1 {
            raw as i64 - 1024
        } else {
            raw as i64
        };
        let d = round_div_i64(v * 90, 512);
        Some((if d < 0 {
            d + 360
        } else {
            d
        }) as u32)
    } else {
        None
    };
    let track_angle_rate: Option<i32> = if get_bit(message, 67) == 1 {
        let raw = match range_value(message, 69, 77) {
            Some(v) => v,
            None => {
                proof {
                    assert(false);
                }
                0
            },
        };
        let v: i64 = if get_bit(message, 68) == 1 {
            raw as i64 - 512
        } else {
            raw as i64
        };
        Some(round_div_i64(v, 32) as i32)
    } else {
        None
    };
    let ground_speed: Option<u32> = if get_bit(message, 56) == 1 {
        match range_value(message, 57, 66) {
            Some(v) => Some(v * 2),
            None => {
                proof {
                    assert(false);
                }
                None
            },
        }
    } else {
        None
    };
    let true_airspeed: Option<u32> = if get_bit(message, 78) == 1 {
        match range_value(message, 79, 88) {
            Some(v) => Some(v * 2),
            None => {
                proof {
                    assert(false);
                }
                None
            },
        }
    } else {
        None
    };
    match ground_speed {
        Some(x) => if x > 600 {
            return None;
        },
        None => {},
    }
    match true_airspeed {
        Some(x) => if x > 500 {
            return None;
        },
        None => {},
    }
    match roll_angle {
        Some(x) => if x < -50 || x > 50 {
            return None;
        },
        None => {},
    }
    if ground_speed.is_none() && track_angle.is_none() {
        return None;
    }
    Some(TrackAndTurn { roll_angle, track_angle, track_angle_rate, ground_speed, true_airspeed })
}

/// The heading-and-speed report of a BDS 6,0 register; the Mach number in
/// thousandths, the vertical rates in feet per minute.
pub struct HeadingAndSpeed {
    pub magnetic_heading: Option<u32>,
    pub indicated_airspeed: Option<u32>,
    pub mach_number: Option<u32>,
    pub barometric_altitude_rate: Option<i32>,
    pub internal_vertical_velocity: Option<i32>,
}

/// The magnetic heading in whole degrees clockwise from north.
pub open spec fn bds_6_0_heading(m: Seq<u32>) -> Option<u32> {
    if msg_bit(m, 33) == 1 {
        let v = if msg_bit(m, 34) == 1 {
            bits_value(m, 35, 44) - 1024
        } else {
            bits_value(m, 35, 44)
        };
        let d = round_div(v * 90, 512);
        Some((if d < 0 {
            d + 360
        } else {
            d
        }) as u32)
    } else {
        None
    }
}

/// The indicated airspeed in knots.
pub open spec fn bds_6_0_ias(m: Seq<u32>) -> Option<u32> {
    if msg_bit(m, 45) == 1 {
        Some(bits_value(m, 46, 55) as u32)
    } else {
        None
    }
}

/// The Mach number in thousandths.
pub open spec fn bds_6_0_mach(m: Seq<u32>) -> Option<u32> {
    if msg_bit(m, 56) == 1 {
        Some((bits_value(m, 57, 66) * 4) as u32)
    } else {
        None
    }
}

/// The barometric altitude rate in feet per minute, 32-ft/min steps.
pub open spec fn bds_6_0_bar(m: Seq<u32>) -> Option<i32> {
    if msg_bit(m, 67) == 1 {
        let v = if msg_bit(m, 68) == 1 {
            bits_value(m, 69, 77) - 512
        } else {
            bits_value(m, 69, 77)
        };
        Some((v * 32) as i32)
    } else {
        None
    }
}

/// The inertial vertical velocity in feet per minute, 32-ft/min steps.
pub open spec fn bds_6_0_ivv(m: Seq<u32>) -> Option<i32> {
    if msg_bit(m, 78) == 1 {
        let v = if msg_bit(m, 79) == 1 {
            bits_value(m, 80, 88) - 512
        } else {
            bits_value(m, 80, 88)
        };
        Some((v * 32) as i32)
    } else {
        None
    }
}

/// Whether a payload passes the BDS 6,0 checks: status flags agree with
/// their ranges, the speeds and rates are plausible, and a heading or an
/// airspeed is present.
pub open spec fn bds_6_0_accepts(m: Seq<u32>) -> bool {
    &&& goodflags_value(m, 33, 34, 44)
    &&& goodflags_value(m, 45, 46, 55)
    &&& goodflags_value(m, 56, 57, 66)
    &&& goodflags_value(m, 67, 68, 77)
    &&& goodflags_value(m, 78, 79, 88)
    &&& match bds_6_0_ias(m) {
        Some(x) => x <= 500,
        None => true,
    }
    &&& match bds_6_0_mach(m) {
        Some(x) => x <= 1000,
        None => true,
    }
    &&& match bds_6_0_bar(m) {
        Some(x) => -6000 <= x <= 6000,
        None => true,
    }
    &&& match bds_6_0_ivv(m) {
        Some(x) => -6000 <= x <= 6000,
        None => true,
    }
    &&& (bds_6_0_heading(m) is Some || bds_6_0_ias(m) is Some)
}

/// Classifies a payload as the BDS 6,0 heading-and-speed register.
pub fn is_bds_6_0(message: &[u32]) -> (r: Option<HeadingAndSpeed>)
    requires
        message@.len() == 28,
    ensures
        r is Some <==> bds_6_0_accepts(message@),
        r is Some ==> ({
            let t = r->0;
            &&& t.magnetic_heading == bds_6_0_heading(message@)
            &&& t.indicated_airspeed == bds_6_0_ias(message@)
            &&& t.mach_number == bds_6_0_mach(message@)
            &&& t.barometric_altitude_rate == bds_6_0_bar(message@)
            &&& t.internal_vertical_velocity == bds_6_0_ivv(message@)
        }),
{
    if !goodflags(message, 33, 34, 44) || !goodflags(message, 45, 46, 55) || !goodflags(
        message,
        56,
        57,
        66,
    ) || !goodflags(message, 67, 68, 77) || !goodflags(message, 78, 79, 88) {
        return None;
    }
    proof {
        lemma_bits_value_bound(message@, 35, 44);
        lemma_bits_value_bound(message@, 46, 55);
        lemma_bits_value_bound(message@, 57, 66);
        lemma_bits_value_bound(message@, 69, 77);
        lemma_bits_value_bound(message@, 80, 88);
        vstd::arithmetic::power2::lemma2_to64();
    }
    let magnetic_heading: Option<u32> = if get_bit(message, 33) == 1 {
        let raw = match range_value(message, 35, 44) {
            Some(v) => v,
            None => {
                proof {
                    assert(false);
                }
                0
            },
        };
        let v: i64 = if get_bit(message, 34) == 1 {
            raw as i64 - 1024
        } else {
            raw as i64
        };
        let d = round_div_i64(v * 90, 512);
        Some((if d < 0 {
            d + 360
        } else {
            d
        }) as u32)
    } else {
        None
    };
    let indicated_airspeed: Option<u32> = if get_bit(message, 45) == 1 {
        match range_value(message, 46, 55) {
            Some(v) => Some(v),
            None => {
                proof {
                    assert(false);
                }
                None
            },
        }
    } else {
        None
    };
    let mach_number: Option<u32> = if get_bit(message, 56) == 1 {
        match range_value(message, 57, 66) {
            Some(v) => Some(v * 4),
            None => {
                proof {
                    assert(false);
                }
                None
            },
        }
    } else {
        None
    };
    let barometric_altitude_rate: Option<i32> = if get_bit(message, 67) == 1 {
        let raw = match range_value(message, 69, 77) {
            Some(v) => v,
            None => {
                proof {
                    assert(false);
                }
                0
            },
        };
        let v: i64 = if get_bit(message, 68) == 1 {
            raw as i64 - 512
        } else {
            raw as i64
        };
        Some((v * 32) as i32)
    } else {
        None
    };
    let internal_vertical_velocity: Option<i32> = if get_bit(message, 78) == 1 {
        let raw = match range_value(message, 80, 88) {
            Some(v) => v,
            None => {
                proof {
                    assert(false);
                }
                0
            },
        };
        let v: i64 = if get_bit(message, 79) == 1 {
            raw as i64 - 512
        } else {
            raw as i64
        };
        Some((v * 32) as i32)
    } else {
        None
    };
    match indicated_airspeed {
        Some(x) => if x > 500 {
            return None;
        },
        None => {},
    }
    match mach_number {
        Some(x) => if x > 1000 {
            return None;
        },
        None => {},
    }
    match barometric_altitude_rate {
        Some(x) => if x < -6000 || x > 6000 {
            return None;
        },
        None => {},
    }
    match internal_vertical_velocity {
        Some(x) => if x < -6000 || x > 6000 {
            return None;
        },
        None => {},
    }
    if magnetic_heading.is_none() && indicated_airspeed.is_none() {
        return None;
    }
    Some(
        HeadingAndSpeed {
            magnetic_heading,
            indicated_airspeed,
            mach_number,
            barometric_altitude_rate,
            internal_vertical_velocity,
        },
    )
}

/// The meteorological report of a BDS 4,4 register; the temperature in
/// hundredths of a degree Celsius, wind in knots and whole degrees.
pub struct Meteo {
    pub temp: Option<i32>,
    pub wind: Option<(u32, u32)>,
    pub humidity: Option<u32>,
    pub turbulence: Option<u32>,
    pub pressure: Option<u32>,
}

/// The wind speed and direction, gated by the wind status bit.
pub open spec fn bds_4_4_wind(m: Seq<u32>) -> Option<(u32, u32)> {
    if msg_bit(m, 37) == 1 {
        Some(
            (
                bits_value(m, 38, 46) as u32,
                round_div(bits_value(m, 47, 55) * 180, 256) as u32,
            ),
        )
    } else {
        None
    }
}

/// The static air temperature in hundredths of a degree Celsius.
pub open spec fn bds_4_4_temp(m: Seq<u32>) -> int {
    let v = if msg_bit(m, 56) == 1 {
        bits_value(m, 57, 66) - 1024
    } else {
        bits_value(m, 57, 66)
    };
    v * 25
}

/// The average static pressure in hectopascals, gated by its status bit.
pub open spec fn bds_4_4_pressure(m: Seq<u32>) -> Option<u32> {
    if msg_bit(m, 67) == 1 {
        Some(bits_value(m, 68, 78) as u32)
    } else {
        None
    }
}

/// The turbulence level, gated by its status bit.
pub open spec fn bds_4_4_turbulence(m: Seq<u32>) -> Option<u32> {
    if msg_bit(m, 79) == 1 {
        Some(bits_value(m, 80, 81) as u32)
    } else {
        None
    }
}

/// The relative humidity in percent, gated by its status bit.
pub open spec fn bds_4_4_humidity(m: Seq<u32>) -> Option<u32> {
    if msg_bit(m, 82) == 1 {
        Some(round_div(bits_value(m, 83, 88) * 100, 64) as u32)
    } else {
        None
    }
}

/// Whether a payload passes the BDS 4,4 checks: status flags agree with
/// their ranges, the wind is present and plausible, and the temperature
/// is inside the plausible band.
pub open spec fn bds_4_4_accepts(m: Seq<u32>) -> bool {
    &&& goodflags_value(m, 37, 38, 55)
    &&& goodflags_value(m, 67, 68, 78)
    &&& goodflags_value(m, 79, 80, 81)
    &&& goodflags_value(m, 82, 83, 88)
    &&& bds_4_4_wind(m) is Some
    &&& (bds_4_4_wind(m)->0).0 <= 250
    &&& -8000 <= bds_4_4_temp(m) <= 6000
}

/// Classifies a payload as the BDS 4,4 meteorological register.
pub fn is_bds_4_4(message: &[u32]) -> (r: Option<Meteo>)
    requires
        message@.len() == 28,
    ensures
        r is Some <==> bds_4_4_accepts(message@),
        r is Some ==> ({
            let t = r->0;
            &&& t.temp == Some(bds_4_4_temp(message@) as i32)
            &&& t.wind == bds_4_4_wind(message@)
            &&& t.humidity == bds_4_4_humidity(message@)
            &&& t.turbulence == bds_4_4_turbulence(message@)
            &&& t.pressure == bds_4_4_pressure(message@)
        }),
{
    if !goodflags(message, 37, 38, 55) || !goodflags(message, 67, 68, 78) || !goodflags(
        message,
        79,
        80,
        81,
    ) || !goodflags(message, 82, 83, 88) {
        return None;
    }
    proof {
        lemma_bits_value_bound(message@, 38, 46);
        lemma_bits_value_bound(message@, 47, 55);
        lemma_bits_value_bound(message@, 57, 66);
        lemma_bits_value_bound(message@, 68, 78);
        lemma_bits_value_bound(message@, 80, 81);
        lemma_bits_value_bound(message@, 83, 88);
        vstd::arithmetic::power2::lemma2_to64();
    }
    let wind: Option<(u32, u32)> = if get_bit(message, 37) == 1 {
        let speed = match range_value(message, 38, 46) {
            Some(v) => v,
            None => {
                proof {
                    assert(false);
                }
                0
            },
        };
        let dir_raw = match range_value(message, 47, 55) {
            Some(v) => v,
            None => {
                proof {
                    assert(false);
                }
                0
            },
        };
        let dir = round_div_i64((dir_raw as i64) * 180, 256) as u32;
        Some((speed, dir))
    } else {
        None
    };
    let wind = match wind {
        Some((s, d)) => {
            if s > 250 {
                return None;
            }
            Some((s, d))
        },
        None => {
            return None;
        },
    };
    let traw = match range_value(message, 57, 66) {
        Some(v) => v,
        None => {
            proof {
                assert(false);
            }
            0
        },
    };
    let tv: i64 = if get_bit(message, 56) == 1 {
        traw as i64 - 1024
    } else {
        traw as i64
    };
    let temp_centi = tv * 25;
    if temp_centi < -8000 || temp_centi > 6000 {
        return None;
    }
    let pressure: Option<u32> = if get_bit(message, 67) == 1 {
        match range_value(message, 68, 78) {
            Some(v) => Some(v),
            None => {
                proof {
                    assert(false);
                }
                None
            },
        }
    } else {
        None
    };
    let turbulence: Option<u32> = if get_bit(message, 79) == 1 {
        match range_value(message, 80, 81) {
            Some(v) => Some(v),
            None => {
                proof {
                    assert(false);
                }
                None
            },
        }
    } else {
        None
    };
    let humidity: Option<u32> = if get_bit(message, 82) == 1 {
        let h = match range_value(message, 83, 88) {
            Some(v) => v,
            None => {
                proof {
                    assert(false);
                }
                0
            },
        };
        Some(round_div_i64((h as i64) * 100, 64) as u32)
    } else {
        None
    };
    Some(Meteo { temp: Some(temp_centi as i32), wind, humidity, turbulence, pressure })
}

/// The static air temperature of a BDS 4,5 register, in hundredths of a
/// degree Celsius.
pub open spec fn bds_4_5_temp(m: Seq<u32>) -> int {
    let v = if msg_bit(m, 49) == 1 {
        bits_value(m, 50, 58) - 512
    } else {
        bits_value(m, 50, 58)
    };
    v * 25
}

/// Whether a payload passes the BDS 4,5 checks: a quiet reserved tail,
/// status flags that agree with their ranges, and a present, plausible
/// temperature.
pub open spec fn bds_4_5_accepts(m: Seq<u32>) -> bool {
    &&& bits_value(m, 84, 88) == 0
    &&& goodflags_value(m, 48, 49, 58)
    &&& goodflags_value(m, 59, 60, 70)
    &&& goodflags_value(m, 71, 72, 83)
    &&& msg_bit(m, 48) == 1
    &&& -8000 <= bds_4_5_temp(m) <= 6000
}

/// Classifies a payload as the BDS 4,5 meteorological-hazard register and
/// yields its static air temperature.
pub fn is_bds_4_5(message: &[u32]) -> (r: Option<i32>)
    requires
        message@.len() == 28,
    ensures
        r is Some <==> bds_4_5_accepts(message@),
        r is Some ==> r->0 == bds_4_5_temp(message@),
{
    let reserved = match range_value(message, 84, 88) {
        Some(v) => v,
        None => {
            proof {
                assert(false);
            }
            0
        },
    };
    if reserved != 0 {
        return None;
    }
    if !goodflags(message, 48, 49, 58) || !goodflags(message, 59, 60, 70) || !goodflags(
        message,
        71,
        72,
        83,
    ) {
        return None;
    }
    if get_bit(message, 48) != 1 {
        return None;
    }
    proof {
        lemma_bits_value_bound(message@, 50, 58);
        vstd::arithmetic::power2::lemma2_to64();
    }
    let traw = match range_value(message, 50, 58) {
        Some(v) => v,
        None => {
            proof {
                assert(false);
            }
            0
        },
    };
    let tv: i64 = if get_bit(message, 49) == 1 {
        traw as i64 - 512
    } else {
        traw as i64
    };
    let temp_centi = tv * 25;
    if temp_centi < -8000 || temp_centi > 6000 {
        return None;
    }
    Some(temp_centi as i32)
}

/// The self-identifying Comm-B registers: BDS 2,0 and 3,0 announce
/// themselves in their first byte; everything else reads as unclassified.
pub open spec fn bds_value(m: Seq<u32>) -> (u32, u32) {
    if bits_value(m, 33, 40) == 0x20 {
        (2u32, 0u32)
    } else if bits_value(m, 33, 40) == 0x30 {
        (3u32, 0u32)
    } else {
        (0u32, 0u32)
    }
}

/// Reads the self-identifying register number of a Comm-B payload.
pub fn bds(message: &[u32]) -> (r: (u32, u32))
    requires
        message@.len() == 28,
    ensures
        r == bds_value(message@),
{
    let first = match range_value(message, 33, 40) {
        Some(v) => v,
        None => {
            proof {
                assert(false);
            }
            0
        },
    };
    if first == 0x20 {
        (2, 0)
    } else if first == 0x30 {
        (3, 0)
    } else {
        (0, 0)
    }
}

} // verus!

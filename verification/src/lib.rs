//! Decoding of Mode S / ADS-B squitter messages and a live aircraft table.
use vstd::prelude::*;

pub mod altitude;
pub mod arguments;
pub mod bds;
pub mod calc;
pub mod cpr;
pub mod crc;
pub mod errors;
pub mod fields;
pub mod fmt;
pub mod frames;
pub mod gray;
pub mod header;
pub mod icao;
pub mod legend;
pub mod message;
pub mod observer;
pub mod plane;
pub mod planes;
pub mod reader;
pub mod velocity;

pub use arguments::Args;
pub use bds::{is_bds_1_7, is_bds_4_0, is_bds_4_4, is_bds_4_5, is_bds_5_0, is_bds_6_0,
    SelectedVerticalIntention};
pub use calc::{bit_location, flag_and_range_value, range_value, status_flag_and_range_value};
pub use errors::{AppError, AppResult};
pub use frames::{decode, DecodeError, Df20, DownlinkFrame, Downlink, DF, Ext, Mds, Srt};
pub use gray::graytobin;
pub use header::{get_header, DisplayFlags, LegendHeaders};
pub use icao::{get_icao, get_wake_turbulence_category};
pub use legend::Legend;
pub use message::{clean_squitter, df, get_capability, get_downlink_format, get_message,
    get_hex_message, get_message_type, message};
pub use observer::{set_observer_coords_from_str, Coordinates};
pub use plane::{format_simple_display, Plane, SimpleDisplay, SimpleDisplayWrapper};
pub use planes::Planes;
pub use reader::{now_seconds, process_line, process_line_now};

verus! {

/// A squitter message is a sequence of 4-bit nibbles; a well-formed message
/// holds exactly 14 (56-bit) or 28 (112-bit) nibbles, each below 16.
pub open spec fn valid_message(m: Seq<u32>) -> bool {
    (m.len() == 14 || m.len() == 28) && forall|i: int| 0 <= i < m.len() ==> m[i] < 16
}

} // verus!

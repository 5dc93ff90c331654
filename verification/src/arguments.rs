//! The run configuration, as plain data.
//!
//! Command-line parsing itself stays outside the library; whoever parses
//! hands the values over in this shape.
use vstd::prelude::*;

verus! {

/// Every knob the stream loop and the display read.
pub struct Args {
    /// Count squitters by type.
    pub count_df: bool,
    /// Display column selections.
    pub display: Vec<String>,
    /// Where to log decoded downlink frames, if anywhere.
    pub downlink_log: Option<String>,
    /// Where to log decode errors, if anywhere.
    pub error_log: Option<String>,
    /// Process only these Downlink Formats, when set.
    pub filter: Option<Vec<u32>>,
    /// The input format override, when set.
    pub format: Option<String>,
    /// Log raw lines of these Downlink Formats, when set.
    pub log_messages: Option<Vec<u32>>,
    /// Sort orders for the table.
    pub order_by: Vec<String>,
    /// The observer position string, when set.
    pub observer_coord: Option<String>,
    /// Loosen the capability checks of the Comm-B classifier.
    pub relaxed: bool,
    /// The replay file to read.
    pub source: String,
    /// The network source, when not empty.
    pub tcp: String,
    /// Seconds between display refreshes.
    pub update: i64,
    /// Merge with the full message decoder for every format.
    pub use_update_method: bool,
}

impl Args {
    /// An empty configuration: every switch off, every list empty, the
    /// refresh interval at its usual three seconds.  Whoever parses the
    /// command line fills the rest in.
    pub fn new() -> (r: Self)
        ensures
            !r.count_df,
            !r.relaxed,
            !r.use_update_method,
            r.update == 3,
            r.filter is None,
            r.downlink_log is None,
            r.error_log is None,
    {
        Args {
            count_df: false,
            display: Vec::new(),
            downlink_log: None,
            error_log: None,
            filter: None,
            format: None,
            log_messages: None,
            order_by: Vec::new(),
            observer_coord: None,
            relaxed: false,
            source: String::new(),
            tcp: String::new(),
            update: 3,
            use_update_method: false,
        }
    }
}

impl Default for Args {
    /// The default configuration.
    fn default() -> (r: Self)
        ensures
            !r.count_df,
            !r.relaxed,
            !r.use_update_method,
    {
        Args::new()
    }
}

} // verus!

//! Host telemetry sampling and reporting: ranking of processes, redaction of
//! the user's identity, snapshot formatting and the planning of sink writes.
use vstd::prelude::*;

pub mod metrics;
pub mod ranker;
pub mod redact;
pub mod sinks;
pub mod stats;
pub mod text;

verus! {

/// The renderings of a snapshot.
pub enum Format {
    /// One line of comma-separated fields.
    Plain,
    /// One JSON object on one line.
    Json,
}

impl Default for Format {
    /// JSON is the default rendering.
    fn default() -> (r: Format)
        ensures
            r is Json,
    {
        Format::Json
    }
}

} // verus!

//! A resource meter for the process it is embedded in.
//!
//! The library keeps a bounded history of counter snapshots, turns the text
//! of the operating system's pseudo-files into typed counters, and derives
//! usage figures from the two most recent snapshots. It performs no I/O
//! itself: a sampling pass asks its owner for one text source at a time,
//! and enters the history only when every source was read and understood.
use vstd::prelude::*;

pub mod counters;
pub mod error;
pub mod laws;
pub mod meter;
pub mod parse;
pub mod report;
pub mod scan;
pub mod snapshot;
pub mod text;

pub use counters::{IoCounters, Memory, ThreadInfo};
pub use error::{Error, IoStatError, ParseIntError, StatError, StatusError, UptimeError};
pub use meter::Meter;
pub use parse::{
    parse_io, parse_memory, parse_stat, parse_status, parse_uptime, parse_uptime_line,
};
pub use report::{Ratio, Report, ThreadReport, ThreadReportIter, ThreadUsage};
pub use scan::{Scan, Source, Stage};
pub use snapshot::{Sample, Snapshot};

verus! {

/// Identifies a process or a thread.
pub type Pid = u32;

} // verus!

//! The cgroup v2 source: snapshots of the interface files, the counters
//! that accumulate them over a phase, the parsers of the files, and the
//! handles on a hierarchy.

pub mod backend;
pub mod counters;
pub mod error;
pub mod config;
pub mod fs;
pub mod snapshot;
pub mod source;
pub mod util;

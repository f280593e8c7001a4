//! The procfs source: per-process-tree and system-wide memory and I/O
//! readings, and the counters that accumulate them over a phase.

pub mod backend;
pub mod config;
pub mod counters;
pub mod error;
pub mod snapshot;
pub mod source;
pub mod utils;

//! The core of the profiler: aggregation of the results of the sources,
//! the bookkeeping of phases, the pairing of phase bounds with metrics
//! before export, and the detection of phase tokens in a program's output.

pub mod aggregate;
pub mod export;
pub mod phases;
pub mod detect;
pub mod results;
pub mod inject;
pub mod files;

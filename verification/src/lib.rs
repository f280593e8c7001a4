//! Verified core of an energy and resource profiler: metric types, phase
//! aggregation, the counters of every metric source, the parsers of the
//! kernel interface files the sources read, and the configuration model.

pub mod types;
pub mod text;
pub mod time;
pub mod stats;
pub mod amdsmi;
pub mod cgroup;
pub mod procfs;
pub mod profiling;
pub mod rapl;
pub mod perf;
pub mod nvml;
pub mod cli;
pub mod terminal;

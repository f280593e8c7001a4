//! The `perf_event` source: hardware performance counters of the profiled
//! process, their readings, and the growth of each over a phase.

pub mod config;
pub mod event;
pub mod hardware;
pub mod sensor;
pub mod snapshot;

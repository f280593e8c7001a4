//! Configuration of the procfs source.

use vstd::prelude::*;

use crate::time::Duration;

verus! {

/// The default polling interval, in milliseconds.
pub const DEFAULT_POLL_INTERVAL_MS: u64 = 10;

/// The default interval of the process discovery, in seconds.
pub const DEFAULT_PROCESS_DETECTION_POLL_INTERVAL_S: u64 = 1;

/// The default polling interval.
pub fn default_poll_interval() -> (d: Duration)
    ensures
        d.nanos == DEFAULT_POLL_INTERVAL_MS * 1_000_000,
{
    Duration::from_millis(DEFAULT_POLL_INTERVAL_MS)
}

/// The default interval at which the process hierarchy is rebuilt.
pub fn default_process_detection_poll_interval() -> (d: Duration)
    ensures
        d.nanos == DEFAULT_PROCESS_DETECTION_POLL_INTERVAL_S * 1_000_000_000,
{
    Duration::from_secs(DEFAULT_PROCESS_DETECTION_POLL_INTERVAL_S)
}

/// Configuration for the procfs metric source.
#[derive(Debug, Clone, Copy)]
pub struct ProcfsConfig {
    /// Polling interval.
    pub poll_interval: Duration,
    /// Interval at which the process hierarchy is built from the profiled
    /// process pid.
    pub process_detection_poll_interval: Duration,
}

impl Default for ProcfsConfig {
    fn default() -> (c: Self)
        ensures
            c.poll_interval.nanos == DEFAULT_POLL_INTERVAL_MS * 1_000_000,
            c.process_detection_poll_interval.nanos == DEFAULT_PROCESS_DETECTION_POLL_INTERVAL_S
                * 1_000_000_000,
    {
        ProcfsConfig {
            poll_interval: default_poll_interval(),
            process_detection_poll_interval: default_process_detection_poll_interval(),
        }
    }
}

} // verus!

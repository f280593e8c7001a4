//! Configuration of the AMD SMI source.

use vstd::prelude::*;

use crate::time::Duration;

verus! {

/// The default background polling interval, in milliseconds.
pub const DEFAULT_POLL_INTERVAL_MS: u64 = 20;

/// The default background polling interval.
pub fn default_poll_interval() -> (d: Duration)
    ensures
        d.nanos == DEFAULT_POLL_INTERVAL_MS * 1_000_000,
{
    Duration::from_millis(DEFAULT_POLL_INTERVAL_MS)
}

/// Configuration of the AMD SMI source.
#[derive(Debug)]
pub struct AmdSmiConfig {
    /// Background polling interval.
    pub poll_interval: Duration,
    /// The UUIDs of the GPUs to read; all of them when absent.
    pub gpus_spec: Option<Vec<String>>,
}

impl Default for AmdSmiConfig {
    fn default() -> (c: Self)
        ensures
            c.poll_interval.nanos == DEFAULT_POLL_INTERVAL_MS * 1_000_000,
            c.gpus_spec is None,
    {
        AmdSmiConfig { poll_interval: default_poll_interval(), gpus_spec: None }
    }
}

} // verus!

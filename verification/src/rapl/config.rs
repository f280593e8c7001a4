//! Configurations of the RAPL readers.

use vstd::prelude::*;

use crate::time::Duration;

verus! {

/// Configuration of the RAPL reader that uses perf events.
#[derive(Debug)]
pub struct RaplConfig {
    /// The sockets to read; all of them when absent.
    pub sockets_spec: Option<Vec<u32>>,
}

/// Configuration of the RAPL reader that uses the powercap interface.
#[derive(Debug)]
pub struct PowercapConfig {
    /// Background polling interval, if any.
    pub poll_interval: Option<Duration>,
    /// Path of the powercap interface, if not the default one.
    pub rapl_path: Option<String>,
    /// The sockets to read; all of them when absent.
    pub sockets_spec: Option<Vec<u32>>,
}

impl Default for RaplConfig {
    fn default() -> (c: Self)
        ensures
            c.sockets_spec is None,
    {
        RaplConfig { sockets_spec: None }
    }
}

impl Default for PowercapConfig {
    fn default() -> (c: Self)
        ensures
            c.poll_interval is None,
            c.rapl_path is None,
            c.sockets_spec is None,
    {
        PowercapConfig { poll_interval: None, rapl_path: None, sockets_spec: None }
    }
}

} // verus!

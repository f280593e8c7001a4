//! Configuration of the `perf_event` source.

use vstd::prelude::*;

use crate::perf::event::Event;

verus! {

/// Configuration of the `perf_event` source.
#[derive(Debug)]
pub struct PerfConfig {
    /// The events to monitor; the default ones when absent.
    pub events: Option<Vec<Event>>,
    /// A cgroup v2 directory to monitor instead of the profiled process.
    pub cgroup_name: Option<String>,
    /// The root of the cgroup hierarchy, when a cgroup is monitored.
    pub cgroup_root: Option<String>,
    /// The CPUs to open the cgroup counters on; all of them when absent.
    pub cpu_spec: Option<Vec<u32>>,
}

impl Default for PerfConfig {
    fn default() -> (c: Self)
        ensures
            c.events is None,
            c.cgroup_name is None,
            c.cgroup_root is None,
            c.cpu_spec is None,
    {
        PerfConfig { events: None, cgroup_name: None, cgroup_root: None, cpu_spec: None }
    }
}

} // verus!

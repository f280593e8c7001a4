//! Configuration of the cgroup source.

use vstd::prelude::*;

use crate::text::{decimal, decimal_chars};
use crate::time::Duration;

verus! {

/// The default background polling interval, in milliseconds.
pub const DEFAULT_POLL_INTERVAL_MS: u64 = 10;

/// The default background polling interval.
pub fn default_poll_interval() -> (d: Duration)
    ensures
        d.nanos == DEFAULT_POLL_INTERVAL_MS * 1_000_000,
{
    Duration::from_millis(DEFAULT_POLL_INTERVAL_MS)
}

/// The default of the boolean options.
pub fn default_true() -> (b: bool)
    ensures
        b,
{
    true
}

/// The name of the cgroup created for the profiler process `pid`:
/// `joule-profiler-<pid>`.
pub open spec fn cgroup_name_for(pid: u32) -> Seq<char> {
    seq!['j', 'o', 'u', 'l', 'e', '-', 'p', 'r', 'o', 'f', 'i', 'l', 'e', 'r', '-'] + decimal(
        pid as nat,
    )
}

/// The default cgroup name for the profiler process `pid`.
pub fn default_cgroup_name(pid: u32) -> (s: String)
    ensures
        s@ == cgroup_name_for(pid),
{
    let mut v = vec!['j', 'o', 'u', 'l', 'e', '-', 'p', 'r', 'o', 'f', 'i', 'l', 'e', 'r', '-'];
    let d = decimal_chars(pid as u128);
    let ghost start = v@;
    let mut i: usize = 0;
    while i < d.len()
        invariant
            0 <= i <= d@.len(),
            v@ == start + d@.subrange(0, i as int),
        decreases d@.len() - i,
    {
        v.push(d[i]);
        i = i + 1;
        proof {
            assert(v@ =~= start + d@.subrange(0, i as int));
        }
    }
    proof {
        assert(d@.subrange(0, d@.len() as int) =~= d@);
    }
    crate::text::string_of(v)
}

/// Configuration for the cgroup metric source.
#[derive(Debug, Clone)]
pub struct CgroupConfig {
    /// Path to the cgroup v2 hierarchy (usually `/sys/fs/cgroup`).
    pub cgroup_root: Option<String>,
    /// Name of the cgroup of the monitored process.
    pub cgroup_name: String,
    /// Background polling interval.
    pub poll_interval: Duration,
    /// Whether the source attaches the process pid to the cgroup.
    pub attach_pid: bool,
    /// Whether the source creates the cgroup itself.
    pub create_cgroup: bool,
}

impl CgroupConfig {
    /// The default configuration of the profiler process `pid`.
    pub fn default_for(pid: u32) -> (c: Self)
        ensures
            c.cgroup_root is None,
            c.cgroup_name@ == cgroup_name_for(pid),
            c.poll_interval.nanos == DEFAULT_POLL_INTERVAL_MS * 1_000_000,
            c.attach_pid,
            c.create_cgroup,
    {
        CgroupConfig {
            cgroup_root: None,
            cgroup_name: default_cgroup_name(pid),
            poll_interval: default_poll_interval(),
            attach_pid: true,
            create_cgroup: true,
        }
    }
}

} // verus!

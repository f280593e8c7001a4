//! Readings of `/proc`.

use vstd::prelude::*;

verus! {

/// Memory and I/O of a process hierarchy, summed over its processes, in
/// bytes.
#[derive(Debug, Default, Clone, Copy, PartialEq, Eq)]
pub struct ProcSnapshot {
    pub vm_size: u64,
    pub rss: u64,
    pub pss: u64,
    pub shared: u64,
    pub anon: u64,
    pub read_bytes: u64,
    pub write_bytes: u64,
}

/// System-wide memory from `/proc/meminfo`, in bytes.
#[derive(Debug, Default, Clone, Copy, PartialEq, Eq)]
pub struct GlobalSnapshot {
    pub mem_available: Option<u64>,
    pub mem_free: u64,
    pub cached: u64,
    pub anon: Option<u64>,
    pub swap_free: u64,
}

impl ProcSnapshot {
    /// Whether adding `other` field by field stays within `u64`.
    pub open spec fn can_add(self, other: ProcSnapshot) -> bool {
        &&& self.vm_size + other.vm_size <= u64::MAX
        &&& self.rss + other.rss <= u64::MAX
        &&& self.pss + other.pss <= u64::MAX
        &&& self.shared + other.shared <= u64::MAX
        &&& self.anon + other.anon <= u64::MAX
        &&& self.read_bytes + other.read_bytes <= u64::MAX
        &&& self.write_bytes + other.write_bytes <= u64::MAX
    }

    /// Adds the readings of another process into this one (`+=`).
    pub fn add_assign(&mut self, other: ProcSnapshot)
        requires
            old(self).can_add(other),
        ensures
            final(self).vm_size == old(self).vm_size + other.vm_size,
            final(self).rss == old(self).rss + other.rss,
            final(self).pss == old(self).pss + other.pss,
            final(self).shared == old(self).shared + other.shared,
            final(self).anon == old(self).anon + other.anon,
            final(self).read_bytes == old(self).read_bytes + other.read_bytes,
            final(self).write_bytes == old(self).write_bytes + other.write_bytes,
    {
        self.vm_size = self.vm_size + other.vm_size;
        self.rss = self.rss + other.rss;
        self.pss = self.pss + other.pss;
        self.shared = self.shared + other.shared;
        self.anon = self.anon + other.anon;
        self.read_bytes = self.read_bytes + other.read_bytes;
        self.write_bytes = self.write_bytes + other.write_bytes;
    }
}

} // verus!

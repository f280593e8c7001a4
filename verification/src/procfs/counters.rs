//! Per-phase accumulators of the procfs readings.

use vstd::prelude::*;

use crate::procfs::snapshot::{GlobalSnapshot, ProcSnapshot};
use crate::stats::{lemma_fold_from_empty, max_fold, min_fold, seq_max, seq_min};
use crate::cgroup::counters::{lower, opt_int, upper};

verus! {

/// A min/max accumulator for a single metric.
#[derive(Debug, Clone, Copy)]
pub struct MinMax(pub Option<u64>, pub Option<u64>);

impl Default for MinMax {
    fn default() -> (m: Self)
        ensures
            m.0 is None && m.1 is None,
    {
        MinMax(None, None)
    }
}

impl MinMax {
    /// The accumulator after one more reading.
    pub open spec fn updated(self, value: u64) -> MinMax {
        MinMax(Some(lower(self.0, value)), Some(upper(self.1, value)))
    }

    /// The accumulator after a sequence of readings.
    pub open spec fn updated_all(self, values: Seq<u64>) -> MinMax
        decreases values.len(),
    {
        if values.len() == 0 {
            self
        } else {
            self.updated_all(values.drop_last()).updated(values.last())
        }
    }

    /// Updates the min/max bounds with the provided value.
    pub fn update(&mut self, value: u64)
        ensures
            *final(self) == old(self).updated(value),
    {
        let lo = match self.0 {
            Some(m) => if m <= value {
                m
            } else {
                value
            },
            None => value,
        };
        let hi = match self.1 {
            Some(m) => if m >= value {
                m
            } else {
                value
            },
            None => value,
        };
        self.0 = Some(lo);
        self.1 = Some(hi);
    }

    /// Forgets every reading.
    pub fn reset(&mut self)
        ensures
            final(self).0 is None,
            final(self).1 is None,
    {
        self.0 = None;
        self.1 = None;
    }

    /// The smallest reading since the last reset.
    pub fn min(&self) -> (r: Option<u64>)
        ensures
            r == self.0,
    {
        self.0
    }

    /// The largest reading since the last reset.
    pub fn max(&self) -> (r: Option<u64>)
        ensures
            r == self.1,
    {
        self.1
    }
}

proof fn lemma_minmax_fold(m: MinMax, values: Seq<u64>)
    ensures
        opt_int(m.updated_all(values).0) == min_fold(
            opt_int(m.0),
            values.map_values(|x: u64| x as int),
        ),
        opt_int(m.updated_all(values).1) == max_fold(
            opt_int(m.1),
            values.map_values(|x: u64| x as int),
        ),
    decreases values.len(),
{
    let ints = values.map_values(|x: u64| x as int);
    if values.len() > 0 {
        lemma_minmax_fold(m, values.drop_last());
        assert(values.drop_last().map_values(|x: u64| x as int) =~= ints.drop_last());
    }
}

/// Read from an empty state, a `MinMax` holds the smallest and the largest
/// of the readings, and every reading lies between them.
pub proof fn lemma_minmax_bounds(values: Seq<u64>)
    requires
        values.len() > 0,
    ensures
        MinMax(None, None).updated_all(values).0 is Some,
        MinMax(None, None).updated_all(values).1 is Some,
        MinMax(None, None).updated_all(values).0.unwrap() as int == seq_min(
            values.map_values(|x: u64| x as int),
        ),
        MinMax(None, None).updated_all(values).1.unwrap() as int == seq_max(
            values.map_values(|x: u64| x as int),
        ),
        forall|i: int|
            0 <= i < values.len() ==> MinMax(None, None).updated_all(values).0.unwrap()
                <= #[trigger] values[i] <= MinMax(None, None).updated_all(values).1.unwrap(),
{
    let ints = values.map_values(|x: u64| x as int);
    lemma_minmax_fold(MinMax(None, None), values);
    lemma_fold_from_empty(ints);
    assert forall|i: int| 0 <= i < values.len() implies MinMax(None, None).updated_all(
        values,
    ).0.unwrap() <= #[trigger] values[i] <= MinMax(None, None).updated_all(values).1.unwrap() by {
        assert(ints[i] == values[i] as int);
    }
}

/// Memory min/max and I/O begin/end counters of a process hierarchy over a
/// phase; all in bytes.
#[derive(Debug, Default, Clone, Copy)]
pub struct ProcCounters {
    pub vm_size: MinMax,
    pub rss: MinMax,
    pub pss: MinMax,
    pub shared: MinMax,
    pub anon: MinMax,
    /// Cumulative bytes read at the beginning of the phase.
    pub begin_read_bytes: u64,
    /// Cumulative bytes written at the beginning of the phase.
    pub begin_write_bytes: u64,
    /// Highest cumulative bytes read observed during the phase.
    pub end_read_bytes: u64,
    /// Highest cumulative bytes written observed during the phase.
    pub end_write_bytes: u64,
}

/// The larger of two `u64`.
pub open spec fn max_u64(a: u64, b: u64) -> u64 {
    if a >= b {
        a
    } else {
        b
    }
}

impl ProcCounters {
    /// Merges a snapshot into the counters; the I/O ends keep the largest
    /// reading, the counters being monotonic.
    pub fn update(&mut self, snapshot: &ProcSnapshot)
        ensures
            final(self).vm_size == old(self).vm_size.updated(snapshot.vm_size),
            final(self).rss == old(self).rss.updated(snapshot.rss),
            final(self).pss == old(self).pss.updated(snapshot.pss),
            final(self).shared == old(self).shared.updated(snapshot.shared),
            final(self).anon == old(self).anon.updated(snapshot.anon),
            final(self).begin_read_bytes == old(self).begin_read_bytes,
            final(self).begin_write_bytes == old(self).begin_write_bytes,
            final(self).end_read_bytes == max_u64(old(self).end_read_bytes, snapshot.read_bytes),
            final(self).end_write_bytes == max_u64(
                old(self).end_write_bytes,
                snapshot.write_bytes,
            ),
    {
        self.vm_size.update(snapshot.vm_size);
        self.rss.update(snapshot.rss);
        self.pss.update(snapshot.pss);
        self.shared.update(snapshot.shared);
        self.anon.update(snapshot.anon);
        if snapshot.read_bytes > self.end_read_bytes {
            self.end_read_bytes = snapshot.read_bytes;
        }
        if snapshot.write_bytes > self.end_write_bytes {
            self.end_write_bytes = snapshot.write_bytes;
        }
    }

    /// Resets the memory min/max for the next phase and carries the I/O ends
    /// forward as the new beginnings.
    pub fn reset(&mut self)
        ensures
            final(self).vm_size == MinMax(None, None),
            final(self).rss == MinMax(None, None),
            final(self).pss == MinMax(None, None),
            final(self).shared == MinMax(None, None),
            final(self).anon == MinMax(None, None),
            final(self).begin_read_bytes == old(self).end_read_bytes,
            final(self).begin_write_bytes == old(self).end_write_bytes,
            final(self).end_read_bytes == old(self).end_read_bytes,
            final(self).end_write_bytes == old(self).end_write_bytes,
    {
        self.vm_size.reset();
        self.rss.reset();
        self.pss.reset();
        self.shared.reset();
        self.anon.reset();
        self.begin_read_bytes = self.end_read_bytes;
        self.begin_write_bytes = self.end_write_bytes;
    }
}

/// `a - b`, or zero when `b > a` (`u64::saturating_sub`).
pub open spec fn sat_sub(a: u64, b: u64) -> u64 {
    if a >= b {
        (a - b) as u64
    } else {
        0
    }
}

/// An optional reading, zero when absent (`unwrap_or_default`).
pub open spec fn or_zero(o: Option<u64>) -> u64 {
    match o {
        Some(x) => x,
        None => 0,
    }
}

/// Whether [`compute_mem_used`] stays within `u64`: without
/// `MemAvailable`, the free and cached bounds are added.
pub open spec fn mem_used_fits(mem_available: Option<MinMax>, mem_free: MinMax, cached: MinMax) -> bool {
    mem_available is None ==> (or_zero(mem_free.1) + or_zero(cached.1) <= u64::MAX && or_zero(
        mem_free.0,
    ) + or_zero(cached.0) <= u64::MAX)
}

/// Computes used memory as `MemTotal - MemAvailable`, or as
/// `MemTotal - (MemFree + Cached)` when `MemAvailable` is not known. The
/// bounds swap: the least available memory gives the most used one.
pub fn compute_mem_used(
    mem_total: u64,
    mem_available: Option<MinMax>,
    mem_free: MinMax,
    cached: MinMax,
) -> (r: MinMax)
    requires
        mem_used_fits(mem_available, mem_free, cached),
    ensures
        match mem_available {
            Some(a) => r == MinMax(
                Some(sat_sub(mem_total, or_zero(a.1))),
                Some(sat_sub(mem_total, or_zero(a.0))),
            ),
            None => r == MinMax(
                Some(sat_sub(mem_total, (or_zero(mem_free.1) + or_zero(cached.1)) as u64)),
                Some(sat_sub(mem_total, (or_zero(mem_free.0) + or_zero(cached.0)) as u64)),
            ),
        },
{
    match mem_available {
        Some(available) => {
            let hi = match available.max() {
                Some(x) => x,
                None => 0,
            };
            let lo = match available.min() {
                Some(x) => x,
                None => 0,
            };
            MinMax(Some(mem_total.saturating_sub(hi)), Some(mem_total.saturating_sub(lo)))
        },
        None => {
            let free_hi = match mem_free.max() {
                Some(x) => x,
                None => 0,
            };
            let free_lo = match mem_free.min() {
                Some(x) => x,
                None => 0,
            };
            let cached_hi = match cached.max() {
                Some(x) => x,
                None => 0,
            };
            let cached_lo = match cached.min() {
                Some(x) => x,
                None => 0,
            };
            MinMax(
                Some(mem_total.saturating_sub(free_hi + cached_hi)),
                Some(mem_total.saturating_sub(free_lo + cached_lo)),
            )
        },
    }
}

/// System-wide memory counters over a phase; `mem_available` and `anon`
/// start on the first snapshot that has them.
#[derive(Debug, Default, Clone, Copy)]
pub struct GlobalCounters {
    pub mem_available: Option<MinMax>,
    pub mem_free: MinMax,
    pub cached: MinMax,
    pub anon: Option<MinMax>,
    pub swap_free: MinMax,
}

/// An optional accumulator after an optional reading.
pub open spec fn opt_updated(m: Option<MinMax>, value: Option<u64>) -> Option<MinMax> {
    match value {
        Some(v) => Some(
            match m {
                Some(mm) => mm,
                None => MinMax(None, None),
            }.updated(v),
        ),
        None => m,
    }
}

/// An optional accumulator reset, kept present if it was.
pub open spec fn opt_reset(m: Option<MinMax>) -> Option<MinMax> {
    match m {
        Some(_) => Some(MinMax(None, None)),
        None => None,
    }
}

impl GlobalCounters {
    /// Merges a snapshot into the counters.
    pub fn update(&mut self, snapshot: &GlobalSnapshot)
        ensures
            final(self).mem_free == old(self).mem_free.updated(snapshot.mem_free),
            final(self).cached == old(self).cached.updated(snapshot.cached),
            final(self).swap_free == old(self).swap_free.updated(snapshot.swap_free),
            final(self).mem_available == opt_updated(
                old(self).mem_available,
                snapshot.mem_available,
            ),
            final(self).anon == opt_updated(old(self).anon, snapshot.anon),
    {
        self.mem_free.update(snapshot.mem_free);
        self.cached.update(snapshot.cached);
        self.swap_free.update(snapshot.swap_free);
        if let Some(v) = snapshot.mem_available {
            let mut m = match self.mem_available {
                Some(x) => x,
                None => MinMax(None, None),
            };
            m.update(v);
            self.mem_available = Some(m);
        }
        if let Some(v) = snapshot.anon {
            let mut m = match self.anon {
                Some(x) => x,
                None => MinMax(None, None),
            };
            m.update(v);
            self.anon = Some(m);
        }
    }

    /// Resets all counters for the next phase.
    pub fn reset(&mut self)
        ensures
            final(self).mem_free == MinMax(None, None),
            final(self).cached == MinMax(None, None),
            final(self).swap_free == MinMax(None, None),
            final(self).mem_available == opt_reset(old(self).mem_available),
            final(self).anon == opt_reset(old(self).anon),
    {
        self.mem_free.reset();
        self.cached.reset();
        self.swap_free.reset();
        if let Some(v) = &mut self.mem_available {
            v.reset();
        }
        if let Some(v) = &mut self.anon {
            v.reset();
        }
    }
}

/// Process-tree and system-wide counters of a phase.
#[derive(Debug, Default, Clone, Copy)]
pub struct Counters {
    pub proc: ProcCounters,
    pub global: GlobalCounters,
}

impl Counters {
    /// Counters without any reading.
    pub open spec fn empty() -> Counters {
        Counters {
            proc: ProcCounters {
                vm_size: MinMax(None, None),
                rss: MinMax(None, None),
                pss: MinMax(None, None),
                shared: MinMax(None, None),
                anon: MinMax(None, None),
                begin_read_bytes: 0,
                begin_write_bytes: 0,
                end_read_bytes: 0,
                end_write_bytes: 0,
            },
            global: GlobalCounters {
                mem_available: None,
                mem_free: MinMax(None, None),
                cached: MinMax(None, None),
                anon: None,
                swap_free: MinMax(None, None),
            },
        }
    }

    /// The counters after one reading of the process tree and one of the
    /// system.
    pub open spec fn updated(self, p: ProcSnapshot, g: GlobalSnapshot) -> Counters {
        Counters {
            proc: ProcCounters {
                vm_size: self.proc.vm_size.updated(p.vm_size),
                rss: self.proc.rss.updated(p.rss),
                pss: self.proc.pss.updated(p.pss),
                shared: self.proc.shared.updated(p.shared),
                anon: self.proc.anon.updated(p.anon),
                begin_read_bytes: self.proc.begin_read_bytes,
                begin_write_bytes: self.proc.begin_write_bytes,
                end_read_bytes: max_u64(self.proc.end_read_bytes, p.read_bytes),
                end_write_bytes: max_u64(self.proc.end_write_bytes, p.write_bytes),
            },
            global: GlobalCounters {
                mem_available: opt_updated(self.global.mem_available, g.mem_available),
                mem_free: self.global.mem_free.updated(g.mem_free),
                cached: self.global.cached.updated(g.cached),
                anon: opt_updated(self.global.anon, g.anon),
                swap_free: self.global.swap_free.updated(g.swap_free),
            },
        }
    }

    /// Counters without any reading.
    pub fn fresh() -> (c: Self)
        ensures
            c == Counters::empty(),
    {
        Counters {
            proc: ProcCounters {
                vm_size: MinMax(None, None),
                rss: MinMax(None, None),
                pss: MinMax(None, None),
                shared: MinMax(None, None),
                anon: MinMax(None, None),
                begin_read_bytes: 0,
                begin_write_bytes: 0,
                end_read_bytes: 0,
                end_write_bytes: 0,
            },
            global: GlobalCounters {
                mem_available: None,
                mem_free: MinMax(None, None),
                cached: MinMax(None, None),
                anon: None,
                swap_free: MinMax(None, None),
            },
        }
    }

    /// Merges a process-tree and a system snapshot.
    pub fn update(&mut self, proc: &ProcSnapshot, global: &GlobalSnapshot)
        ensures
            final(self).proc.vm_size == old(self).proc.vm_size.updated(proc.vm_size),
            final(self).proc.rss == old(self).proc.rss.updated(proc.rss),
            final(self).proc.pss == old(self).proc.pss.updated(proc.pss),
            final(self).proc.shared == old(self).proc.shared.updated(proc.shared),
            final(self).proc.anon == old(self).proc.anon.updated(proc.anon),
            final(self).proc.begin_read_bytes == old(self).proc.begin_read_bytes,
            final(self).proc.begin_write_bytes == old(self).proc.begin_write_bytes,
            final(self).proc.end_read_bytes == max_u64(
                old(self).proc.end_read_bytes,
                proc.read_bytes,
            ),
            final(self).proc.end_write_bytes == max_u64(
                old(self).proc.end_write_bytes,
                proc.write_bytes,
            ),
            final(self).global.mem_free == old(self).global.mem_free.updated(global.mem_free),
            final(self).global.cached == old(self).global.cached.updated(global.cached),
            final(self).global.swap_free == old(self).global.swap_free.updated(global.swap_free),
            final(self).global.mem_available == opt_updated(
                old(self).global.mem_available,
                global.mem_available,
            ),
            final(self).global.anon == opt_updated(old(self).global.anon, global.anon),
    {
        self.proc.update(proc);
        self.global.update(global);
    }

    /// Resets both sets of counters for the next phase.
    pub fn reset(&mut self)
        ensures
            final(self).proc.vm_size == MinMax(None, None),
            final(self).proc.rss == MinMax(None, None),
            final(self).proc.pss == MinMax(None, None),
            final(self).proc.shared == MinMax(None, None),
            final(self).proc.anon == MinMax(None, None),
            final(self).proc.begin_read_bytes == old(self).proc.end_read_bytes,
            final(self).proc.begin_write_bytes == old(self).proc.end_write_bytes,
            final(self).proc.end_read_bytes == old(self).proc.end_read_bytes,
            final(self).proc.end_write_bytes == old(self).proc.end_write_bytes,
            final(self).global.mem_free == MinMax(None, None),
            final(self).global.cached == MinMax(None, None),
            final(self).global.swap_free == MinMax(None, None),
            final(self).global.mem_available == opt_reset(old(self).global.mem_available),
            final(self).global.anon == opt_reset(old(self).global.anon),
    {
        self.proc.reset();
        self.global.reset();
    }
}

} // verus!

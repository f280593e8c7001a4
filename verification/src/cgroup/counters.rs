//! Per-phase accumulators of the cgroup readings.

use vstd::prelude::*;

use crate::cgroup::snapshot::{CpuSnapshot, IoSnapshot, MemorySnapshot};
use crate::stats::{max_after, max_fold, min_after, min_fold, seq_max, seq_min, lemma_fold_from_empty};

verus! {

/// An optional `u64` seen as an optional integer.
pub open spec fn opt_int(o: Option<u64>) -> Option<int> {
    match o {
        Some(x) => Some(x as int),
        None => None,
    }
}

/// The smaller of a running minimum and a reading.
pub open spec fn lower(m: Option<u64>, v: u64) -> u64 {
    match m {
        Some(x) => if x <= v {
            x
        } else {
            v
        },
        None => v,
    }
}

/// The larger of a running maximum and a reading.
pub open spec fn upper(m: Option<u64>, v: u64) -> u64 {
    match m {
        Some(x) => if x >= v {
            x
        } else {
            v
        },
        None => v,
    }
}

/// A min/max accumulator for a single metric.
#[derive(Debug, Clone, Copy)]
pub struct MinMax(pub Option<u64>, pub Option<u64>);

impl Default for MinMax {
    fn default() -> (m: Self)
        ensures
            m.0 is None && m.1 is None,
    {
        MinMax(None, None)
    }
}

impl MinMax {
    /// The accumulator after one more reading.
    pub open spec fn updated(self, value: u64) -> MinMax {
        MinMax(Some(lower(self.0, value)), Some(upper(self.1, value)))
    }

    /// The accumulator after a sequence of readings.
    pub open spec fn updated_all(self, values: Seq<u64>) -> MinMax
        decreases values.len(),
    {
        if values.len() == 0 {
            self
        } else {
            self.updated_all(values.drop_last()).updated(values.last())
        }
    }

    /// Updates the min/max bounds with the provided value.
    pub fn update(&mut self, value: u64)
        ensures
            *final(self) == old(self).updated(value),
    {
        let lo = match self.0 {
            Some(m) => if m <= value {
                m
            } else {
                value
            },
            None => value,
        };
        let hi = match self.1 {
            Some(m) => if m >= value {
                m
            } else {
                value
            },
            None => value,
        };
        self.0 = Some(lo);
        self.1 = Some(hi);
    }

    /// Forgets every reading.
    pub fn reset(&mut self)
        ensures
            final(self).0 is None,
            final(self).1 is None,
    {
        self.0 = None;
        self.1 = None;
    }

    /// The smallest reading since the last reset.
    pub fn min(&self) -> (r: Option<u64>)
        ensures
            r == self.0,
    {
        self.0
    }

    /// The largest reading since the last reset.
    pub fn max(&self) -> (r: Option<u64>)
        ensures
            r == self.1,
    {
        self.1
    }
}

proof fn lemma_minmax_fold(m: MinMax, values: Seq<u64>)
    ensures
        opt_int(m.updated_all(values).0) == min_fold(
            opt_int(m.0),
            values.map_values(|x: u64| x as int),
        ),
        opt_int(m.updated_all(values).1) == max_fold(
            opt_int(m.1),
            values.map_values(|x: u64| x as int),
        ),
    decreases values.len(),
{
    let ints = values.map_values(|x: u64| x as int);
    if values.len() > 0 {
        lemma_minmax_fold(m, values.drop_last());
        assert(values.drop_last().map_values(|x: u64| x as int) =~= ints.drop_last());
    }
}

/// Read from an empty state, a `MinMax` holds the smallest and the largest
/// of the readings, and every reading lies between them.
pub proof fn lemma_minmax_bounds(values: Seq<u64>)
    requires
        values.len() > 0,
    ensures
        MinMax(None, None).updated_all(values).0 is Some,
        MinMax(None, None).updated_all(values).1 is Some,
        MinMax(None, None).updated_all(values).0.unwrap() as int == seq_min(
            values.map_values(|x: u64| x as int),
        ),
        MinMax(None, None).updated_all(values).1.unwrap() as int == seq_max(
            values.map_values(|x: u64| x as int),
        ),
        forall|i: int|
            0 <= i < values.len() ==> MinMax(None, None).updated_all(values).0.unwrap()
                <= #[trigger] values[i] <= MinMax(None, None).updated_all(values).1.unwrap(),
{
    let ints = values.map_values(|x: u64| x as int);
    lemma_minmax_fold(MinMax(None, None), values);
    lemma_fold_from_empty(ints);
    assert forall|i: int| 0 <= i < values.len() implies MinMax(None, None).updated_all(
        values,
    ).0.unwrap() <= #[trigger] values[i] <= MinMax(None, None).updated_all(values).1.unwrap() by {
        assert(ints[i] == values[i] as int);
    }
}

/// Tracks the beginning and latest values of a cumulative counter for a phase.
#[derive(Debug, Clone, Copy)]
pub struct BeginEnd(pub Option<u64>, pub Option<u64>);

impl Default for BeginEnd {
    fn default() -> (b: Self)
        ensures
            b.0 is None && b.1 is None,
    {
        BeginEnd(None, None)
    }
}

impl BeginEnd {
    /// The counter after one more reading.
    pub open spec fn updated(self, value: u64) -> BeginEnd {
        BeginEnd(
            if self.0 is None {
                Some(value)
            } else {
                self.0
            },
            Some(value),
        )
    }

    /// The counter after a sequence of readings.
    pub open spec fn updated_all(self, values: Seq<u64>) -> BeginEnd
        decreases values.len(),
    {
        if values.len() == 0 {
            self
        } else {
            self.updated_all(values.drop_last()).updated(values.last())
        }
    }

    /// The growth of the counter over the phase, zero when unknown.
    pub open spec fn spec_diff(self) -> u64 {
        match (self.0, self.1) {
            (Some(b), Some(e)) => if e >= b {
                (e - b) as u64
            } else {
                0
            },
            _ => 0,
        }
    }

    /// Updates the latest counter value.
    pub fn update(&mut self, value: u64)
        ensures
            *final(self) == old(self).updated(value),
    {
        if self.0.is_none() {
            self.0 = Some(value);
        }
        self.1 = Some(value);
    }

    /// Returns the difference between end and begin values.
    pub fn diff(&self) -> (d: u64)
        ensures
            d == self.spec_diff(),
    {
        match (self.0, self.1) {
            (Some(begin), Some(end)) => end.saturating_sub(begin),
            _ => 0,
        }
    }

    /// Starts a new measurement phase by setting begin to end.
    pub fn new_phase(&mut self)
        ensures
            final(self).0 == old(self).1,
            final(self).1 == old(self).1,
    {
        self.0 = self.1;
    }
}

/// Readings taken from an empty counter span from the first to the last
/// one: the growth is the last minus the first (zero if it went down).
pub proof fn lemma_begin_end_span(values: Seq<u64>)
    requires
        values.len() > 0,
    ensures
        BeginEnd(None, None).updated_all(values) == BeginEnd(Some(values[0]), Some(values.last())),
    decreases values.len(),
{
    let e = BeginEnd(None, None);
    assert(e.updated_all(values) == e.updated_all(values.drop_last()).updated(values.last()));
    if values.len() > 1 {
        lemma_begin_end_span(values.drop_last());
        assert(values.drop_last()[0] == values[0]);
        assert(e.updated_all(values.drop_last()).0 is Some);
    } else {
        assert(values.drop_last() =~= Seq::<u64>::empty());
        assert(e.updated_all(values.drop_last()) == e);
    }
}

/// A new phase starts where the last one ended: right after it, the growth
/// is zero, and the next readings are measured from the previous end.
pub proof fn lemma_begin_end_new_phase(c: BeginEnd, values: Seq<u64>)
    requires
        c.1 is Some,
        values.len() > 0,
    ensures
        BeginEnd(c.1, c.1).spec_diff() == 0,
        BeginEnd(c.1, c.1).updated_all(values) == BeginEnd(c.1, Some(values.last())),
    decreases values.len(),
{
    let e = BeginEnd(c.1, c.1);
    assert(e.updated_all(values) == e.updated_all(values.drop_last()).updated(values.last()));
    if values.len() > 1 {
        lemma_begin_end_new_phase(c, values.drop_last());
    } else {
        assert(values.drop_last() =~= Seq::<u64>::empty());
        assert(e.updated_all(values.drop_last()) == e);
    }
}

/// An optional min/max accumulator after an optional reading.
pub open spec fn minmax_opt_updated(m: Option<MinMax>, value: Option<u64>) -> Option<MinMax> {
    match value {
        Some(v) => Some(
            match m {
                Some(mm) => mm,
                None => MinMax(None, None),
            }.updated(v),
        ),
        None => m,
    }
}

/// An optional cumulative counter after an optional reading.
pub open spec fn begin_end_opt_updated(c: Option<BeginEnd>, value: Option<u64>) -> Option<
    BeginEnd,
> {
    match value {
        Some(v) => Some(
            match c {
                Some(b) => b,
                None => BeginEnd(None, None),
            }.updated(v),
        ),
        None => c,
    }
}

/// An optional cumulative counter at the start of a new phase.
pub open spec fn begin_end_opt_new_phase(c: Option<BeginEnd>) -> Option<BeginEnd> {
    match c {
        Some(b) => Some(BeginEnd(b.1, b.1)),
        None => None,
    }
}

fn update_minmax_opt(m: &mut Option<MinMax>, value: Option<u64>)
    ensures
        *final(m) == minmax_opt_updated(*old(m), value),
{
    if let Some(v) = value {
        let mut mm = match *m {
            Some(x) => x,
            None => MinMax(None, None),
        };
        mm.update(v);
        *m = Some(mm);
    }
}

fn update_begin_end_opt(c: &mut Option<BeginEnd>, value: Option<u64>)
    ensures
        *final(c) == begin_end_opt_updated(*old(c), value),
{
    if let Some(v) = value {
        let mut b = match *c {
            Some(x) => x,
            None => BeginEnd(None, None),
        };
        b.update(v);
        *c = Some(b);
    }
}

fn new_phase_begin_end_opt(c: &mut Option<BeginEnd>)
    ensures
        *final(c) == begin_end_opt_new_phase(*old(c)),
{
    if let Some(b) = c {
        b.new_phase();
    }
}

/// Memory readings of a cgroup over a phase, as min/max accumulators.
#[derive(Debug, Default, Clone, Copy)]
pub struct MemoryCounters {
    pub current: Option<MinMax>,
    pub swap_current: Option<MinMax>,
    pub anon: Option<MinMax>,
    pub file: Option<MinMax>,
    pub peak: Option<MinMax>,
    pub shmem: Option<MinMax>,
    pub kernel: Option<MinMax>,
    pub kernel_stack: Option<MinMax>,
    pub slab: Option<MinMax>,
}

impl MemoryCounters {
    /// The counters after one more snapshot.
    pub open spec fn updated(self, s: MemorySnapshot) -> MemoryCounters {
        MemoryCounters {
            current: minmax_opt_updated(self.current, s.current),
            swap_current: minmax_opt_updated(self.swap_current, s.swap_current),
            anon: minmax_opt_updated(self.anon, s.anon),
            file: minmax_opt_updated(self.file, s.file),
            peak: minmax_opt_updated(self.peak, s.peak),
            shmem: minmax_opt_updated(self.shmem, s.shmem),
            kernel: minmax_opt_updated(self.kernel, s.kernel),
            kernel_stack: minmax_opt_updated(self.kernel_stack, s.kernel_stack),
            slab: minmax_opt_updated(self.slab, s.slab),
        }
    }

    /// Counters without readings.
    pub open spec fn empty() -> MemoryCounters {
        MemoryCounters {
            current: None,
            swap_current: None,
            anon: None,
            file: None,
            peak: None,
            shmem: None,
            kernel: None,
            kernel_stack: None,
            slab: None,
        }
    }

    /// Updates counters from a memory snapshot.
    pub fn update(&mut self, snapshot: &MemorySnapshot)
        ensures
            *final(self) == old(self).updated(*snapshot),
            final(self).current == minmax_opt_updated(old(self).current, snapshot.current),
            final(self).swap_current == minmax_opt_updated(
                old(self).swap_current,
                snapshot.swap_current,
            ),
            final(self).anon == minmax_opt_updated(old(self).anon, snapshot.anon),
            final(self).file == minmax_opt_updated(old(self).file, snapshot.file),
            final(self).peak == minmax_opt_updated(old(self).peak, snapshot.peak),
            final(self).shmem == minmax_opt_updated(old(self).shmem, snapshot.shmem),
            final(self).kernel == minmax_opt_updated(old(self).kernel, snapshot.kernel),
            final(self).kernel_stack == minmax_opt_updated(
                old(self).kernel_stack,
                snapshot.kernel_stack,
            ),
    {
        update_minmax_opt(&mut self.current, snapshot.current);
        update_minmax_opt(&mut self.swap_current, snapshot.swap_current);
        update_minmax_opt(&mut self.anon, snapshot.anon);
        update_minmax_opt(&mut self.file, snapshot.file);
        update_minmax_opt(&mut self.peak, snapshot.peak);
        update_minmax_opt(&mut self.shmem, snapshot.shmem);
        update_minmax_opt(&mut self.kernel, snapshot.kernel);
        update_minmax_opt(&mut self.kernel_stack, snapshot.kernel_stack);
        update_minmax_opt(&mut self.slab, snapshot.slab);
    }

    /// Resets all tracked memory metrics.
    pub fn reset(&mut self)
        ensures
            *final(self) == MemoryCounters::empty(),
            final(self).current is None,
            final(self).swap_current is None,
            final(self).anon is None,
            final(self).file is None,
            final(self).peak is None,
            final(self).shmem is None,
            final(self).kernel is None,
            final(self).kernel_stack is None,
            final(self).slab is None,
    {
        self.current = None;
        self.swap_current = None;
        self.anon = None;
        self.file = None;
        self.peak = None;
        self.shmem = None;
        self.kernel = None;
        self.kernel_stack = None;
        self.slab = None;
    }
}

/// CPU time counters of a cgroup over a phase.
#[derive(Debug, Default, Clone, Copy)]
pub struct CpuCounters {
    pub usage_usec: BeginEnd,
    pub user_usec: BeginEnd,
    pub system_usec: BeginEnd,
    pub nr_periods: Option<BeginEnd>,
    pub nr_throttled: Option<BeginEnd>,
    pub throttled_usec: Option<BeginEnd>,
    pub nr_bursts: Option<BeginEnd>,
    pub burst_usec: Option<BeginEnd>,
}

impl CpuCounters {
    /// Counters without readings.
    pub open spec fn empty() -> CpuCounters {
        CpuCounters {
            usage_usec: BeginEnd(None, None),
            user_usec: BeginEnd(None, None),
            system_usec: BeginEnd(None, None),
            nr_periods: None,
            nr_throttled: None,
            throttled_usec: None,
            nr_bursts: None,
            burst_usec: None,
        }
    }

    /// The counters after one more snapshot.
    pub open spec fn updated(self, s: CpuSnapshot) -> CpuCounters {
        CpuCounters {
            usage_usec: self.usage_usec.updated(s.usage_usec),
            user_usec: self.user_usec.updated(s.user_usec),
            system_usec: self.system_usec.updated(s.system_usec),
            nr_periods: begin_end_opt_updated(self.nr_periods, s.nr_periods),
            nr_throttled: begin_end_opt_updated(self.nr_throttled, s.nr_throttled),
            throttled_usec: begin_end_opt_updated(self.throttled_usec, s.throttled_usec),
            nr_bursts: begin_end_opt_updated(self.nr_bursts, s.nr_bursts),
            burst_usec: begin_end_opt_updated(self.burst_usec, s.burst_usec),
        }
    }

    /// The counters at the start of the next phase.
    pub open spec fn next_phase(self) -> CpuCounters {
        CpuCounters {
            usage_usec: BeginEnd(self.usage_usec.1, self.usage_usec.1),
            user_usec: BeginEnd(self.user_usec.1, self.user_usec.1),
            system_usec: BeginEnd(self.system_usec.1, self.system_usec.1),
            nr_periods: begin_end_opt_new_phase(self.nr_periods),
            nr_throttled: begin_end_opt_new_phase(self.nr_throttled),
            throttled_usec: begin_end_opt_new_phase(self.throttled_usec),
            nr_bursts: begin_end_opt_new_phase(self.nr_bursts),
            burst_usec: begin_end_opt_new_phase(self.burst_usec),
        }
    }

    /// Updates counters from a CPU snapshot.
    pub fn update(&mut self, snapshot: &CpuSnapshot)
        ensures
            *final(self) == old(self).updated(*snapshot),
            final(self).usage_usec == old(self).usage_usec.updated(snapshot.usage_usec),
            final(self).user_usec == old(self).user_usec.updated(snapshot.user_usec),
            final(self).system_usec == old(self).system_usec.updated(snapshot.system_usec),
            final(self).nr_periods == begin_end_opt_updated(
                old(self).nr_periods,
                snapshot.nr_periods,
            ),
            final(self).nr_throttled == begin_end_opt_updated(
                old(self).nr_throttled,
                snapshot.nr_throttled,
            ),
            final(self).throttled_usec == begin_end_opt_updated(
                old(self).throttled_usec,
                snapshot.throttled_usec,
            ),
            final(self).nr_bursts == begin_end_opt_updated(
                old(self).nr_bursts,
                snapshot.nr_bursts,
            ),
            final(self).burst_usec == begin_end_opt_updated(
                old(self).burst_usec,
                snapshot.burst_usec,
            ),
    {
        self.usage_usec.update(snapshot.usage_usec);
        self.user_usec.update(snapshot.user_usec);
        self.system_usec.update(snapshot.system_usec);
        update_begin_end_opt(&mut self.nr_periods, snapshot.nr_periods);
        update_begin_end_opt(&mut self.nr_throttled, snapshot.nr_throttled);
        update_begin_end_opt(&mut self.throttled_usec, snapshot.throttled_usec);
        update_begin_end_opt(&mut self.nr_bursts, snapshot.nr_bursts);
        update_begin_end_opt(&mut self.burst_usec, snapshot.burst_usec);
    }

    /// Starts a new measurement phase.
    pub fn new_phase(&mut self)
        ensures
            *final(self) == old(self).next_phase(),
            final(self).usage_usec == BeginEnd(old(self).usage_usec.1, old(self).usage_usec.1),
            final(self).user_usec == BeginEnd(old(self).user_usec.1, old(self).user_usec.1),
            final(self).system_usec == BeginEnd(
                old(self).system_usec.1,
                old(self).system_usec.1,
            ),
            final(self).nr_periods == begin_end_opt_new_phase(old(self).nr_periods),
            final(self).nr_throttled == begin_end_opt_new_phase(old(self).nr_throttled),
            final(self).throttled_usec == begin_end_opt_new_phase(old(self).throttled_usec),
            final(self).nr_bursts == begin_end_opt_new_phase(old(self).nr_bursts),
            final(self).burst_usec == begin_end_opt_new_phase(old(self).burst_usec),
    {
        self.usage_usec.new_phase();
        self.user_usec.new_phase();
        self.system_usec.new_phase();
        new_phase_begin_end_opt(&mut self.nr_periods);
        new_phase_begin_end_opt(&mut self.nr_throttled);
        new_phase_begin_end_opt(&mut self.throttled_usec);
        new_phase_begin_end_opt(&mut self.nr_bursts);
        new_phase_begin_end_opt(&mut self.burst_usec);
    }
}

/// I/O byte counters of a cgroup over a phase.
#[derive(Debug, Default, Clone, Copy)]
pub struct IoCounters {
    pub rbytes: Option<BeginEnd>,
    pub wbytes: Option<BeginEnd>,
}

impl IoCounters {
    /// Counters without readings.
    pub open spec fn empty() -> IoCounters {
        IoCounters { rbytes: None, wbytes: None }
    }

    /// The counters after one more snapshot.
    pub open spec fn updated(self, s: IoSnapshot) -> IoCounters {
        IoCounters {
            rbytes: begin_end_opt_updated(self.rbytes, s.rbytes),
            wbytes: begin_end_opt_updated(self.wbytes, s.wbytes),
        }
    }

    /// The counters at the start of the next phase.
    pub open spec fn next_phase(self) -> IoCounters {
        IoCounters {
            rbytes: begin_end_opt_new_phase(self.rbytes),
            wbytes: begin_end_opt_new_phase(self.wbytes),
        }
    }

    /// Updates counters from an I/O snapshot.
    pub fn update(&mut self, snapshot: &IoSnapshot)
        ensures
            *final(self) == old(self).updated(*snapshot),
            final(self).rbytes == begin_end_opt_updated(old(self).rbytes, snapshot.rbytes),
            final(self).wbytes == begin_end_opt_updated(old(self).wbytes, snapshot.wbytes),
    {
        update_begin_end_opt(&mut self.rbytes, snapshot.rbytes);
        update_begin_end_opt(&mut self.wbytes, snapshot.wbytes);
    }

    /// Starts a new measurement phase.
    pub fn new_phase(&mut self)
        ensures
            *final(self) == old(self).next_phase(),
            final(self).rbytes == begin_end_opt_new_phase(old(self).rbytes),
            final(self).wbytes == begin_end_opt_new_phase(old(self).wbytes),
    {
        new_phase_begin_end_opt(&mut self.rbytes);
        new_phase_begin_end_opt(&mut self.wbytes);
    }
}

/// Process-level and system-wide counters of one phase.
#[derive(Debug, Default, Clone, Copy)]
pub struct Counters {
    pub proc_memory: MemoryCounters,
    pub proc_cpu: CpuCounters,
    pub proc_io: IoCounters,
    pub global_memory: MemoryCounters,
    pub global_cpu: CpuCounters,
    pub global_io: IoCounters,
    pub begin_timestamp: u128,
    pub end_timestamp: u128,
}

} // verus!

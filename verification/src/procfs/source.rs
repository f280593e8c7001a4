//! The sensors of the procfs source and the metrics its counters give.

use vstd::prelude::*;

use crate::amdsmi::source::sensors_view;
use crate::procfs::backend::{Backend, measure_and_update_pids};
use crate::procfs::config::ProcfsConfig;
use crate::procfs::error::ProcfsError;
use crate::procfs::utils::distinct;
use crate::procfs::snapshot::{GlobalSnapshot, ProcSnapshot};
use crate::procfs::counters::{Counters, MinMax, compute_mem_used, mem_used_fits, or_zero, sat_sub};
use crate::types::{AvailableSensor, Metric, MetricUnit, MetricValue, Unit, UnitPrefix, metrics_view, push_metric};

verus! {

/// The name of the source.
pub const PROCFS_SOURCE_NAME: &'static str = "procfs";

/// Bytes.
pub open spec fn bytes() -> MetricUnit {
    MetricUnit { prefix: UnitPrefix::Base, unit: Unit::Byte }
}

/// The names of the metrics of the procfs source, in the order they are
/// reported: process memory, system memory, process I/O.
pub open spec fn procfs_sensor_names() -> Seq<Seq<char>> {
    seq![
        "proc_vm_size_min"@,
        "proc_vm_size_max"@,
        "proc_rss_min"@,
        "proc_rss_max"@,
        "proc_pss_min"@,
        "proc_pss_max"@,
        "proc_shared_min"@,
        "proc_shared_max"@,
        "proc_anon_min"@,
        "proc_anon_max"@,
        "global_mem_used_min"@,
        "global_mem_used_max"@,
        "global_cached_min"@,
        "global_cached_max"@,
        "global_anon_min"@,
        "global_anon_max"@,
        "global_swap_free_min"@,
        "global_swap_free_max"@,
        "proc_io_read_bytes"@,
        "proc_io_write_bytes"@,
    ]
}

/// The sensors of the procfs source: every metric
/// it can report, in bytes.
pub fn get_sensors() -> (r: Vec<AvailableSensor>)
    ensures
        sensors_view(r@) == procfs_sensor_names().map_values(|n: Seq<char>| (n, bytes())),
        forall|i: int| 0 <= i < r@.len() ==> (#[trigger] r@[i]).source@ == PROCFS_SOURCE_NAME@,
{
    let names: Vec<&str> = vec![
        "proc_vm_size_min",
        "proc_vm_size_max",
        "proc_rss_min",
        "proc_rss_max",
        "proc_pss_min",
        "proc_pss_max",
        "proc_shared_min",
        "proc_shared_max",
        "proc_anon_min",
        "proc_anon_max",
        "global_mem_used_min",
        "global_mem_used_max",
        "global_cached_min",
        "global_cached_max",
        "global_anon_min",
        "global_anon_max",
        "global_swap_free_min",
        "global_swap_free_max",
        "proc_io_read_bytes",
        "proc_io_write_bytes",
    ];
    proof {
        reveal_strlit("proc_vm_size_min");
    }
    assert(names@.map_values(|s: &str| s@) =~= procfs_sensor_names());
    let unit = MetricUnit { prefix: UnitPrefix::Base, unit: Unit::Byte };
    let mut out: Vec<AvailableSensor> = Vec::new();
    let mut k: usize = 0;
    while k < names.len()
        invariant
            k <= names@.len(),
            names@.map_values(|s: &str| s@) == procfs_sensor_names(),
            unit == bytes(),
            sensors_view(out@) == procfs_sensor_names().subrange(0, k as int).map_values(
                |n: Seq<char>| (n, bytes()),
            ),
            forall|i: int| 0 <= i < out@.len() ==> (#[trigger] out@[i]).source@
                == PROCFS_SOURCE_NAME@,
        decreases names@.len() - k,
    {
        let ghost before = out@;
        out.push(AvailableSensor::new(names[k].to_owned(), unit, PROCFS_SOURCE_NAME.to_owned()));
        proof {
            assert(names@.map_values(|s: &str| s@)[k as int] == names@[k as int]@);
            assert(sensors_view(out@) =~= sensors_view(before).push((names@[k as int]@, bytes())));
            assert(procfs_sensor_names().subrange(0, k + 1).map_values(|n: Seq<char>| (n, bytes()))
                =~= procfs_sensor_names().subrange(0, k as int).map_values(
                |n: Seq<char>| (n, bytes()),
            ).push((procfs_sensor_names()[k as int], bytes())));
            assert(sensors_view(out@) =~= procfs_sensor_names().subrange(0, k + 1).map_values(
                |n: Seq<char>| (n, bytes()),
            ));
        }
        k = k + 1;
    }
    proof {
        assert(procfs_sensor_names().subrange(0, 20) =~= procfs_sensor_names());
    }
    out
}

/// The memory used over the phase, from the system counters and the total
/// memory.
pub open spec fn mem_used(mem_total: u64, c: Counters) -> MinMax {
    match c.global.mem_available {
        Some(a) => MinMax(
            Some(sat_sub(mem_total, or_zero(a.1))),
            Some(sat_sub(mem_total, or_zero(a.0))),
        ),
        None => MinMax(
            Some(sat_sub(mem_total, (or_zero(c.global.mem_free.1) + or_zero(c.global.cached.1)) as u64)),
            Some(sat_sub(mem_total, (or_zero(c.global.mem_free.0) + or_zero(c.global.cached.0)) as u64)),
        ),
    }
}

/// A metric in bytes.
pub open spec fn byte_metric(name: Seq<char>, value: u64) -> (Seq<char>, MetricValue, MetricUnit) {
    (name, MetricValue::U64(value), bytes())
}

/// The metrics of a phase: the process memory bounds, the system memory
/// bounds (the anonymous memory only when the system reports it), then the
/// bytes the process tree read and wrote; a bound never read is zero.
pub open spec fn procfs_metrics(mem_total: u64, c: Counters) -> Seq<(Seq<char>, MetricValue, MetricUnit)> {
    let p = c.proc;
    let g = c.global;
    let used = mem_used(mem_total, c);
    seq![
        byte_metric("proc_vm_size_min"@, or_zero(p.vm_size.0)),
        byte_metric("proc_vm_size_max"@, or_zero(p.vm_size.1)),
        byte_metric("proc_rss_min"@, or_zero(p.rss.0)),
        byte_metric("proc_rss_max"@, or_zero(p.rss.1)),
        byte_metric("proc_pss_min"@, or_zero(p.pss.0)),
        byte_metric("proc_pss_max"@, or_zero(p.pss.1)),
        byte_metric("proc_shared_min"@, or_zero(p.shared.0)),
        byte_metric("proc_shared_max"@, or_zero(p.shared.1)),
        byte_metric("proc_anon_min"@, or_zero(p.anon.0)),
        byte_metric("proc_anon_max"@, or_zero(p.anon.1)),
        byte_metric("global_mem_used_min"@, or_zero(used.0)),
        byte_metric("global_mem_used_max"@, or_zero(used.1)),
        byte_metric("global_cached_min"@, or_zero(g.cached.0)),
        byte_metric("global_cached_max"@, or_zero(g.cached.1)),
        byte_metric("global_swap_free_min"@, or_zero(g.swap_free.0)),
        byte_metric("global_swap_free_max"@, or_zero(g.swap_free.1)),
    ] + (match g.anon {
        Some(a) => seq![
            byte_metric("global_anon_min"@, or_zero(a.0)),
            byte_metric("global_anon_max"@, or_zero(a.1)),
        ],
        None => seq![],
    }) + seq![
        byte_metric("proc_io_read_bytes"@, sat_sub(p.end_read_bytes, p.begin_read_bytes)),
        byte_metric("proc_io_write_bytes"@, sat_sub(p.end_write_bytes, p.begin_write_bytes)),
    ]
}

fn or_zero_exec(o: Option<u64>) -> (r: u64)
    ensures
        r == or_zero(o),
{
    match o {
        Some(x) => x,
        None => 0,
    }
}

fn push_bytes(out: &mut Vec<Metric>, name: &str, value: u64)
    ensures
        metrics_view(final(out)@) == metrics_view(old(out)@).push(byte_metric(name@, value)),
        forall|i: int| 0 <= i < old(out)@.len() ==> final(out)@[i] == old(out)@[i],
        final(out)@.len() == old(out)@.len() + 1,
        final(out)@.last().source@ == PROCFS_SOURCE_NAME@,
        final(out)@.last().timestamp == 0,
{
    push_metric(
        out,
        name.to_owned(),
        MetricValue::U64(value),
        MetricUnit { prefix: UnitPrefix::Base, unit: Unit::Byte },
        PROCFS_SOURCE_NAME,
    );
}

/// The metrics of a phase, every memory value in
/// bytes.
pub fn to_metrics(mem_total: u64, counters: &Counters) -> (r: Vec<Metric>)
    requires
        mem_used_fits(counters.global.mem_available, counters.global.mem_free, counters.global.cached),
    ensures
        metrics_view(r@) == procfs_metrics(mem_total, *counters),
        forall|i: int| 0 <= i < r@.len() ==> (#[trigger] r@[i]).source@ == PROCFS_SOURCE_NAME@,
        forall|i: int| 0 <= i < r@.len() ==> (#[trigger] r@[i]).timestamp == 0,
{
    let p = &counters.proc;
    let g = &counters.global;
    let used = compute_mem_used(mem_total, g.mem_available, g.mem_free, g.cached);
    let mut out: Vec<Metric> = Vec::new();
    push_bytes(&mut out, "proc_vm_size_min", or_zero_exec(p.vm_size.min()));
    push_bytes(&mut out, "proc_vm_size_max", or_zero_exec(p.vm_size.max()));
    push_bytes(&mut out, "proc_rss_min", or_zero_exec(p.rss.min()));
    push_bytes(&mut out, "proc_rss_max", or_zero_exec(p.rss.max()));
    push_bytes(&mut out, "proc_pss_min", or_zero_exec(p.pss.min()));
    push_bytes(&mut out, "proc_pss_max", or_zero_exec(p.pss.max()));
    push_bytes(&mut out, "proc_shared_min", or_zero_exec(p.shared.min()));
    push_bytes(&mut out, "proc_shared_max", or_zero_exec(p.shared.max()));
    push_bytes(&mut out, "proc_anon_min", or_zero_exec(p.anon.min()));
    push_bytes(&mut out, "proc_anon_max", or_zero_exec(p.anon.max()));
    push_bytes(&mut out, "global_mem_used_min", or_zero_exec(used.min()));
    push_bytes(&mut out, "global_mem_used_max", or_zero_exec(used.max()));
    push_bytes(&mut out, "global_cached_min", or_zero_exec(g.cached.min()));
    push_bytes(&mut out, "global_cached_max", or_zero_exec(g.cached.max()));
    push_bytes(&mut out, "global_swap_free_min", or_zero_exec(g.swap_free.min()));
    push_bytes(&mut out, "global_swap_free_max", or_zero_exec(g.swap_free.max()));
    let ghost first = metrics_view(out@);
    if let Some(anon) = g.anon {
        push_bytes(&mut out, "global_anon_min", or_zero_exec(anon.min()));
        push_bytes(&mut out, "global_anon_max", or_zero_exec(anon.max()));
    }
    let ghost second = metrics_view(out@);
    push_bytes(&mut out, "proc_io_read_bytes", p.end_read_bytes.saturating_sub(p.begin_read_bytes));
    push_bytes(
        &mut out,
        "proc_io_write_bytes",
        p.end_write_bytes.saturating_sub(p.begin_write_bytes),
    );
    assert(metrics_view(out@) =~= procfs_metrics(mem_total, *counters));
    out
}

/// The procfs source between phases: the counters of the running phase,
/// the total memory and the processes of the profiled tree.
pub struct Procfs {
    pub config: ProcfsConfig,
    pub mem_total: u64,
    pub counters: Counters,
    pub detected_processes: Vec<i32>,
}

impl Procfs {
    /// A source with the given total memory, no counters and no process.
    pub fn new(config: ProcfsConfig, mem_total: u64) -> (s: Self)
        ensures
            s.config == config,
            s.mem_total == mem_total,
            s.detected_processes@.len() == 0,
            s.counters == Counters::empty(),
    {
        Procfs { config, mem_total, counters: Counters::fresh(), detected_processes: Vec::new() }
    }

    /// Starts following the process tree of `pid`: reads the total memory
    /// of the machine, then collects the tree. A failed
    /// read of the total memory leaves the source as it was.
    pub fn init<B: Backend>(&mut self, backend: &B, pid: i32) -> (r: Result<(), ProcfsError>)
        ensures
            r is Err ==> final(self).mem_total == old(self).mem_total
                && final(self).detected_processes@ == old(self).detected_processes@,
            final(self).counters == old(self).counters,
    {
        let mem_total = backend.mem_total()?;
        self.mem_total = mem_total;
        self.detected_processes = backend.collect_children(pid);
        Ok(())
    }

    /// Collects the process tree of `pid` again and follows it from now on
    /// (one tick of the process discovery).
    pub fn discover<B: Backend>(&mut self, backend: &B, pid: i32)
        ensures
            final(self).counters == old(self).counters,
            final(self).mem_total == old(self).mem_total,
    {
        self.detected_processes = backend.collect_children(pid);
    }

    /// Reads the processes and the system memory into the counters;
    /// see [`measure_and_update_pids`].
    pub fn measure<B: Backend>(&mut self, backend: &B) -> (r: Result<(), ProcfsError>)
        ensures
            r is Err ==> final(self).counters == old(self).counters
                && final(self).detected_processes@ == old(self).detected_processes@,
            r is Ok ==> forall|i: int|
                0 <= i < final(self).detected_processes@.len()
                    ==> old(self).detected_processes@.contains(
                    #[trigger] final(self).detected_processes@[i],
                ),
            r is Ok && distinct(old(self).detected_processes@) ==> distinct(
                final(self).detected_processes@,
            ),
            r is Ok ==> exists|p: ProcSnapshot, g: GlobalSnapshot|
                final(self).counters == #[trigger] old(self).counters.updated(p, g),
            final(self).mem_total == old(self).mem_total,
    {
        measure_and_update_pids(backend, &mut self.counters, &mut self.detected_processes)
    }

    /// The counters of the phase; the next phase starts from reset counters.
    pub fn retrieve(&mut self) -> (r: Counters)
        ensures
            r == old(self).counters,
            final(self).mem_total == old(self).mem_total,
            final(self).detected_processes@ == old(self).detected_processes@,
            final(self).counters.proc.vm_size == MinMax(None, None),
            final(self).counters.proc.begin_read_bytes == old(self).counters.proc.end_read_bytes,
            final(self).counters.proc.begin_write_bytes == old(self).counters.proc.end_write_bytes,
            final(self).counters.global.mem_free == MinMax(None, None),
    {
        let c = self.counters;
        self.counters.reset();
        c
    }

    /// The name of the source.
    pub fn get_name() -> (r: &'static str)
        ensures
            r@ == PROCFS_SOURCE_NAME@,
    {
        PROCFS_SOURCE_NAME
    }

    /// The sensors of the source.
    pub fn get_sensors(&self) -> (r: Vec<AvailableSensor>)
        ensures
            sensors_view(r@) == procfs_sensor_names().map_values(|n: Seq<char>| (n, bytes())),
            forall|i: int| 0 <= i < r@.len() ==> (#[trigger] r@[i]).source@ == PROCFS_SOURCE_NAME@,
    {
        get_sensors()
    }

    /// The metrics of a phase.
    pub fn to_metrics(&self, counters: Counters) -> (r: Vec<Metric>)
        requires
            mem_used_fits(counters.global.mem_available, counters.global.mem_free, counters.global.cached),
        ensures
            metrics_view(r@) == procfs_metrics(self.mem_total, counters),
            forall|i: int| 0 <= i < r@.len() ==> (#[trigger] r@[i]).source@ == PROCFS_SOURCE_NAME@,
            forall|i: int| 0 <= i < r@.len() ==> (#[trigger] r@[i]).timestamp == 0,
    {
        to_metrics(self.mem_total, &counters)
    }
}

} // verus!

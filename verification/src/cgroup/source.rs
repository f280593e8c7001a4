//! The sensors of the cgroup source, the metrics its counters give, and
//! its state between phases.

use vstd::prelude::*;

use crate::amdsmi::source::sensors_view;
use crate::cgroup::backend::{CgroupBackend, ChildCgroup, RootCgroup};
use crate::cgroup::counters::{BeginEnd, Counters, CpuCounters, IoCounters, MemoryCounters, MinMax};
use crate::cgroup::config::CgroupConfig;
use crate::cgroup::error::CgroupError;
use crate::cgroup::fs::path_join;
use crate::cgroup::snapshot::{CpuSnapshot, IoSnapshot, MemorySnapshot};
use crate::procfs::counters::or_zero;
use crate::text::concat3;
use crate::types::{
    AvailableSensor, Metric, MetricUnit, MetricValue, Unit, UnitPrefix, metrics_view, push_metric,
};

verus! {

/// The name of the source.
pub const CGROUP_SOURCE_NAME: &'static str = "cgroup";

/// Bytes.
pub open spec fn byte_unit() -> MetricUnit {
    MetricUnit { prefix: UnitPrefix::Base, unit: Unit::Byte }
}

/// Microseconds.
pub open spec fn usec_unit() -> MetricUnit {
    MetricUnit { prefix: UnitPrefix::Micro, unit: Unit::Second }
}

/// Counts.
pub open spec fn count_unit() -> MetricUnit {
    MetricUnit { prefix: UnitPrefix::Base, unit: Unit::Count }
}

/// The sensors of the cgroup source, with their units.
pub open spec fn cgroup_sensors() -> Seq<(Seq<char>, MetricUnit)> {
    seq![
        ("usage_usec"@, usec_unit()),
        ("user_usec"@, usec_unit()),
        ("system_usec"@, usec_unit()),
        ("nr_periods"@, count_unit()),
        ("nr_throttled"@, count_unit()),
        ("throttled_usec"@, usec_unit()),
        ("nr_bursts"@, count_unit()),
        ("burst_usec"@, usec_unit()),
        ("anon_min"@, byte_unit()),
        ("anon_max"@, byte_unit()),
        ("file_min"@, byte_unit()),
        ("file_max"@, byte_unit()),
        ("kernel_min"@, byte_unit()),
        ("kernel_max"@, byte_unit()),
        ("kernel_stack_min"@, byte_unit()),
        ("kernel_stack_max"@, byte_unit()),
        ("peak_min"@, byte_unit()),
        ("peak_max"@, byte_unit()),
        ("shmem_min"@, byte_unit()),
        ("shmem_max"@, byte_unit()),
        ("slab_min"@, byte_unit()),
        ("slab_max"@, byte_unit()),
        ("swap_current_min"@, byte_unit()),
        ("swap_current_max"@, byte_unit()),
        ("read_bytes"@, byte_unit()),
        ("write_bytes"@, byte_unit()),
    ]
}

/// The sensors of the cgroup source.
pub fn get_sensors() -> (r: Vec<AvailableSensor>)
    ensures
        sensors_view(r@) == cgroup_sensors(),
        forall|i: int| 0 <= i < r@.len() ==> (#[trigger] r@[i]).source@ == CGROUP_SOURCE_NAME@,
{
    let byte = MetricUnit { prefix: UnitPrefix::Base, unit: Unit::Byte };
    let usec = MetricUnit { prefix: UnitPrefix::Micro, unit: Unit::Second };
    let count = MetricUnit { prefix: UnitPrefix::Base, unit: Unit::Count };
    let entries: Vec<(&str, MetricUnit)> = vec![
        ("usage_usec", usec),
        ("user_usec", usec),
        ("system_usec", usec),
        ("nr_periods", count),
        ("nr_throttled", count),
        ("throttled_usec", usec),
        ("nr_bursts", count),
        ("burst_usec", usec),
        ("anon_min", byte),
        ("anon_max", byte),
        ("file_min", byte),
        ("file_max", byte),
        ("kernel_min", byte),
        ("kernel_max", byte),
        ("kernel_stack_min", byte),
        ("kernel_stack_max", byte),
        ("peak_min", byte),
        ("peak_max", byte),
        ("shmem_min", byte),
        ("shmem_max", byte),
        ("slab_min", byte),
        ("slab_max", byte),
        ("swap_current_min", byte),
        ("swap_current_max", byte),
        ("read_bytes", byte),
        ("write_bytes", byte),
    ];
    assert(entries@.map_values(|e: (&str, MetricUnit)| (e.0@, e.1)) =~= cgroup_sensors());
    let mut out: Vec<AvailableSensor> = Vec::new();
    let mut k: usize = 0;
    while k < entries.len()
        invariant
            k <= entries@.len(),
            entries@.map_values(|e: (&str, MetricUnit)| (e.0@, e.1)) == cgroup_sensors(),
            sensors_view(out@) == cgroup_sensors().subrange(0, k as int),
            forall|i: int| 0 <= i < out@.len() ==> (#[trigger] out@[i]).source@
                == CGROUP_SOURCE_NAME@,
        decreases entries@.len() - k,
    {
        let ghost before = out@;
        let (name, unit) = entries[k];
        out.push(AvailableSensor::new(name.to_owned(), unit, CGROUP_SOURCE_NAME.to_owned()));
        proof {
            assert(entries@.map_values(|e: (&str, MetricUnit)| (e.0@, e.1))[k as int] == (
            entries@[k as int].0@, entries@[k as int].1));
            assert(sensors_view(out@) =~= sensors_view(before).push((name@, unit)));
            assert(cgroup_sensors().subrange(0, k + 1) =~= cgroup_sensors().subrange(
                0,
                k as int,
            ).push(cgroup_sensors()[k as int]));
        }
        k = k + 1;
    }
    proof {
        assert(cgroup_sensors().subrange(0, 26) =~= cgroup_sensors());
    }
    out
}

/// The name `<prefix>_<name>`.
pub open spec fn prefixed(prefix: Seq<char>, name: Seq<char>) -> Seq<char> {
    prefix + "_"@ + name
}

/// The bounds of a memory reading, when it was read: `<name>_min` and
/// `<name>_max`, zero for a bound never set.
pub open spec fn minmax_part(prefix: Seq<char>, name: Seq<char>, m: Option<MinMax>) -> Seq<
    (Seq<char>, MetricValue, MetricUnit),
> {
    match m {
        Some(mm) => seq![
            (prefixed(prefix, name + "_min"@), MetricValue::U64(or_zero(mm.0)), byte_unit()),
            (prefixed(prefix, name + "_max"@), MetricValue::U64(or_zero(mm.1)), byte_unit()),
        ],
        None => seq![],
    }
}

/// The growth of a cumulative reading, when it was read.
pub open spec fn begin_end_part(
    prefix: Seq<char>,
    name: Seq<char>,
    b: Option<BeginEnd>,
    unit: MetricUnit,
) -> Seq<(Seq<char>, MetricValue, MetricUnit)> {
    match b {
        Some(x) => seq![(prefixed(prefix, name), MetricValue::U64(x.spec_diff()), unit)],
        None => seq![],
    }
}

/// The memory bounds of a cgroup that were read.
pub open spec fn memory_part(prefix: Seq<char>, memory: MemoryCounters) -> Seq<
    (Seq<char>, MetricValue, MetricUnit),
> {
    minmax_part(prefix, "anon"@, memory.anon) + minmax_part(prefix, "file"@, memory.file)
        + minmax_part(prefix, "kernel"@, memory.kernel) + minmax_part(
        prefix,
        "kernel_stack"@,
        memory.kernel_stack,
    ) + minmax_part(prefix, "peak"@, memory.peak) + minmax_part(prefix, "shmem"@, memory.shmem)
        + minmax_part(prefix, "slab"@, memory.slab) + minmax_part(
        prefix,
        "swap_current"@,
        memory.swap_current,
    )
}

/// The CPU times of a cgroup, then its throttling and bursts that were
/// read.
pub open spec fn cpu_part(prefix: Seq<char>, cpu: CpuCounters) -> Seq<
    (Seq<char>, MetricValue, MetricUnit),
> {
    seq![
        (prefixed(prefix, "usage_usec"@), MetricValue::U64(cpu.usage_usec.spec_diff()), usec_unit()),
        (prefixed(prefix, "user_usec"@), MetricValue::U64(cpu.user_usec.spec_diff()), usec_unit()),
        (prefixed(prefix, "system_usec"@), MetricValue::U64(cpu.system_usec.spec_diff()), usec_unit()),
    ] + begin_end_part(prefix, "nr_periods"@, cpu.nr_periods, count_unit()) + begin_end_part(
        prefix,
        "nr_throttled"@,
        cpu.nr_throttled,
        count_unit(),
    ) + begin_end_part(prefix, "throttled_usec"@, cpu.throttled_usec, usec_unit())
        + begin_end_part(prefix, "nr_bursts"@, cpu.nr_bursts, count_unit()) + begin_end_part(
        prefix,
        "burst_usec"@,
        cpu.burst_usec,
        usec_unit(),
    )
}

/// The I/O of a cgroup that was read.
pub open spec fn io_part(prefix: Seq<char>, io: IoCounters) -> Seq<
    (Seq<char>, MetricValue, MetricUnit),
> {
    begin_end_part(prefix, "read_bytes"@, io.rbytes, byte_unit()) + begin_end_part(
        prefix,
        "write_bytes"@,
        io.wbytes,
        byte_unit(),
    )
}

/// The metrics of one cgroup's counters, every name prefixed: the memory
/// bounds, the CPU times, the CPU throttling and bursts, then the I/O.
pub open spec fn prefixed_metrics(
    prefix: Seq<char>,
    memory: MemoryCounters,
    cpu: CpuCounters,
    io: IoCounters,
) -> Seq<(Seq<char>, MetricValue, MetricUnit)> {
    memory_part(prefix, memory) + cpu_part(prefix, cpu) + io_part(prefix, io)
}

fn push_named(out: &mut Vec<Metric>, prefix: &str, name: &str, value: u64, unit: MetricUnit)
    ensures
        metrics_view(final(out)@) == metrics_view(old(out)@).push(
            (prefixed(prefix@, name@), MetricValue::U64(value), unit),
        ),
        forall|i: int| 0 <= i < old(out)@.len() ==> final(out)@[i] == old(out)@[i],
        final(out)@.len() == old(out)@.len() + 1,
        final(out)@.last().source@ == CGROUP_SOURCE_NAME@,
        final(out)@.last().timestamp == 0,
{
    proof {
        reveal_strlit("_");
    }
    push_metric(out, concat3(prefix, "_", name), MetricValue::U64(value), unit, CGROUP_SOURCE_NAME);
}

fn push_minmax(out: &mut Vec<Metric>, prefix: &str, name: &str, m: Option<MinMax>)
    ensures
        metrics_view(final(out)@) == metrics_view(old(out)@) + minmax_part(prefix@, name@, m),
        forall|i: int| 0 <= i < old(out)@.len() ==> final(out)@[i] == old(out)@[i],
        forall|i: int|
            old(out)@.len() <= i < final(out)@.len() ==> (#[trigger] final(out)@[i]).source@
                == CGROUP_SOURCE_NAME@ && final(out)@[i].timestamp == 0,
{
    let ghost start = metrics_view(out@);
    let byte = MetricUnit { prefix: UnitPrefix::Base, unit: Unit::Byte };
    if let Some(mm) = m {
        let lo = match mm.min() {
            Some(x) => x,
            None => 0,
        };
        let hi = match mm.max() {
            Some(x) => x,
            None => 0,
        };
        let min_name = concat3(name, "_min", "");
        let max_name = concat3(name, "_max", "");
        proof {
            reveal_strlit("");
        }
        push_named(out, prefix, min_name.as_str(), lo, byte);
        push_named(out, prefix, max_name.as_str(), hi, byte);
        assert(metrics_view(out@) =~= start + minmax_part(prefix@, name@, m));
    } else {
        assert(metrics_view(out@) =~= start + minmax_part(prefix@, name@, m));
    }
}

fn push_begin_end(out: &mut Vec<Metric>, prefix: &str, name: &str, b: Option<BeginEnd>, unit: MetricUnit)
    ensures
        metrics_view(final(out)@) == metrics_view(old(out)@) + begin_end_part(prefix@, name@, b, unit),
        forall|i: int| 0 <= i < old(out)@.len() ==> final(out)@[i] == old(out)@[i],
        forall|i: int|
            old(out)@.len() <= i < final(out)@.len() ==> (#[trigger] final(out)@[i]).source@
                == CGROUP_SOURCE_NAME@ && final(out)@[i].timestamp == 0,
{
    let ghost start = metrics_view(out@);
    if let Some(x) = b {
        push_named(out, prefix, name, x.diff(), unit);
    }
    assert(metrics_view(out@) =~= start + begin_end_part(prefix@, name@, b, unit));
}

#[verifier::rlimit(40)]
fn push_memory(out: &mut Vec<Metric>, prefix: &str, memory: &MemoryCounters)
    ensures
        metrics_view(final(out)@) == metrics_view(old(out)@) + memory_part(prefix@, *memory),
        forall|i: int| 0 <= i < old(out)@.len() ==> final(out)@[i] == old(out)@[i],
        forall|i: int|
            old(out)@.len() <= i < final(out)@.len() ==> (#[trigger] final(out)@[i]).source@
                == CGROUP_SOURCE_NAME@ && final(out)@[i].timestamp == 0,
{
    let ghost s0 = metrics_view(out@);
    push_minmax(out, prefix, "anon", memory.anon);
    push_minmax(out, prefix, "file", memory.file);
    push_minmax(out, prefix, "kernel", memory.kernel);
    push_minmax(out, prefix, "kernel_stack", memory.kernel_stack);
    let ghost s1 = metrics_view(out@);
    assert(s1 =~= s0 + minmax_part(prefix@, "anon"@, memory.anon) + minmax_part(prefix@, "file"@, memory.file)
        + minmax_part(prefix@, "kernel"@, memory.kernel) + minmax_part(
        prefix@,
        "kernel_stack"@,
        memory.kernel_stack,
    ));
    push_minmax(out, prefix, "peak", memory.peak);
    push_minmax(out, prefix, "shmem", memory.shmem);
    push_minmax(out, prefix, "slab", memory.slab);
    push_minmax(out, prefix, "swap_current", memory.swap_current);
    assert(metrics_view(out@) =~= s0 + memory_part(prefix@, *memory));
}

#[verifier::rlimit(40)]
fn push_cpu(out: &mut Vec<Metric>, prefix: &str, cpu: &CpuCounters)
    ensures
        metrics_view(final(out)@) == metrics_view(old(out)@) + cpu_part(prefix@, *cpu),
        forall|i: int| 0 <= i < old(out)@.len() ==> final(out)@[i] == old(out)@[i],
        forall|i: int|
            old(out)@.len() <= i < final(out)@.len() ==> (#[trigger] final(out)@[i]).source@
                == CGROUP_SOURCE_NAME@ && final(out)@[i].timestamp == 0,
{
    let ghost s0 = metrics_view(out@);
    let usec = MetricUnit { prefix: UnitPrefix::Micro, unit: Unit::Second };
    let count = MetricUnit { prefix: UnitPrefix::Base, unit: Unit::Count };
    push_named(out, prefix, "usage_usec", cpu.usage_usec.diff(), usec);
    push_named(out, prefix, "user_usec", cpu.user_usec.diff(), usec);
    push_named(out, prefix, "system_usec", cpu.system_usec.diff(), usec);
    let ghost s1 = metrics_view(out@);
    assert(s1 =~= s0 + seq![
        (prefixed(prefix@, "usage_usec"@), MetricValue::U64(cpu.usage_usec.spec_diff()), usec_unit()),
        (prefixed(prefix@, "user_usec"@), MetricValue::U64(cpu.user_usec.spec_diff()), usec_unit()),
        (prefixed(prefix@, "system_usec"@), MetricValue::U64(cpu.system_usec.spec_diff()), usec_unit()),
    ]);
    push_begin_end(out, prefix, "nr_periods", cpu.nr_periods, count);
    push_begin_end(out, prefix, "nr_throttled", cpu.nr_throttled, count);
    push_begin_end(out, prefix, "throttled_usec", cpu.throttled_usec, usec);
    push_begin_end(out, prefix, "nr_bursts", cpu.nr_bursts, count);
    push_begin_end(out, prefix, "burst_usec", cpu.burst_usec, usec);
    assert(metrics_view(out@) =~= s0 + cpu_part(prefix@, *cpu));
}

/// The metrics of one cgroup's counters, every name prefixed with
/// `<prefix>_`: the memory bounds that were read, the CPU times, the CPU
/// throttling and bursts that were read, then the I/O that was read.
pub fn to_metrics(memory: &MemoryCounters, cpu: &CpuCounters, io: &IoCounters, prefix: &str) -> (r:
    Vec<Metric>)
    ensures
        metrics_view(r@) == prefixed_metrics(prefix@, *memory, *cpu, *io),
        forall|i: int| 0 <= i < r@.len() ==> (#[trigger] r@[i]).source@ == CGROUP_SOURCE_NAME@,
        forall|i: int| 0 <= i < r@.len() ==> (#[trigger] r@[i]).timestamp == 0,
{
    let byte = MetricUnit { prefix: UnitPrefix::Base, unit: Unit::Byte };
    let mut out: Vec<Metric> = Vec::new();
    push_memory(&mut out, prefix, memory);
    push_cpu(&mut out, prefix, cpu);
    let ghost s1 = metrics_view(out@);
    push_begin_end(&mut out, prefix, "read_bytes", io.rbytes, byte);
    push_begin_end(&mut out, prefix, "write_bytes", io.wbytes, byte);
    assert(metrics_view(out@) =~= s1 + io_part(prefix@, *io));
    assert(metrics_view(out@) =~= prefixed_metrics(prefix@, *memory, *cpu, *io));
    out
}

/// The length of a phase in microseconds: the time between its bounds,
/// zero when they are reversed or when it does not fit in a `u64`.
pub open spec fn spec_phase_duration(begin: u128, end: u128) -> u64 {
    if end >= begin && end - begin <= u64::MAX {
        (end - begin) as u64
    } else {
        0
    }
}

/// The length of a phase in microseconds, the divisor of its CPU usage
/// ratios; zero when the end comes first or the length does not fit in a
/// `u64`.
pub fn phase_duration(begin: u128, end: u128) -> (d: u64)
    ensures
        d == spec_phase_duration(begin, end),
{
    let span = end.saturating_sub(begin);
    if span <= 0xffff_ffff_ffff_ffffu128 {
        span as u64
    } else {
        0
    }
}

/// The cgroup source between phases: the handles on the process cgroup
/// and on the root cgroup, and the counters of the running phase.
pub struct Cgroup<B: CgroupBackend> {
    pub config: CgroupConfig,
    pub proc_cgroup: ChildCgroup<B>,
    pub root_cgroup: RootCgroup<B>,
    pub proc_memory_counters: MemoryCounters,
    pub global_memory_counters: MemoryCounters,
    pub proc_cpu_counters: CpuCounters,
    pub global_cpu_counters: CpuCounters,
    pub proc_io_counters: IoCounters,
    pub global_io_counters: IoCounters,
    pub begin_timestamp: u128,
    pub end_timestamp: u128,
}

/// What a measurement did: every counter took one snapshot, and the phase
/// now ends at `now`.
pub open spec fn measured<B: CgroupBackend>(
    before: Cgroup<B>,
    after: Cgroup<B>,
    now: u128,
    pm: MemorySnapshot,
    pc: CpuSnapshot,
    pi: IoSnapshot,
    gm: MemorySnapshot,
    gc: CpuSnapshot,
    gi: IoSnapshot,
) -> bool {
    &&& after.end_timestamp == now
    &&& after.begin_timestamp == before.begin_timestamp
    &&& after.proc_memory_counters == before.proc_memory_counters.updated(pm)
    &&& after.proc_cpu_counters == before.proc_cpu_counters.updated(pc)
    &&& after.proc_io_counters == before.proc_io_counters.updated(pi)
    &&& after.global_memory_counters == before.global_memory_counters.updated(gm)
    &&& after.global_cpu_counters == before.global_cpu_counters.updated(gc)
    &&& after.global_io_counters == before.global_io_counters.updated(gi)
}

/// The snapshots are the backend's answers: those of the process
/// cgroup for its path, and those of the root cgroup for the root's.
pub open spec fn answered<B: CgroupBackend>(
    c: Cgroup<B>,
    pm: MemorySnapshot,
    pc: CpuSnapshot,
    pi: IoSnapshot,
    gm: MemorySnapshot,
    gc: CpuSnapshot,
    gi: IoSnapshot,
) -> bool {
    let pb = c.proc_cgroup.backend();
    let pp = c.proc_cgroup.path()@;
    let rb = c.root_cgroup.backend();
    let rp = c.root_cgroup.path()@;
    &&& pb.memory_post(pp, Ok::<MemorySnapshot, CgroupError>(pm))
    &&& pb.cpu_post(pp, Ok::<CpuSnapshot, CgroupError>(pc))
    &&& pb.io_post(pp, Ok::<IoSnapshot, CgroupError>(pi))
    &&& rb.memory_post(rp, Ok::<MemorySnapshot, CgroupError>(gm))
    &&& rb.cpu_post(rp, Ok::<CpuSnapshot, CgroupError>(gc))
    &&& rb.io_post(rp, Ok::<IoSnapshot, CgroupError>(gi))
}

impl<B: CgroupBackend> Cgroup<B> {
    /// The source for `config`: the root cgroup and
    /// the process cgroup it names, with no readings. Creating a cgroup or
    /// attaching a process needs root privileges, which `is_root` tells.
    pub fn from_config(config: CgroupConfig, is_root: bool) -> (r: Result<Self, CgroupError>)
        ensures
            r is Err <==> (config.attach_pid || config.create_cgroup) && !is_root,
            r matches Err(e) ==> e is PermissionDenied,
            r matches Ok(c) ==> {
                &&& c.root_cgroup.path()@ == match config.cgroup_root {
                    Some(p) => p@,
                    None => crate::cgroup::backend::DEFAULT_CGROUP_ROOT@,
                }
                &&& c.proc_cgroup.path()@ == path_join(c.root_cgroup.path()@, config.cgroup_name@)
                &&& c.config == config
                &&& c.proc_memory_counters == MemoryCounters::empty()
                &&& c.global_memory_counters == MemoryCounters::empty()
                &&& c.proc_cpu_counters == CpuCounters::empty()
                &&& c.global_cpu_counters == CpuCounters::empty()
                &&& c.proc_io_counters == IoCounters::empty()
                &&& c.global_io_counters == IoCounters::empty()
                &&& c.begin_timestamp == 0
                &&& c.end_timestamp == 0
            },
    {
        if (config.attach_pid || config.create_cgroup) && !is_root {
            return Err(
                CgroupError::PermissionDenied(
                    "the cgroup source requires root privileges to create a cgroup or attach a process.".to_owned(),
                ),
            );
        }
        let (root_cgroup, proc_cgroup) = RootCgroup::build(
            config.cgroup_root.clone(),
            config.cgroup_name.as_str(),
        );
        Ok(
            Cgroup {
                config,
                proc_cgroup,
                root_cgroup,
                proc_memory_counters: empty_memory(),
                global_memory_counters: empty_memory(),
                proc_cpu_counters: empty_cpu(),
                global_cpu_counters: empty_cpu(),
                proc_io_counters: IoCounters { rbytes: None, wbytes: None },
                global_io_counters: IoCounters { rbytes: None, wbytes: None },
                begin_timestamp: 0,
                end_timestamp: 0,
            },
        )
    }

    /// Creates the process cgroup when the configuration asks for it.
    pub fn pre_init(&mut self) -> (r: Result<(), CgroupError>)
        ensures
            !old(self).config.create_cgroup ==> r is Ok,
    {
        if self.config.create_cgroup {
            self.proc_cgroup.create()
        } else {
            Ok(())
        }
    }

    /// Attaches the profiled process when the configuration asks for it,
    /// and starts the first phase at `now`.
    pub fn init(&mut self, pid: i32, now: u128) -> (r: Result<(), CgroupError>)
        ensures
            r is Ok ==> final(self).begin_timestamp == now,
            !old(self).config.attach_pid ==> r is Ok,
    {
        if self.config.attach_pid {
            match self.proc_cgroup.attach_pid(pid) {
                Ok(()) => {},
                Err(e) => return Err(e),
            }
        }
        self.begin_timestamp = now;
        Ok(())
    }

    /// Takes one snapshot of each cgroup into the counters, the phase then
    /// ending at `now`. Readings are taken in turn and
    /// a failure stops there.
    pub fn measure(&mut self, now: u128) -> (r: Result<(), CgroupError>)
        ensures
            final(self).end_timestamp == now,
            r is Ok ==> exists|
                pm: MemorySnapshot,
                pc: CpuSnapshot,
                pi: IoSnapshot,
                gm: MemorySnapshot,
                gc: CpuSnapshot,
                gi: IoSnapshot,
            |
                #![trigger measured(*old(self), *final(self), now, pm, pc, pi, gm, gc, gi)]
                measured(*old(self), *final(self), now, pm, pc, pi, gm, gc, gi) && answered(
                    *old(self),
                    pm,
                    pc,
                    pi,
                    gm,
                    gc,
                    gi,
                ),
            final(self).proc_cgroup == old(self).proc_cgroup,
            final(self).root_cgroup == old(self).root_cgroup,
    {
        self.end_timestamp = now;
        let pm = match self.proc_cgroup.memory() {
            Ok(s) => s,
            Err(e) => return Err(e),
        };
        self.proc_memory_counters.update(&pm);
        let pc = match self.proc_cgroup.cpu() {
            Ok(s) => s,
            Err(e) => return Err(e),
        };
        self.proc_cpu_counters.update(&pc);
        let pi = match self.proc_cgroup.io() {
            Ok(s) => s,
            Err(e) => return Err(e),
        };
        self.proc_io_counters.update(&pi);
        let gm = match self.root_cgroup.memory() {
            Ok(s) => s,
            Err(e) => return Err(e),
        };
        self.global_memory_counters.update(&gm);
        let gc = match self.root_cgroup.cpu() {
            Ok(s) => s,
            Err(e) => return Err(e),
        };
        self.global_cpu_counters.update(&gc);
        let gi = match self.root_cgroup.io() {
            Ok(s) => s,
            Err(e) => return Err(e),
        };
        self.global_io_counters.update(&gi);
        assert(measured(*old(self), *self, now, pm, pc, pi, gm, gc, gi));
        assert(answered(*old(self), pm, pc, pi, gm, gc, gi));
        Ok(())
    }

    /// One tick of the memory polling between measures:
    /// a memory snapshot of the process cgroup,
    /// then one of the root cgroup, each into its counters. A failure
    /// stops there.
    pub fn poll_memory(&mut self) -> (r: Result<(), CgroupError>)
        ensures
            r is Ok ==> exists|pm: MemorySnapshot, gm: MemorySnapshot|
                #![trigger old(self).proc_memory_counters.updated(pm), old(self).global_memory_counters.updated(gm)]
                final(self).proc_memory_counters == old(self).proc_memory_counters.updated(pm)
                    && final(self).global_memory_counters == old(self).global_memory_counters.updated(gm)
                    && old(self).proc_cgroup.backend().memory_post(
                    old(self).proc_cgroup.path()@,
                    Ok::<MemorySnapshot, CgroupError>(pm),
                ) && old(self).root_cgroup.backend().memory_post(
                    old(self).root_cgroup.path()@,
                    Ok::<MemorySnapshot, CgroupError>(gm),
                ),
            final(self).proc_cgroup == old(self).proc_cgroup,
            final(self).root_cgroup == old(self).root_cgroup,
            final(self).proc_cpu_counters == old(self).proc_cpu_counters,
            final(self).global_cpu_counters == old(self).global_cpu_counters,
            final(self).proc_io_counters == old(self).proc_io_counters,
            final(self).global_io_counters == old(self).global_io_counters,
            final(self).begin_timestamp == old(self).begin_timestamp,
            final(self).end_timestamp == old(self).end_timestamp,
    {
        let pm = match self.proc_cgroup.memory() {
            Ok(s) => s,
            Err(e) => return Err(e),
        };
        self.proc_memory_counters.update(&pm);
        let gm = match self.root_cgroup.memory() {
            Ok(s) => s,
            Err(e) => return Err(e),
        };
        self.global_memory_counters.update(&gm);
        Ok(())
    }

    /// The counters of the phase; the next phase starts where this one
    /// ended, with empty memory counters.
    pub fn retrieve(&mut self) -> (r: Counters)
        ensures
            r == (Counters {
                proc_memory: old(self).proc_memory_counters,
                proc_cpu: old(self).proc_cpu_counters,
                proc_io: old(self).proc_io_counters,
                global_memory: old(self).global_memory_counters,
                global_cpu: old(self).global_cpu_counters,
                global_io: old(self).global_io_counters,
                begin_timestamp: old(self).begin_timestamp,
                end_timestamp: old(self).end_timestamp,
            }),
            final(self).proc_memory_counters == MemoryCounters::empty(),
            final(self).global_memory_counters == MemoryCounters::empty(),
            final(self).proc_cpu_counters == old(self).proc_cpu_counters.next_phase(),
            final(self).global_cpu_counters == old(self).global_cpu_counters.next_phase(),
            final(self).proc_io_counters == old(self).proc_io_counters.next_phase(),
            final(self).global_io_counters == old(self).global_io_counters.next_phase(),
            final(self).begin_timestamp == old(self).end_timestamp,
            final(self).end_timestamp == old(self).end_timestamp,
    {
        let proc_memory = self.proc_memory_counters;
        self.proc_memory_counters.reset();
        let proc_cpu = self.proc_cpu_counters;
        self.proc_cpu_counters.new_phase();
        let proc_io = self.proc_io_counters;
        self.proc_io_counters.new_phase();
        let global_memory = self.global_memory_counters;
        self.global_memory_counters.reset();
        let global_cpu = self.global_cpu_counters;
        self.global_cpu_counters.new_phase();
        let global_io = self.global_io_counters;
        self.global_io_counters.new_phase();
        let begin_timestamp = self.begin_timestamp;
        self.begin_timestamp = self.end_timestamp;
        Counters {
            proc_memory,
            proc_cpu,
            proc_io,
            global_memory,
            global_cpu,
            global_io,
            begin_timestamp,
            end_timestamp: self.end_timestamp,
        }
    }

    /// Removes the process cgroup when the source created it.
    pub fn join(&mut self) -> (r: Result<(), CgroupError>)
        ensures
            !old(self).config.create_cgroup ==> r is Ok,
    {
        if self.config.create_cgroup {
            self.proc_cgroup.cleanup()
        } else {
            Ok(())
        }
    }

    /// The name of the source.
    pub fn get_name() -> (r: &'static str)
        ensures
            r@ == CGROUP_SOURCE_NAME@,
    {
        CGROUP_SOURCE_NAME
    }

    /// The sensors of the source.
    pub fn get_sensors(&self) -> (r: Vec<AvailableSensor>)
        ensures
            sensors_view(r@) == cgroup_sensors(),
            forall|i: int| 0 <= i < r@.len() ==> (#[trigger] r@[i]).source@ == CGROUP_SOURCE_NAME@,
    {
        get_sensors()
    }

    /// The integer metrics of a phase: those of the
    /// process cgroup prefixed `proc`, then those of the root cgroup
    /// prefixed `global`. The CPU usage ratios, which are floating point,
    /// are computed by the caller from [`phase_duration`].
    pub fn to_metrics(&self, counters: &Counters) -> (r: Vec<Metric>)
        ensures
            metrics_view(r@) == prefixed_metrics(
                "proc"@,
                counters.proc_memory,
                counters.proc_cpu,
                counters.proc_io,
            ) + prefixed_metrics(
                "global"@,
                counters.global_memory,
                counters.global_cpu,
                counters.global_io,
            ),
            forall|i: int| 0 <= i < r@.len() ==> (#[trigger] r@[i]).source@ == CGROUP_SOURCE_NAME@,
            forall|i: int| 0 <= i < r@.len() ==> (#[trigger] r@[i]).timestamp == 0,
    {
        let mut out = to_metrics(
            &counters.proc_memory,
            &counters.proc_cpu,
            &counters.proc_io,
            "proc",
        );
        let g = to_metrics(
            &counters.global_memory,
            &counters.global_cpu,
            &counters.global_io,
            "global",
        );
        let ghost a = metrics_view(out@);
        let ghost b = metrics_view(g@);
        let mut g = g;
        let ghost ov = out@;
        let ghost gv = g@;
        out.append(&mut g);
        assert(metrics_view(out@) =~= a + b);
        assert(out@ =~= ov + gv);
        assert forall|i: int| 0 <= i < out@.len() implies (#[trigger] out@[i]).source@
            == CGROUP_SOURCE_NAME@ && out@[i].timestamp == 0 by {
            if i >= ov.len() {
                assert(out@[i] == gv[i - ov.len()]);
            }
        }
        out
    }
}

fn empty_memory() -> (m: MemoryCounters)
    ensures
        m == MemoryCounters::empty(),
{
    MemoryCounters {
        current: None,
        swap_current: None,
        anon: None,
        file: None,
        peak: None,
        shmem: None,
        kernel: None,
        kernel_stack: None,
        slab: None,
    }
}

fn empty_cpu() -> (c: CpuCounters)
    ensures
        c == CpuCounters::empty(),
{
    CpuCounters {
        usage_usec: BeginEnd(None, None),
        user_usec: BeginEnd(None, None),
        system_usec: BeginEnd(None, None),
        nr_periods: None,
        nr_throttled: None,
        throttled_usec: None,
        nr_bursts: None,
        burst_usec: None,
    }
}

} // verus!

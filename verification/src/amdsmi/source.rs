//! The GPUs of the AMD SMI source, the sensors they offer and the metrics
//! their counters give.

use vstd::prelude::*;

use crate::amdsmi::counters::{Counter, PowerCounter, trapezoid_energy};
use crate::text::concat3;
use crate::types::{
    AvailableSensor, Metric, MetricUnit, MetricValue, Unit, UnitPrefix, metrics_view, push_metric,
};

verus! {

/// The readings a GPU supports, as bit flags.
#[derive(Debug, Clone, Copy, PartialEq, Eq, Structural)]
pub struct ProcessorSupport {
    pub bits: u8,
}

impl ProcessorSupport {
    /// Cumulative energy counter.
    pub const ENERGY: u8 = 1;
    /// Instantaneous power.
    pub const POWER: u8 = 2;
    /// VRAM usage.
    pub const VRAM: u8 = 4;
    /// GPU utilization.
    pub const UTILIZATION: u8 = 8;

    /// Whether every flag of `flag` is set.
    pub open spec fn has(self, flag: u8) -> bool {
        self.bits & flag == flag
    }

    /// No reading supported.
    pub fn empty() -> (s: Self)
        ensures
            s.bits == 0,
    {
        ProcessorSupport { bits: 0 }
    }

    /// The support made of the given flags.
    pub fn from_bits(bits: u8) -> (s: Self)
        ensures
            s.bits == bits,
    {
        ProcessorSupport { bits }
    }

    /// Whether every flag of `flag` is set.
    pub fn contains(&self, flag: u8) -> (b: bool)
        ensures
            b == self.has(flag),
    {
        self.bits & flag == flag
    }

    /// Adds the flags of `flag`.
    pub fn insert(&mut self, flag: u8)
        ensures
            final(self).bits == old(self).bits | flag,
    {
        self.bits = self.bits | flag;
    }

    /// Whether no reading is supported.
    pub fn is_empty(&self) -> (b: bool)
        ensures
            b == (self.bits == 0),
    {
        self.bits == 0
    }
}

/// A GPU, with the readings it supports.
#[derive(Debug, Clone)]
pub struct Processor {
    pub uuid: String,
    pub support: ProcessorSupport,
}

/// The name of the source.
pub const AMDSMI_SOURCE_NAME: &'static str = "amdsmi";

/// Microjoules.
pub open spec fn micro_joule() -> MetricUnit {
    MetricUnit { prefix: UnitPrefix::Micro, unit: Unit::Joule }
}

/// Bytes.
pub open spec fn byte_unit() -> MetricUnit {
    MetricUnit { prefix: UnitPrefix::Base, unit: Unit::Byte }
}

/// Percents.
pub open spec fn percent_unit() -> MetricUnit {
    MetricUnit { prefix: UnitPrefix::Base, unit: Unit::Percent }
}

/// The name of a sensor of a GPU: `GPU-<uuid>-<suffix>`.
pub open spec fn gpu_sensor(uuid: Seq<char>, suffix: Seq<char>) -> Seq<char> {
    "GPU-"@ + uuid + suffix
}

/// The sensors of one GPU, with their units: the energy when it reports
/// energy or power, the VRAM bounds, the utilization bounds.
pub open spec fn processor_sensors(p: Processor) -> Seq<(Seq<char>, MetricUnit)> {
    let uuid = p.uuid@;
    (if p.support.has(ProcessorSupport::ENERGY) || p.support.has(ProcessorSupport::POWER) {
        seq![(gpu_sensor(uuid, "-energy"@), micro_joule())]
    } else {
        seq![]
    }) + (if p.support.has(ProcessorSupport::VRAM) {
        seq![
            (gpu_sensor(uuid, "-vram_min"@), byte_unit()),
            (gpu_sensor(uuid, "-vram_max"@), byte_unit()),
        ]
    } else {
        seq![]
    }) + (if p.support.has(ProcessorSupport::UTILIZATION) {
        seq![
            (gpu_sensor(uuid, "-utilization_min"@), percent_unit()),
            (gpu_sensor(uuid, "-utilization_max"@), percent_unit()),
        ]
    } else {
        seq![]
    })
}

/// The sensors of the GPUs, in order.
pub open spec fn all_sensors(ps: Seq<Processor>) -> Seq<(Seq<char>, MetricUnit)>
    decreases ps.len(),
{
    if ps.len() == 0 {
        seq![]
    } else {
        all_sensors(ps.drop_last()) + processor_sensors(ps.last())
    }
}

/// Sensors seen as names and units.
pub open spec fn sensors_view(s: Seq<AvailableSensor>) -> Seq<(Seq<char>, MetricUnit)> {
    s.map_values(|x: AvailableSensor| (x.name@, x.unit))
}

fn push_sensor(out: &mut Vec<AvailableSensor>, name: String, unit: MetricUnit)
    ensures
        sensors_view(final(out)@) == sensors_view(old(out)@).push((name@, unit)),
        forall|i: int| 0 <= i < old(out)@.len() ==> final(out)@[i] == old(out)@[i],
        final(out)@.len() == old(out)@.len() + 1,
        final(out)@.last().source@ == AMDSMI_SOURCE_NAME@,
{
    let ghost before = out@;
    out.push(AvailableSensor::new(name, unit, AMDSMI_SOURCE_NAME.to_owned()));
    proof {
        assert(sensors_view(out@) =~= sensors_view(before).push((name@, unit)));
    }
}

/// The sensors of the GPUs.
pub fn get_sensors(processors: &Vec<Processor>) -> (r: Vec<AvailableSensor>)
    ensures
        sensors_view(r@) == all_sensors(processors@),
        forall|i: int| 0 <= i < r@.len() ==> (#[trigger] r@[i]).source@ == AMDSMI_SOURCE_NAME@,
{
    let mut out: Vec<AvailableSensor> = Vec::new();
    let mut k: usize = 0;
    while k < processors.len()
        invariant
            0 <= k <= processors@.len(),
            sensors_view(out@) == all_sensors(processors@.subrange(0, k as int)),
            forall|i: int| 0 <= i < out@.len() ==> (#[trigger] out@[i]).source@
                == AMDSMI_SOURCE_NAME@,
        decreases processors@.len() - k,
    {
        let p = &processors[k];
        let ghost start = sensors_view(out@);
        let uuid = p.uuid.as_str();
        let energy_unit = MetricUnit { prefix: UnitPrefix::Micro, unit: Unit::Joule };
        let byte = MetricUnit { prefix: UnitPrefix::Base, unit: Unit::Byte };
        let percent = MetricUnit { prefix: UnitPrefix::Base, unit: Unit::Percent };
        let ghost e_part: Seq<(Seq<char>, MetricUnit)> = if p.support.has(ProcessorSupport::ENERGY)
            || p.support.has(ProcessorSupport::POWER) {
            seq![(gpu_sensor(p.uuid@, "-energy"@), micro_joule())]
        } else {
            seq![]
        };
        let ghost v_part: Seq<(Seq<char>, MetricUnit)> = if p.support.has(ProcessorSupport::VRAM) {
            seq![
                (gpu_sensor(p.uuid@, "-vram_min"@), byte_unit()),
                (gpu_sensor(p.uuid@, "-vram_max"@), byte_unit()),
            ]
        } else {
            seq![]
        };
        let ghost u_part: Seq<(Seq<char>, MetricUnit)> = if p.support.has(
            ProcessorSupport::UTILIZATION,
        ) {
            seq![
                (gpu_sensor(p.uuid@, "-utilization_min"@), percent_unit()),
                (gpu_sensor(p.uuid@, "-utilization_max"@), percent_unit()),
            ]
        } else {
            seq![]
        };
        if p.support.contains(ProcessorSupport::ENERGY) || p.support.contains(
            ProcessorSupport::POWER,
        ) {
            push_sensor(&mut out, concat3("GPU-", uuid, "-energy"), energy_unit);
        }
        assert(sensors_view(out@) == start + e_part);
        if p.support.contains(ProcessorSupport::VRAM) {
            push_sensor(&mut out, concat3("GPU-", uuid, "-vram_min"), byte);
            push_sensor(&mut out, concat3("GPU-", uuid, "-vram_max"), byte);
        }
        assert(sensors_view(out@) =~= start + e_part + v_part);
        if p.support.contains(ProcessorSupport::UTILIZATION) {
            push_sensor(&mut out, concat3("GPU-", uuid, "-utilization_min"), percent);
            push_sensor(&mut out, concat3("GPU-", uuid, "-utilization_max"), percent);
        }
        assert(sensors_view(out@) =~= start + e_part + v_part + u_part);
        proof {
            let ps = processors@.subrange(0, k + 1);
            assert(ps.drop_last() =~= processors@.subrange(0, k as int));
            assert(ps.last() == processors@[k as int]);
            assert(processor_sensors(processors@[k as int]) =~= e_part + v_part + u_part);
        }
        k = k + 1;
    }
    proof {
        assert(processors@.subrange(0, processors@.len() as int) =~= processors@);
    }
    out
}


/// The energy of a phase: the difference of the energy counter when the GPU
/// has one, else the energy integrated from the power samples.
pub open spec fn counter_energy(c: Counter) -> Option<u64> {
    match c.energy {
        Some(e) => e.spec_diff(),
        None => match c.power {
            Some(p) => Some(trapezoid_energy(p.0@) as u64),
            None => None,
        },
    }
}

/// Whether the energy of the counter can be integrated from its power
/// samples where it has to be.
pub open spec fn counter_computable(c: Counter) -> bool {
    c.energy is None ==> (c.power matches Some(p) ==> p.computable())
}

/// The metrics of one GPU's counters: the energy, then the VRAM bounds, then
/// the utilization bounds, each only where it was measured.
pub open spec fn counter_metrics(uuid: Seq<char>, c: Counter) -> Seq<
    (Seq<char>, MetricValue, MetricUnit),
> {
    (match counter_energy(c) {
        Some(e) => seq![(gpu_sensor(uuid, "-energy"@), MetricValue::U64(e), micro_joule())],
        None => seq![],
    }) + (match c.vram {
        Some(v) => match (v.min, v.max) {
            (Some(lo), Some(hi)) => seq![
                (gpu_sensor(uuid, "-vram_min"@), MetricValue::U64(lo), byte_unit()),
                (gpu_sensor(uuid, "-vram_max"@), MetricValue::U64(hi), byte_unit()),
            ],
            _ => seq![],
        },
        None => seq![],
    }) + (match c.utilization {
        Some(u) => match (u.min, u.max) {
            (Some(lo), Some(hi)) => seq![
                (gpu_sensor(uuid, "-utilization_min"@), MetricValue::U64(lo as u64), percent_unit()),
                (gpu_sensor(uuid, "-utilization_max"@), MetricValue::U64(hi as u64), percent_unit()),
            ],
            _ => seq![],
        },
        None => seq![],
    })
}

/// The metrics of the counters of a phase, in order; a counter whose index
/// names no GPU gives none.
pub open spec fn result_metrics(ps: Seq<Processor>, r: Seq<(usize, Counter)>) -> Seq<
    (Seq<char>, MetricValue, MetricUnit),
>
    decreases r.len(),
{
    if r.len() == 0 {
        seq![]
    } else {
        result_metrics(ps, r.drop_last()) + (if (r.last().0 as int) < ps.len() {
            counter_metrics(ps[r.last().0 as int].uuid@, r.last().1)
        } else {
            seq![]
        })
    }
}

/// Appends the metrics of one GPU's counters.
fn push_counter_metrics(out: &mut Vec<Metric>, uuid: &str, c: &Counter)
    requires
        counter_computable(*c),
    ensures
        metrics_view(final(out)@) == metrics_view(old(out)@) + counter_metrics(uuid@, *c),
        forall|i: int|
            old(out)@.len() <= i < final(out)@.len() ==> (#[trigger] final(out)@[i]).source@
                == AMDSMI_SOURCE_NAME@,
        forall|i: int|
            old(out)@.len() <= i < final(out)@.len() ==> (#[trigger] final(out)@[i]).timestamp
                == 0,
        forall|i: int| 0 <= i < old(out)@.len() ==> final(out)@[i] == old(out)@[i],
{
    let ghost start = metrics_view(out@);
    let ghost n0 = out@.len();
    let energy_unit = MetricUnit { prefix: UnitPrefix::Micro, unit: Unit::Joule };
    let byte = MetricUnit { prefix: UnitPrefix::Base, unit: Unit::Byte };
    let percent = MetricUnit { prefix: UnitPrefix::Base, unit: Unit::Percent };
    let energy: Option<u64> = match &c.energy {
        Some(e) => e.diff(),
        None => match &c.power {
            Some(p) => Some(p.compute_energy()),
            None => None,
        },
    };
    if let Some(e) = energy {
        push_metric(
            out,
            concat3("GPU-", uuid, "-energy"),
            MetricValue::U64(e),
            energy_unit,
            AMDSMI_SOURCE_NAME,
        );
    }
    let ghost e_part: Seq<(Seq<char>, MetricValue, MetricUnit)> = match counter_energy(*c) {
        Some(e) => seq![(gpu_sensor(uuid@, "-energy"@), MetricValue::U64(e), micro_joule())],
        None => seq![],
    };
    assert(metrics_view(out@) =~= start + e_part);
    let ghost n1 = out@.len();
    if let Some(v) = &c.vram {
        if let (Some(lo), Some(hi)) = (v.min, v.max) {
            push_metric(
                out,
                concat3("GPU-", uuid, "-vram_min"),
                MetricValue::U64(lo),
                byte,
                AMDSMI_SOURCE_NAME,
            );
            push_metric(
                out,
                concat3("GPU-", uuid, "-vram_max"),
                MetricValue::U64(hi),
                byte,
                AMDSMI_SOURCE_NAME,
            );
        }
    }
    let ghost v_part: Seq<(Seq<char>, MetricValue, MetricUnit)> = match c.vram {
        Some(v) => match (v.min, v.max) {
            (Some(lo), Some(hi)) => seq![
                (gpu_sensor(uuid@, "-vram_min"@), MetricValue::U64(lo), byte_unit()),
                (gpu_sensor(uuid@, "-vram_max"@), MetricValue::U64(hi), byte_unit()),
            ],
            _ => seq![],
        },
        None => seq![],
    };
    assert(metrics_view(out@) =~= start + e_part + v_part);
    if let Some(u) = &c.utilization {
        if let (Some(lo), Some(hi)) = (u.min, u.max) {
            push_metric(
                out,
                concat3("GPU-", uuid, "-utilization_min"),
                MetricValue::U64(lo as u64),
                percent,
                AMDSMI_SOURCE_NAME,
            );
            push_metric(
                out,
                concat3("GPU-", uuid, "-utilization_max"),
                MetricValue::U64(hi as u64),
                percent,
                AMDSMI_SOURCE_NAME,
            );
        }
    }
    let ghost u_part: Seq<(Seq<char>, MetricValue, MetricUnit)> = match c.utilization {
        Some(u) => match (u.min, u.max) {
            (Some(lo), Some(hi)) => seq![
                (gpu_sensor(uuid@, "-utilization_min"@), MetricValue::U64(lo as u64), percent_unit()),
                (gpu_sensor(uuid@, "-utilization_max"@), MetricValue::U64(hi as u64), percent_unit()),
            ],
            _ => seq![],
        },
        None => seq![],
    };
    assert(metrics_view(out@) =~= start + e_part + v_part + u_part);
    assert(counter_metrics(uuid@, *c) =~= e_part + v_part + u_part);
}

/// The metrics of the counters of a phase: for each
/// counter, in order, the metrics of the GPU its index names; a counter
/// whose index names no GPU is skipped.
pub fn to_metrics(processors: &Vec<Processor>, result: &Vec<(usize, Counter)>) -> (r: Vec<Metric>)
    requires
        forall|i: int| 0 <= i < result@.len() ==> counter_computable(#[trigger] result@[i].1),
    ensures
        metrics_view(r@) == result_metrics(processors@, result@),
        forall|i: int| 0 <= i < r@.len() ==> (#[trigger] r@[i]).source@ == AMDSMI_SOURCE_NAME@,
        forall|i: int| 0 <= i < r@.len() ==> (#[trigger] r@[i]).timestamp == 0,
{
    let mut out: Vec<Metric> = Vec::new();
    let mut k: usize = 0;
    while k < result.len()
        invariant
            0 <= k <= result@.len(),
            forall|i: int| 0 <= i < result@.len() ==> counter_computable(#[trigger] result@[i].1),
            metrics_view(out@) == result_metrics(processors@, result@.subrange(0, k as int)),
            forall|i: int| 0 <= i < out@.len() ==> (#[trigger] out@[i]).source@
                == AMDSMI_SOURCE_NAME@,
            forall|i: int| 0 <= i < out@.len() ==> (#[trigger] out@[i]).timestamp == 0,
        decreases result@.len() - k,
    {
        let entry = &result[k];
        let ghost before = out@;
        if entry.0 < processors.len() {
            push_counter_metrics(&mut out, processors[entry.0].uuid.as_str(), &entry.1);
        }
        proof {
            let rs = result@.subrange(0, k + 1);
            assert(rs.drop_last() =~= result@.subrange(0, k as int));
            assert(rs.last() == result@[k as int]);
        }
        k = k + 1;
    }
    proof {
        assert(result@.subrange(0, result@.len() as int) =~= result@);
    }
    out
}

} // verus!

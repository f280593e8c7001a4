//! Metric values, sensors and phase descriptions shared by every source.

use vstd::prelude::*;

verus! {

/// A base unit of measurement.
#[derive(Debug, Clone, Copy, PartialEq, Eq, Structural)]
pub enum Unit {
    Joule,
    Watt,
    Byte,
    Second,
    Count,
    Percent,
}

/// A decimal prefix applied to a unit.
#[derive(Debug, Clone, Copy, PartialEq, Eq, Structural)]
pub enum UnitPrefix {
    Base,
    Milli,
    Micro,
}

/// The unit a metric or a sensor is expressed in.
#[derive(Debug, Clone, Copy, PartialEq, Eq, Structural)]
pub struct MetricUnit {
    pub prefix: UnitPrefix,
    pub unit: Unit,
}

/// An integer metric value.
#[derive(Debug, Clone, Copy, PartialEq, Eq, Structural)]
pub enum MetricValue {
    I64(i64),
    U64(u64),
}

/// A measured value, tagged with its unit, its source and the time it
/// refers to.
#[derive(Debug)]
pub struct Metric {
    pub source: String,
    pub name: String,
    pub value: MetricValue,
    pub unit: MetricUnit,
    pub timestamp: u128,
}

impl Metric {
    /// Builds a metric from its parts, with no timestamp (zero).
    pub fn new(name: String, value: MetricValue, unit: MetricUnit, source: String) -> (m: Self)
        ensures
            m.name@ == name@,
            m.value == value,
            m.unit == unit,
            m.source@ == source@,
            m.timestamp == 0,
    {
        Metric { name, value, unit, source, timestamp: 0 }
    }

    /// Builds a metric that refers to the time `timestamp`.
    pub fn at(name: String, value: MetricValue, unit: MetricUnit, source: String, timestamp: u128) -> (m:
        Self)
        ensures
            m.name@ == name@,
            m.value == value,
            m.unit == unit,
            m.source@ == source@,
            m.timestamp == timestamp,
    {
        Metric { name, value, unit, source, timestamp }
    }

    /// A copy of the metric.
    pub fn duplicate(&self) -> (m: Self)
        ensures
            m.name@ == self.name@,
            m.value == self.value,
            m.unit == self.unit,
            m.source@ == self.source@,
            m.timestamp == self.timestamp,
    {
        Metric {
            name: self.name.clone(),
            value: self.value,
            unit: self.unit,
            source: self.source.clone(),
            timestamp: self.timestamp,
        }
    }
}

/// A metric seen as its name, value and unit.
pub open spec fn metric_view(m: Metric) -> (Seq<char>, MetricValue, MetricUnit) {
    (m.name@, m.value, m.unit)
}

/// Metrics seen as names, values and units.
pub open spec fn metrics_view(s: Seq<Metric>) -> Seq<(Seq<char>, MetricValue, MetricUnit)> {
    s.map_values(|m: Metric| metric_view(m))
}

/// Appends a metric of the source `source`, with no timestamp.
pub fn push_metric(
    out: &mut Vec<Metric>,
    name: String,
    value: MetricValue,
    unit: MetricUnit,
    source: &str,
)
    ensures
        metrics_view(final(out)@) == metrics_view(old(out)@).push((name@, value, unit)),
        final(out)@.len() == old(out)@.len() + 1,
        forall|i: int| 0 <= i < old(out)@.len() ==> final(out)@[i] == old(out)@[i],
        final(out)@.last().source@ == source@,
        final(out)@.last().timestamp == 0,
{
    let ghost before = out@;
    out.push(Metric::new(name, value, unit, source.to_owned()));
    proof {
        assert(metrics_view(out@) =~= metrics_view(before).push((name@, value, unit)));
    }
}

/// A sensor that a source can report.
#[derive(Debug)]
pub struct AvailableSensor {
    pub name: String,
    pub source: String,
    pub unit: MetricUnit,
}

impl AvailableSensor {
    /// Builds a sensor description from its parts.
    pub fn new(name: String, unit: MetricUnit, source: String) -> (s: Self)
        ensures
            s.name@ == name@,
            s.unit == unit,
            s.source@ == source@,
    {
        AvailableSensor { name, source, unit }
    }
}

/// The metrics gathered by one source for one phase.
#[derive(Debug)]
pub struct Phase {
    pub phase_index: usize,
    pub metrics: Vec<Metric>,
}

/// The bounds of a finished phase.
#[derive(Debug, Clone)]
pub struct PhaseInfo {
    pub phase_index: usize,
    pub start_token: String,
    pub end_token: String,
    pub start_timestamp: u128,
    pub end_timestamp: u128,
}

/// The start of a phase, as an injector reports it.
#[derive(Debug, Clone)]
pub struct PhaseStartInfo {
    pub phase_index: usize,
    pub token: String,
    pub timestamp: u128,
}

/// What the sources learn about the profiled program when it starts.
#[derive(Debug, Clone, Copy, PartialEq, Eq, Structural)]
pub struct InitContext {
    pub pid: i32,
}

} // verus!

//! Readings of the counters, per event and per CPU, and the growth of each
//! over a phase.

use vstd::prelude::*;

use crate::perf::event::{Event, PERF_EVENT_SOURCE_NAME, count_unit, event_name};
use crate::types::{Metric, MetricUnit, MetricValue, Unit, UnitPrefix};

verus! {

/// The value of each CPU's counter.
pub type PerCpu = Vec<(usize, u64)>;

/// A reading of the counters: for each event, the value on each CPU
/// (counters of a process use a single CPU key).
#[derive(Debug, Default, PartialEq)]
pub struct Snapshot {
    pub metrics: Vec<(Event, PerCpu)>,
}

/// A reading seen as events and per-CPU values.
pub open spec fn snapshot_view(s: Seq<(Event, PerCpu)>) -> Seq<(Event, Seq<(usize, u64)>)> {
    s.map_values(|x: (Event, PerCpu)| (x.0, x.1@))
}

/// Whether no event has two entries in a reading, as in a map keyed by
/// event.
pub open spec fn events_distinct(s: Seq<(Event, Seq<(usize, u64)>)>) -> bool {
    forall|i: int, j: int| 0 <= i < j < s.len() ==> s[i].0 != s[j].0
}

/// The value of the first entry of the CPU, if any.
pub open spec fn cpu_value(s: Seq<(usize, u64)>, cpu: usize) -> Option<u64>
    decreases s.len(),
{
    if s.len() == 0 {
        None
    } else if s[0].0 == cpu {
        Some(s[0].1)
    } else {
        cpu_value(s.drop_first(), cpu)
    }
}

/// The per-CPU values of the first entry of the event, if any.
pub open spec fn event_values(s: Seq<(Event, Seq<(usize, u64)>)>, e: Event) -> Option<
    Seq<(usize, u64)>,
>
    decreases s.len(),
{
    if s.len() == 0 {
        None
    } else if s[0].0 == e {
        Some(s[0].1)
    } else {
        event_values(s.drop_first(), e)
    }
}

/// The growth of a counter: its value less the start value, wrapping
/// around; its value when it had no start value.
pub open spec fn delta(start: Option<u64>, value: u64) -> u64 {
    match start {
        Some(p) => value.wrapping_sub(p),
        None => value,
    }
}

/// The growth of each CPU's counter of an event.
pub open spec fn cpu_deltas(begin: Option<Seq<(usize, u64)>>, end: Seq<(usize, u64)>) -> Seq<
    (usize, u64),
> {
    end.map_values(
        |x: (usize, u64)|
            (
                x.0,
                delta(
                    match begin {
                        Some(b) => cpu_value(b, x.0),
                        None => None,
                    },
                    x.1,
                ),
            ),
    )
}

/// The growth of every counter over a phase: for each event of the end
/// reading, the growth on each of its CPUs.
pub open spec fn snapshot_diff(
    begin: Seq<(Event, Seq<(usize, u64)>)>,
    end: Seq<(Event, Seq<(usize, u64)>)>,
) -> Seq<(Event, Seq<(usize, u64)>)> {
    end.map_values(|x: (Event, Seq<(usize, u64)>)| (x.0, cpu_deltas(event_values(begin, x.0), x.1)))
}

fn cpu_value_exec(s: &PerCpu, cpu: usize) -> (r: Option<u64>)
    ensures
        r == cpu_value(s@, cpu),
{
    let mut k: usize = 0;
    proof {
        assert(s@.skip(0) =~= s@);
    }
    while k < s.len()
        invariant
            k <= s@.len(),
            cpu_value(s@, cpu) == cpu_value(s@.skip(k as int), cpu),
        decreases s@.len() - k,
    {
        proof {
            assert(s@.skip(k as int).drop_first() =~= s@.skip(k + 1));
        }
        if s[k].0 == cpu {
            return Some(s[k].1);
        }
        k = k + 1;
    }
    None
}

fn event_index(s: &Vec<(Event, PerCpu)>, e: Event) -> (r: Option<usize>)
    ensures
        match r {
            Some(i) => i < s@.len() && event_values(snapshot_view(s@), e) == Some(s@[i as int].1@),
            None => event_values(snapshot_view(s@), e) is None,
        },
{
    let ghost view = snapshot_view(s@);
    let mut k: usize = 0;
    proof {
        assert(view.skip(0) =~= view);
    }
    while k < s.len()
        invariant
            k <= s@.len(),
            view == snapshot_view(s@),
            event_values(view, e) == event_values(view.skip(k as int), e),
        decreases s@.len() - k,
    {
        proof {
            assert(view.skip(k as int).drop_first() =~= view.skip(k + 1));
            assert(view.skip(k as int)[0] == (s@[k as int].0, s@[k as int].1@));
        }
        if s[k].0 == e {
            return Some(k);
        }
        k = k + 1;
    }
    None
}

/// The two readings that bound a phase.
#[derive(Debug, Default)]
pub struct Phase {
    pub begin: Snapshot,
    pub end: Snapshot,
}

impl Phase {
    /// The growth of every counter over the phase.
    pub fn diff(&self) -> (r: Snapshot)
        ensures
            snapshot_view(r.metrics@) == snapshot_diff(
                snapshot_view(self.begin.metrics@),
                snapshot_view(self.end.metrics@),
            ),
            events_distinct(snapshot_view(self.end.metrics@)) ==> events_distinct(
                snapshot_view(r.metrics@),
            ),
    {
        let ghost bv = snapshot_view(self.begin.metrics@);
        let ghost ev = snapshot_view(self.end.metrics@);
        let ghost want = snapshot_diff(bv, ev);
        let mut out: Vec<(Event, PerCpu)> = Vec::new();
        let mut k: usize = 0;
        while k < self.end.metrics.len()
            invariant
                k <= self.end.metrics@.len(),
                bv == snapshot_view(self.begin.metrics@),
                ev == snapshot_view(self.end.metrics@),
                want == snapshot_diff(bv, ev),
                snapshot_view(out@) == want.take(k as int),
            decreases self.end.metrics@.len() - k,
        {
            let event = self.end.metrics[k].0;
            let per_cpu = &self.end.metrics[k].1;
            let begin_index = event_index(&self.begin.metrics, event);
            let ghost begin_values = event_values(bv, event);
            let mut deltas: PerCpu = Vec::new();
            let mut j: usize = 0;
            while j < per_cpu.len()
                invariant
                    j <= per_cpu@.len(),
                    begin_values == event_values(bv, event),
                    bv == snapshot_view(self.begin.metrics@),
                    match begin_index {
                        Some(i) => i < self.begin.metrics@.len() && begin_values == Some(
                            self.begin.metrics@[i as int].1@,
                        ),
                        None => begin_values is None,
                    },
                    deltas@ == cpu_deltas(begin_values, per_cpu@).take(j as int),
                decreases per_cpu@.len() - j,
            {
                let (cpu, value) = per_cpu[j];
                let start = match begin_index {
                    Some(i) => cpu_value_exec(&self.begin.metrics[i].1, cpu),
                    None => None,
                };
                let d = match start {
                    Some(p) => value.wrapping_sub(p),
                    None => value,
                };
                deltas.push((cpu, d));
                proof {
                    assert(deltas@ =~= cpu_deltas(begin_values, per_cpu@).take(j + 1));
                }
                j = j + 1;
            }
            proof {
                assert(cpu_deltas(begin_values, per_cpu@).take(per_cpu@.len() as int) =~= cpu_deltas(
                    begin_values,
                    per_cpu@,
                ));
            }
            let ghost before = out@;
            out.push((event, deltas));
            proof {
                assert(ev[k as int] == (event, per_cpu@));
                assert(want[k as int] == (event, deltas@));
                assert(snapshot_view(out@) =~= snapshot_view(before).push((event, deltas@)));
                assert(want.take(k + 1) =~= want.take(k as int).push(want[k as int]));
                assert(snapshot_view(out@) =~= want.take(k + 1));
            }
            k = k + 1;
        }
        proof {
            assert(want.take(want.len() as int) =~= want);
            assert forall|i: int| 0 <= i < want.len() implies #[trigger] want[i].0 == ev[i].0 by {}
        }
        Snapshot { metrics: out }
    }
}

/// The counts of the counters at one time, one per event.
#[derive(Debug)]
pub struct CountsSnapshot {
    pub timestamp: u128,
    pub counts: Vec<(Event, u64)>,
}

/// The count of the first entry of the event, if any.
pub open spec fn event_count(s: Seq<(Event, u64)>, e: Event) -> Option<u64>
    decreases s.len(),
{
    if s.len() == 0 {
        None
    } else if s[0].0 == e {
        Some(s[0].1)
    } else {
        event_count(s.drop_first(), e)
    }
}

/// The metrics of a phase: for each event of the end reading, its growth
/// since the start reading, at the time the phase started.
pub open spec fn count_metrics(baseline: Seq<(Event, u64)>, counts: Seq<(Event, u64)>) -> Seq<
    (Seq<char>, MetricValue, MetricUnit),
> {
    counts.map_values(
        |x: (Event, u64)|
            (event_name(x.0), MetricValue::U64(delta(event_count(baseline, x.0), x.1)), count_unit()),
    )
}

fn event_count_exec(s: &Vec<(Event, u64)>, e: Event) -> (r: Option<u64>)
    ensures
        r == event_count(s@, e),
{
    let mut k: usize = 0;
    proof {
        assert(s@.skip(0) =~= s@);
    }
    while k < s.len()
        invariant
            k <= s@.len(),
            event_count(s@, e) == event_count(s@.skip(k as int), e),
        decreases s@.len() - k,
    {
        proof {
            assert(s@.skip(k as int).drop_first() =~= s@.skip(k + 1));
        }
        if s[k].0 == e {
            return Some(s[k].1);
        }
        k = k + 1;
    }
    None
}

/// The `perf_event` processor: the reading that started the running phase.
pub struct PerfEventProcessor {
    pub baseline: Option<CountsSnapshot>,
}

impl PerfEventProcessor {
    /// A processor with no reading yet.
    pub fn new() -> (p: Self)
        ensures
            p.baseline is None,
    {
        PerfEventProcessor { baseline: None }
    }

    /// Takes a reading: it ends the running
    /// phase, whose metrics are returned, and starts the next one. The first
    /// reading ends no phase.
    pub fn consume(&mut self, snapshot: CountsSnapshot) -> (r: Option<Vec<Metric>>)
        ensures
            match old(self).baseline {
                None => r is None,
                Some(b) => r matches Some(ms) && crate::types::metrics_view(ms@) == count_metrics(
                    b.counts@,
                    snapshot.counts@,
                ) && forall|i: int|
                    0 <= i < ms@.len() ==> (#[trigger] ms@[i]).timestamp == b.timestamp
                        && ms@[i].source@ == PERF_EVENT_SOURCE_NAME@,
            },
            final(self).baseline matches Some(b) && b.timestamp == snapshot.timestamp && b.counts@
                == snapshot.counts@,
    {
        let out = match &self.baseline {
            None => None,
            Some(b) => {
                let unit = MetricUnit { prefix: UnitPrefix::Base, unit: Unit::Count };
                let mut ms: Vec<Metric> = Vec::new();
                let mut k: usize = 0;
                while k < snapshot.counts.len()
                    invariant
                        k <= snapshot.counts@.len(),
                        unit == count_unit(),
                        crate::types::metrics_view(ms@) == count_metrics(
                            b.counts@,
                            snapshot.counts@,
                        ).take(k as int),
                        forall|i: int|
                            0 <= i < ms@.len() ==> (#[trigger] ms@[i]).timestamp == b.timestamp
                                && ms@[i].source@ == PERF_EVENT_SOURCE_NAME@,
                    decreases snapshot.counts@.len() - k,
                {
                    let (event, value) = snapshot.counts[k];
                    let d = match event_count_exec(&b.counts, event) {
                        Some(p) => value.wrapping_sub(p),
                        None => value,
                    };
                    let ghost before = ms@;
                    ms.push(
                        Metric::at(
                            event.name().to_owned(),
                            MetricValue::U64(d),
                            unit,
                            PERF_EVENT_SOURCE_NAME.to_owned(),
                            b.timestamp,
                        ),
                    );
                    proof {
                        let cm = count_metrics(b.counts@, snapshot.counts@);
                        assert(cm[k as int] == (event_name(event), MetricValue::U64(d), count_unit()));
                        assert(crate::types::metrics_view(ms@) =~= crate::types::metrics_view(before).push(
                            (event_name(event), MetricValue::U64(d), count_unit()),
                        ));
                        assert(cm.take(k + 1) =~= cm.take(k as int).push(cm[k as int]));
                    }
                    k = k + 1;
                }
                proof {
                    assert(count_metrics(b.counts@, snapshot.counts@).take(
                        snapshot.counts@.len() as int,
                    ) =~= count_metrics(b.counts@, snapshot.counts@));
                }
                Some(ms)
            },
        };
        self.baseline = Some(snapshot);
        out
    }
}

} // verus!

//! The hardware events the source counts.

use vstd::prelude::*;

use crate::amdsmi::source::sensors_view;
use crate::types::{AvailableSensor, MetricUnit, Unit, UnitPrefix};

verus! {

/// A hardware event.
#[derive(Debug, Clone, Copy, PartialEq, Eq, Structural)]
pub enum Event {
    CpuCycles,
    Instructions,
    CacheMisses,
    BranchMisses,
}

/// The name of the source.
pub const PERF_EVENT_SOURCE_NAME: &'static str = "perf_event";

/// The name of an event (its `Display` text).
pub open spec fn event_name(e: Event) -> Seq<char> {
    match e {
        Event::CpuCycles => "CPU_CYCLES"@,
        Event::Instructions => "INSTRUCTIONS"@,
        Event::CacheMisses => "CACHE_MISSES"@,
        Event::BranchMisses => "BRANCH_MISSES"@,
    }
}

/// The events counted, in order.
pub open spec fn all_events() -> Seq<Event> {
    seq![Event::CpuCycles, Event::Instructions, Event::CacheMisses, Event::BranchMisses]
}

/// Counts.
pub open spec fn count_unit() -> MetricUnit {
    MetricUnit { prefix: UnitPrefix::Base, unit: Unit::Count }
}

impl Event {
    /// The name of the event.
    pub fn name(self) -> (s: &'static str)
        ensures
            s@ == event_name(self),
    {
        match self {
            Event::CpuCycles => "CPU_CYCLES",
            Event::Instructions => "INSTRUCTIONS",
            Event::CacheMisses => "CACHE_MISSES",
            Event::BranchMisses => "BRANCH_MISSES",
        }
    }
}

/// The events counted.
pub fn events() -> (v: Vec<Event>)
    ensures
        v@ == all_events(),
{
    vec![Event::CpuCycles, Event::Instructions, Event::CacheMisses, Event::BranchMisses]
}

/// The sensors of the source: one count
/// per event.
pub fn list_sensors() -> (r: Vec<AvailableSensor>)
    ensures
        sensors_view(r@) == all_events().map_values(|e: Event| (event_name(e), count_unit())),
        forall|i: int| 0 <= i < r@.len() ==> (#[trigger] r@[i]).source@ == PERF_EVENT_SOURCE_NAME@,
{
    let all = events();
    let unit = MetricUnit { prefix: UnitPrefix::Base, unit: Unit::Count };
    let mut out: Vec<AvailableSensor> = Vec::new();
    let mut k: usize = 0;
    while k < all.len()
        invariant
            k <= all@.len(),
            all@ == all_events(),
            unit == count_unit(),
            sensors_view(out@) == all_events().take(k as int).map_values(
                |e: Event| (event_name(e), count_unit()),
            ),
            forall|i: int| 0 <= i < out@.len() ==> (#[trigger] out@[i]).source@
                == PERF_EVENT_SOURCE_NAME@,
        decreases all@.len() - k,
    {
        let ghost before = out@;
        out.push(AvailableSensor::new(all[k].name().to_owned(), unit, PERF_EVENT_SOURCE_NAME.to_owned()));
        proof {
            assert(sensors_view(out@) =~= sensors_view(before).push((event_name(all@[k as int]), unit)));
            assert(all_events().take(k + 1).map_values(|e: Event| (event_name(e), count_unit()))
                =~= all_events().take(k as int).map_values(
                |e: Event| (event_name(e), count_unit()),
            ).push((event_name(all@[k as int]), count_unit())));
        }
        k = k + 1;
    }
    proof {
        assert(all_events().take(4) =~= all_events());
    }
    out
}

} // verus!

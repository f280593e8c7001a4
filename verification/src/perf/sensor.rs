//! The `perf_event` sensor: one counter per hardware event on the profiled
//! process, opened at start, read at each measure and disabled at the end.

use vstd::prelude::*;

use crate::perf::event::{Event, PERF_EVENT_SOURCE_NAME, all_events, events};
use crate::perf::snapshot::{CountsSnapshot, PerfEventProcessor};
use crate::types::InitContext;

verus! {

/// What can go wrong while counting the hardware events; the message of
/// the underlying failure is kept.
#[derive(Debug)]
pub enum PerfEventError {
    /// The counter of an event could not be opened.
    Open(Event, String),
    /// The counter of an event could not be read.
    Read(Event, String),
    /// A counter could not be enabled or disabled.
    Enable(String),
    /// A background task could not be joined.
    JoinError(String),
    /// The counter of an event could not be read.
    ErrorReadingCounter(Event),
    /// The perf interface or the list of online CPUs failed, with its
    /// message.
    Io(String),
    /// An entry of the list of online CPUs is not an id or a range.
    InvalidCpuList(String),
}

/// The counters of the hardware events, as the perf interface provides
/// them; a failure is reported with its message.
pub trait EventCounters {
    /// A counter.
    type Counter;

    /// Opens and enables the counter of an event on a process and the
    /// processes it spawns, on any CPU.
    fn open(&mut self, event: Event, pid: i32) -> Result<Self::Counter, String>;

    /// The count of a counter.
    fn read(&mut self, counter: &mut Self::Counter) -> Result<u64, String>;

    /// Disables a counter.
    fn disable(&mut self, counter: &mut Self::Counter) -> Result<(), String>;
}

/// The events of the counters.
pub open spec fn counter_events<C>(cs: Seq<(Event, C)>) -> Seq<Event> {
    cs.map_values(|x: (Event, C)| x.0)
}

/// The events of the counts.
pub open spec fn count_events(cs: Seq<(Event, u64)>) -> Seq<Event> {
    cs.map_values(|x: (Event, u64)| x.0)
}

/// The counters of the hardware events, in the order of the events.
pub struct PerfEventSensor<C> {
    pub counters: Vec<(Event, C)>,
}

impl<C> PerfEventSensor<C> {
    /// A sensor with no counter opened yet.
    pub fn new() -> (s: Self)
        ensures
            s.counters@.len() == 0,
    {
        PerfEventSensor { counters: Vec::new() }
    }

    /// Opens the counter of every event on the profiled process;
    /// the first failure is returned with its
    /// event, and the sensor is then left as it was.
    pub fn init<O: EventCounters<Counter = C>>(&mut self, opener: &mut O, ctx: InitContext) -> (r: Result<
        (),
        PerfEventError,
    >)
        ensures
            r is Ok ==> counter_events(final(self).counters@) == all_events(),
            r matches Err(e) ==> e is Open,
            r is Err ==> final(self).counters@ == old(self).counters@,
    {
        let evs = events();
        let mut counters: Vec<(Event, C)> = Vec::new();
        let mut k: usize = 0;
        while k < evs.len()
            invariant
                k <= evs@.len(),
                evs@ == all_events(),
                counter_events(counters@) == all_events().take(k as int),
            decreases evs@.len() - k,
        {
            let event = evs[k];
            let counter = match opener.open(event, ctx.pid) {
                Ok(c) => c,
                Err(message) => return Err(PerfEventError::Open(event, message)),
            };
            let ghost before = counters@;
            counters.push((event, counter));
            proof {
                assert(counter_events(counters@) =~= counter_events(before).push(event));
                assert(all_events().take(k + 1) =~= all_events().take(k as int).push(event));
            }
            k = k + 1;
        }
        proof {
            assert(all_events().take(4) =~= all_events());
        }
        self.counters = counters;
        Ok(())
    }

    /// Reads every counter, in order; the
    /// first failure is returned with its event.
    pub fn measure<O: EventCounters<Counter = C>>(&mut self, opener: &mut O, timestamp: u128) -> (r:
        Result<CountsSnapshot, PerfEventError>)
        ensures
            r matches Ok(s) ==> s.timestamp == timestamp && count_events(s.counts@) == counter_events(
                old(self).counters@,
            ),
            r matches Err(e) ==> e is Read,
            counter_events(final(self).counters@) == counter_events(old(self).counters@),
    {
        let ghost start = counter_events(self.counters@);
        let mut counts: Vec<(Event, u64)> = Vec::new();
        let mut k: usize = 0;
        while k < self.counters.len()
            invariant
                k <= self.counters@.len(),
                start == counter_events(old(self).counters@),
                counter_events(self.counters@) == start,
                count_events(counts@) == start.take(k as int),
            decreases self.counters@.len() - k,
        {
            let event = self.counters[k].0;
            let ghost before_counters = self.counters@;
            let read = opener.read(&mut self.counters[k].1);
            proof {
                assert(counter_events(self.counters@) =~= counter_events(before_counters));
            }
            let value = match read {
                Ok(v) => v,
                Err(message) => return Err(PerfEventError::Read(event, message)),
            };
            let ghost before = counts@;
            counts.push((event, value));
            proof {
                assert(count_events(counts@) =~= count_events(before).push(event));
                assert(start[k as int] == event);
                assert(start.take(k + 1) =~= start.take(k as int).push(event));
            }
            k = k + 1;
        }
        proof {
            assert(start.take(start.len() as int) =~= start);
        }
        Ok(CountsSnapshot { timestamp, counts })
    }

    /// Disables every counter, then forgets them;
    /// the first failure is returned.
    pub fn join<O: EventCounters<Counter = C>>(&mut self, opener: &mut O) -> (r: Result<(), PerfEventError>)
        ensures
            r is Ok ==> final(self).counters@.len() == 0,
            r matches Err(e) ==> e is Enable,
    {
        let n = self.counters.len();
        let mut k: usize = 0;
        while k < n
            invariant
                k <= n,
                n == self.counters@.len(),
            decreases n - k,
        {
            let disabled = opener.disable(&mut self.counters[k].1);
            match disabled {
                Ok(()) => {},
                Err(message) => return Err(PerfEventError::Enable(message)),
            }
            k = k + 1;
        }
        self.counters.clear();
        Ok(())
    }
}

/// The `perf_event` source: the sensor that counts the events and the
/// processor that turns the counts into metrics.
pub struct PerfEventSource;

impl PerfEventSource {
    /// A sensor with no counter opened and a processor with no reading.
    pub fn from_config<C>() -> (r: (PerfEventSensor<C>, PerfEventProcessor))
        ensures
            r.0.counters@.len() == 0,
            r.1.baseline is None,
    {
        (PerfEventSensor::new(), PerfEventProcessor::new())
    }

    /// The name of the source.
    pub fn get_name() -> (r: &'static str)
        ensures
            r@ == PERF_EVENT_SOURCE_NAME@,
    {
        PERF_EVENT_SOURCE_NAME
    }
}

} // verus!

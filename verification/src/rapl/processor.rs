//! The energy of a phase from two readings of the RAPL counters, and the
//! sensors of the RAPL source.

use vstd::prelude::*;

use crate::amdsmi::source::sensors_view;
use crate::rapl::domain::{RaplDomain, sensor_name};
use crate::rapl::topology::{SocketLeader, domains_for_socket, socket_domains};
use crate::text::{chars_equal, chars_of};
use crate::types::{AvailableSensor, MetricUnit, Unit, UnitPrefix};

verus! {

/// The name of the source.
pub const RAPL_SOURCE_NAME: &'static str = "RAPL";

/// A reading of every RAPL counter: the raw count of each named domain.
#[derive(Debug)]
pub struct RaplSnapshot {
    pub timestamp: u128,
    pub readings: Vec<(String, u64)>,
}

/// The readings seen as names and raw counts.
pub open spec fn readings_view(r: Seq<(String, u64)>) -> Seq<(Seq<char>, u64)> {
    r.map_values(|x: (String, u64)| (x.0@, x.1))
}

/// The raw count of the first reading named `name`, if any.
pub open spec fn lookup(r: Seq<(Seq<char>, u64)>, name: Seq<char>) -> Option<u64>
    decreases r.len(),
{
    if r.len() == 0 {
        None
    } else if r[0].0 == name {
        Some(r[0].1)
    } else {
        lookup(r.drop_first(), name)
    }
}

/// The raw growth of each counter of `current` that `baseline` also read,
/// in the order of `current`; the counters wrap around.
pub open spec fn raw_diffs(baseline: Seq<(Seq<char>, u64)>, current: Seq<(Seq<char>, u64)>) -> Seq<
    (Seq<char>, u64),
>
    decreases current.len(),
{
    if current.len() == 0 {
        seq![]
    } else {
        raw_diffs(baseline, current.drop_last()) + match lookup(baseline, current.last().0) {
            Some(b) => seq![(current.last().0, current.last().1.wrapping_sub(b))],
            None => seq![],
        }
    }
}

fn lookup_exec(r: &Vec<(String, u64)>, name: &str) -> (o: Option<u64>)
    ensures
        o == lookup(readings_view(r@), name@),
{
    let n = chars_of(name);
    let ghost view = readings_view(r@);
    let mut k: usize = 0;
    proof {
        assert(view.skip(0) =~= view);
    }
    while k < r.len()
        invariant
            k <= r@.len(),
            view == readings_view(r@),
            n@ == name@,
            lookup(view, name@) == lookup(view.skip(k as int), name@),
        decreases r@.len() - k,
    {
        proof {
            assert(view.skip(k as int)[0] == (r@[k as int].0@, r@[k as int].1));
            assert(view.skip(k as int).drop_first() =~= view.skip(k + 1));
        }
        if chars_equal(&chars_of(r[k].0.as_str()), &n) {
            return Some(r[k].1);
        }
        k = k + 1;
    }
    None
}

/// The RAPL processor: the reading that started the running phase.
pub struct RaplProcessor {
    pub baseline: Option<RaplSnapshot>,
}

impl RaplProcessor {
    /// A processor with no reading yet.
    pub fn new() -> (p: Self)
        ensures
            p.baseline is None,
    {
        RaplProcessor { baseline: None }
    }

    /// Takes a reading: the reading ends the
    /// running phase, whose raw growth per counter is returned with the
    /// time the phase started, and starts the next one. The first reading
    /// ends no phase.
    pub fn consume(&mut self, snapshot: RaplSnapshot) -> (r: Option<(u128, Vec<(String, u64)>)>)
        ensures
            match old(self).baseline {
                None => r is None,
                Some(b) => r matches Some((t, d)) && t == b.timestamp && readings_view(d@)
                    == raw_diffs(readings_view(b.readings@), readings_view(snapshot.readings@)),
            },
            final(self).baseline matches Some(b) && b.timestamp == snapshot.timestamp && readings_view(
                b.readings@,
            ) == readings_view(snapshot.readings@),
    {
        let ghost cur = readings_view(snapshot.readings@);
        let out = match &self.baseline {
            None => None,
            Some(b) => {
                let ghost base = readings_view(b.readings@);
                let mut diffs: Vec<(String, u64)> = Vec::new();
                let mut k: usize = 0;
                while k < snapshot.readings.len()
                    invariant
                        k <= snapshot.readings@.len(),
                        cur == readings_view(snapshot.readings@),
                        base == readings_view(b.readings@),
                        readings_view(diffs@) == raw_diffs(base, cur.take(k as int)),
                    decreases snapshot.readings@.len() - k,
                {
                    proof {
                        assert(cur.take(k + 1).drop_last() =~= cur.take(k as int));
                        assert(cur.take(k + 1).last() == cur[k as int]);
                    }
                    let (name, raw) = (&snapshot.readings[k].0, snapshot.readings[k].1);
                    match lookup_exec(&b.readings, name.as_str()) {
                        Some(prev) => {
                            let ghost before = diffs@;
                            diffs.push((name.clone(), raw.wrapping_sub(prev)));
                            proof {
                                assert(readings_view(diffs@) =~= readings_view(before).push(
                                    (cur[k as int].0, raw.wrapping_sub(prev)),
                                ));
                            }
                        },
                        None => {},
                    }
                    k = k + 1;
                }
                proof {
                    assert(cur.take(cur.len() as int) =~= cur);
                }
                Some((b.timestamp, diffs))
            },
        };
        self.baseline = Some(snapshot);
        out
    }
}

/// Microjoules.
pub open spec fn micro_joule() -> MetricUnit {
    MetricUnit { prefix: UnitPrefix::Micro, unit: Unit::Joule }
}

/// The sensors of the sockets, in order: each domain the socket offers.
pub open spec fn rapl_sensors(sockets: Seq<SocketLeader>, available: Seq<RaplDomain>) -> Seq<
    (Seq<char>, MetricUnit),
>
    decreases sockets.len(),
{
    if sockets.len() == 0 {
        seq![]
    } else {
        rapl_sensors(sockets.drop_last(), available) + socket_domains(
            sockets.last().id,
            available,
        ).map_values(|d: RaplDomain| (sensor_name(d, sockets.last().id), micro_joule()))
    }
}

/// The sensors of the RAPL source: for each
/// socket, the energy of each domain it offers.
pub fn list_sensors(sockets: &Vec<SocketLeader>, available: &Vec<RaplDomain>) -> (r: Vec<
    AvailableSensor,
>)
    ensures
        sensors_view(r@) == rapl_sensors(sockets@, available@),
        forall|i: int| 0 <= i < r@.len() ==> (#[trigger] r@[i]).source@ == RAPL_SOURCE_NAME@,
{
    let unit = MetricUnit { prefix: UnitPrefix::Micro, unit: Unit::Joule };
    let mut out: Vec<AvailableSensor> = Vec::new();
    let mut k: usize = 0;
    while k < sockets.len()
        invariant
            k <= sockets@.len(),
            unit == micro_joule(),
            sensors_view(out@) == rapl_sensors(sockets@.take(k as int), available@),
            forall|i: int| 0 <= i < out@.len() ==> (#[trigger] out@[i]).source@ == RAPL_SOURCE_NAME@,
        decreases sockets@.len() - k,
    {
        let id = sockets[k].id;
        let domains = domains_for_socket(id, available);
        let ghost start = sensors_view(out@);
        let mut j: usize = 0;
        while j < domains.len()
            invariant
                j <= domains@.len(),
                unit == micro_joule(),
                sensors_view(out@) == start + domains@.take(j as int).map_values(
                    |d: RaplDomain| (sensor_name(d, id), micro_joule()),
                ),
                forall|i: int| 0 <= i < out@.len() ==> (#[trigger] out@[i]).source@
                    == RAPL_SOURCE_NAME@,
            decreases domains@.len() - j,
        {
            let ghost before = out@;
            out.push(AvailableSensor::new(domains[j].name(id), unit, RAPL_SOURCE_NAME.to_owned()));
            proof {
                assert(sensors_view(out@) =~= sensors_view(before).push(
                    (sensor_name(domains@[j as int], id), unit),
                ));
                assert(domains@.take(j + 1).map_values(
                    |d: RaplDomain| (sensor_name(d, id), micro_joule()),
                ) =~= domains@.take(j as int).map_values(
                    |d: RaplDomain| (sensor_name(d, id), micro_joule()),
                ).push((sensor_name(domains@[j as int], id), micro_joule())));
            }
            j = j + 1;
        }
        proof {
            assert(domains@.take(domains@.len() as int) =~= domains@);
            assert(sockets@.take(k + 1).drop_last() =~= sockets@.take(k as int));
            assert(sockets@.take(k + 1).last() == sockets@[k as int]);
        }
        k = k + 1;
    }
    proof {
        assert(sockets@.take(sockets@.len() as int) =~= sockets@);
    }
    out
}

} // verus!

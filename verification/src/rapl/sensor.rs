//! The RAPL sensor: the counters of every socket, opened once, read at
//! each measure and disabled at the end.

use vstd::prelude::*;

use crate::rapl::counters::{PerfOpener, Socket, SocketInfo, domains_in_order, open_counters, sockets_match};
use crate::rapl::domain::sensor_name;
use crate::rapl::error::RaplError;
use crate::rapl::processor::{RAPL_SOURCE_NAME, RaplProcessor, RaplSnapshot, readings_view};

verus! {

/// Reading and stopping the counter groups, as the perf interface provides
/// them; a failure is reported with its message.
///
/// The answers of `read` and `value` are stated through predicates that an
/// interface may define; one that does not define them claims nothing of
/// its answers.
pub trait PerfGroups<G, C> {
    /// The values a group read gave.
    type Data;

    /// What `read` may answer for `group`.
    open spec fn read_post(group: G, r: Result<Self::Data, String>) -> bool {
        true
    }

    /// What `value` may answer for `counter` in the read `data`.
    open spec fn value_post(data: Self::Data, counter: C, r: Option<u64>) -> bool {
        true
    }

    /// Reads every counter of a group at once.
    fn read(&mut self, group: &mut G) -> (r: Result<Self::Data, String>)
        ensures
            Self::read_post(*old(group), r),
    ;

    /// The value of a counter in a group read, if the read holds it.
    fn value(&self, data: &Self::Data, counter: &C) -> (r: Option<u64>)
        ensures
            Self::value_post(*data, *counter, r),
    ;

    /// Disables a group.
    fn disable(&mut self, group: &mut G) -> Result<(), String>;
}

/// The sensor names of the counters of the sockets, socket by socket, each
/// socket's domains in order.
pub open spec fn socket_sensor_names<G, C>(sockets: Seq<Socket<G, C>>) -> Seq<Seq<char>>
    decreases sockets.len(),
{
    if sockets.len() == 0 {
        seq![]
    } else {
        socket_sensor_names(sockets.drop_last()) + sockets.last().domains@.map_values(
            |d: crate::rapl::counters::PerfRaplDomain<C>| sensor_name(d.domain, sockets.last().id),
        )
    }
}

/// Whether no socket has a counter.
pub open spec fn no_domain<G, C>(sockets: Seq<Socket<G, C>>) -> bool {
    forall|i: int| 0 <= i < sockets.len() ==> (#[trigger] sockets[i]).domains@.len() == 0
}

/// The names of the readings of a snapshot.
pub open spec fn reading_names(r: Seq<(String, u64)>) -> Seq<Seq<char>> {
    readings_view(r).map_values(|x: (Seq<char>, u64)| x.0)
}

/// The values of a list of lists, one list after the other.
pub open spec fn concat_all(raws: Seq<Seq<u64>>) -> Seq<u64>
    decreases raws.len(),
{
    if raws.len() == 0 {
        seq![]
    } else {
        concat_all(raws.drop_last()) + raws.last()
    }
}

/// The raw counts of a measure, socket by socket and domain by domain, are
/// what the interface answered: each socket's group was read once, giving
/// `datas[k]`, and the count of each of its domains is the value that read
/// holds for the domain's counter, zero when it holds none.
pub open spec fn counts_answered<G, C, P: PerfGroups<G, C>>(
    sockets: Seq<Socket<G, C>>,
    datas: Seq<P::Data>,
    raws: Seq<Seq<u64>>,
) -> bool {
    &&& datas.len() == sockets.len()
    &&& raws.len() == sockets.len()
    &&& forall|k: int|
        #![trigger raws[k]]
        0 <= k < sockets.len() ==> {
            &&& P::read_post(sockets[k].group, Ok::<P::Data, String>(datas[k]))
            &&& raws[k].len() == sockets[k].domains@.len()
            &&& forall|j: int|
                #![trigger raws[k][j]]
                0 <= j < raws[k].len() ==> (P::value_post(
                    datas[k],
                    sockets[k].domains@[j].counter,
                    Some(raws[k][j]),
                ) || (raws[k][j] == 0 && P::value_post(
                    datas[k],
                    sockets[k].domains@[j].counter,
                    None,
                )))
        }
}

/// The counts of the readings.
pub open spec fn reading_counts(r: Seq<(String, u64)>) -> Seq<u64> {
    r.map_values(|x: (String, u64)| x.1)
}

/// The counters of the RAPL domains of every socket.
pub struct RaplSensor<G, C> {
    pub sockets: Vec<Socket<G, C>>,
}

impl<G, C> RaplSensor<G, C> {
    /// A sensor with no counter opened yet.
    pub fn new() -> (s: Self)
        ensures
            s.sockets@.len() == 0,
    {
        RaplSensor { sockets: Vec::new() }
    }

    /// Opens and enables the counters of every socket of the topology
    /// that has CPUs. Fails with
    /// [`RaplError::NoRaplDomain`] when no socket has any domain, and with
    /// the failure of any opening; the sensor is then left as it was.
    pub fn pre_init<O: PerfOpener<Group = G, Counter = C>>(
        &mut self,
        opener: &mut O,
        topology: &Vec<SocketInfo>,
    ) -> (r: Result<(), RaplError>)
        ensures
            r is Ok ==> sockets_match(topology@, final(self).sockets@) && !no_domain(
                final(self).sockets@,
            ) && forall|i: int|
                0 <= i < final(self).sockets@.len() ==> domains_in_order(
                    (#[trigger] final(self).sockets@[i]).id,
                    final(self).sockets@[i].domains@,
                ),
            r is Err ==> final(self).sockets@ == old(self).sockets@,
            (forall|i: int| 0 <= i < topology@.len() ==> (#[trigger] topology@[i]).cpus@.len() == 0)
                ==> (r matches Err(e) && e is NoRaplDomain),
    {
        let sockets = open_counters(opener, topology)?;
        let mut k: usize = 0;
        let mut any = false;
        while k < sockets.len()
            invariant
                k <= sockets@.len(),
                any <==> exists|i: int| 0 <= i < k && (#[trigger] sockets@[i]).domains@.len() > 0,
            decreases sockets@.len() - k,
        {
            if sockets[k].domains.len() > 0 {
                any = true;
            }
            k = k + 1;
        }
        if !any {
            return Err(RaplError::NoRaplDomain);
        }
        self.sockets = sockets;
        Ok(())
    }

    /// Reads every counter: one read per socket,
    /// then the raw count of each of its domains, named after the domain
    /// and the socket; a count the read does not hold is zero.
    pub fn measure<P: PerfGroups<G, C>>(&mut self, groups: &mut P, timestamp: u128) -> (r: Result<
        RaplSnapshot,
        RaplError,
    >)
        ensures
            r matches Ok(s) ==> s.timestamp == timestamp && reading_names(s.readings@)
                == socket_sensor_names(old(self).sockets@),
            r matches Err(e) ==> e is Read,
            r matches Ok(s) ==> exists|datas: Seq<P::Data>, raws: Seq<Seq<u64>>|
                #![trigger counts_answered::<G, C, P>(old(self).sockets@, datas, raws)]
                counts_answered::<G, C, P>(old(self).sockets@, datas, raws) && reading_counts(
                    s.readings@,
                ) == concat_all(raws),
            final(self).sockets@.len() == old(self).sockets@.len(),
            forall|i: int|
                0 <= i < old(self).sockets@.len() ==> (#[trigger] final(self).sockets@[i]).id == old(
                    self,
                ).sockets@[i].id && final(self).sockets@[i].domains@ == old(self).sockets@[i].domains@,
    {
        let ghost start = self.sockets@;
        let mut readings: Vec<(String, u64)> = Vec::new();
        let ghost mut datas: Seq<P::Data> = Seq::empty();
        let ghost mut raws: Seq<Seq<u64>> = Seq::empty();
        let mut k: usize = 0;
        while k < self.sockets.len()
            invariant
                k <= self.sockets@.len(),
                start == old(self).sockets@,
                forall|i: int| k <= i < start.len() ==> (#[trigger] self.sockets@[i]).group == start[i].group,
                counts_answered::<G, C, P>(start.take(k as int), datas, raws),
                reading_counts(readings@) == concat_all(raws),
                self.sockets@.len() == start.len(),
                forall|i: int|
                    0 <= i < start.len() ==> (#[trigger] self.sockets@[i]).id == start[i].id
                        && self.sockets@[i].domains@ == start[i].domains@,
                reading_names(readings@) == socket_sensor_names(start.take(k as int)),
            decreases self.sockets@.len() - k,
        {
            let ghost prev_sockets = self.sockets@;
            let read = groups.read(&mut self.sockets[k].group);
            proof {
                assert(prev_sockets[k as int].group == start[k as int].group);
                assert forall|i: int| k + 1 <= i < start.len() implies (#[trigger] self.sockets@[i]).group
                    == start[i].group by {
                    assert(self.sockets@[i] == prev_sockets[i]);
                }
            }
            let ghost read_answer = read;
            let data = match read {
                Ok(d) => d,
                Err(message) => return Err(RaplError::Read(message)),
            };
            proof {
                assert(read_answer == Ok::<P::Data, String>(data));
                assert(P::read_post(start[k as int].group, Ok::<P::Data, String>(data)));
            }
            let socket = &self.sockets[k];
            let ghost before = reading_names(readings@);
            let ghost before_counts = reading_counts(readings@);
            let ghost mut row: Seq<u64> = Seq::empty();
            let mut j: usize = 0;
            while j < socket.domains.len()
                invariant
                    j <= socket.domains@.len(),
                    socket.domains@ == start[k as int].domains@,
                    socket.id == start[k as int].id,
                    row.len() == j,
                    reading_counts(readings@) == before_counts + row,
                    forall|i: int|
                        #![trigger row[i]]
                        0 <= i < j ==> (P::value_post(data, socket.domains@[i].counter, Some(row[i])) || (
                        row[i] == 0 && P::value_post(data, socket.domains@[i].counter, None))),
                    reading_names(readings@) == before + socket.domains@.take(j as int).map_values(
                        |d: crate::rapl::counters::PerfRaplDomain<C>| sensor_name(d.domain, socket.id),
                    ),
                decreases socket.domains@.len() - j,
            {
                let domain = &socket.domains[j];
                let answer = groups.value(&data, &domain.counter);
                let raw = match answer {
                    Some(v) => v,
                    None => 0,
                };
                let name = domain.domain.name(socket.id);
                let ghost prev = readings@;
                readings.push((name, raw));
                proof {
                    let prev_row = row;
                    row = row.push(raw);
                    assert(reading_counts(readings@) =~= reading_counts(prev).push(raw));
                    assert(reading_counts(readings@) =~= before_counts + row);
                    assert forall|i: int|
                        #![trigger row[i]]
                        0 <= i < j + 1 implies (P::value_post(data, socket.domains@[i].counter, Some(row[i])) || (
                        row[i] == 0 && P::value_post(data, socket.domains@[i].counter, None))) by {
                        if i < j {
                            assert(row[i] == prev_row[i]);
                        }
                    }
                    assert(reading_names(readings@) =~= reading_names(prev).push(
                        sensor_name(socket.domains@[j as int].domain, socket.id),
                    ));
                    assert(socket.domains@.take(j + 1) =~= socket.domains@.take(j as int).push(
                        socket.domains@[j as int],
                    ));
                }
                j = j + 1;
            }
            proof {
                assert(socket.domains@.take(socket.domains@.len() as int) =~= socket.domains@);
                assert(start.take(k + 1).drop_last() =~= start.take(k as int));
                assert(start.take(k + 1).last() == start[k as int]);
                let prev_datas = datas;
                let prev_raws = raws;
                datas = datas.push(data);
                raws = raws.push(row);
                assert(raws.drop_last() =~= prev_raws);
                assert(concat_all(raws) == concat_all(prev_raws) + row);
                let t = start.take(k + 1);
                assert forall|m: int|
                    #![trigger raws[m]]
                    0 <= m < t.len() implies {
                    &&& P::read_post(t[m].group, Ok::<P::Data, String>(datas[m]))
                    &&& raws[m].len() == t[m].domains@.len()
                    &&& forall|j: int|
                        #![trigger raws[m][j]]
                        0 <= j < raws[m].len() ==> (P::value_post(
                            datas[m],
                            t[m].domains@[j].counter,
                            Some(raws[m][j]),
                        ) || (raws[m][j] == 0 && P::value_post(
                            datas[m],
                            t[m].domains@[j].counter,
                            None,
                        )))
                } by {
                    if m < k {
                        assert(raws[m] == prev_raws[m]);
                        assert(datas[m] == prev_datas[m]);
                        assert(t[m] == start.take(k as int)[m]);
                        assert(prev_raws[m] == raws[m]);
                        assert(P::read_post(t[m].group, Ok::<P::Data, String>(datas[m])));
                    } else {
                        assert(t[m] == start[k as int]);
                        assert(raws[m] == row);
                        assert(datas[m] == data);
                        assert(P::read_post(t[m].group, Ok::<P::Data, String>(datas[m])));
                        assert forall|j: int|
                            #![trigger raws[m][j]]
                            0 <= j < raws[m].len() implies (P::value_post(
                                datas[m],
                                t[m].domains@[j].counter,
                                Some(raws[m][j]),
                            ) || (raws[m][j] == 0 && P::value_post(
                                datas[m],
                                t[m].domains@[j].counter,
                                None,
                            ))) by {
                            assert(raws[m][j] == row[j]);
                        }
                    }
                }
                assert forall|m: int| 0 <= m < t.len() implies P::read_post(
                    t[m].group,
                    Ok::<P::Data, String>(#[trigger] datas[m]),
                ) by {
                    if m < k {
                        assert(datas[m] == prev_datas[m]);
                        assert(t[m] == start.take(k as int)[m]);
                        assert(prev_raws[m] == raws[m]);
                    } else {
                        assert(t[m] == start[k as int]);
                        assert(datas[m] == data);
                    }
                }
                assert(datas.len() == t.len());
                assert(raws.len() == t.len());
                assert(counts_answered::<G, C, P>(t, datas, raws));
            }
            k = k + 1;
        }
        proof {
            assert(start.take(start.len() as int) =~= start);
        }
        Ok(RaplSnapshot { timestamp, readings })
    }

    /// Disables the counter group of every socket, in order;
    /// the first failure is returned with the index
    /// of its socket.
    pub fn join<P: PerfGroups<G, C>>(&mut self, groups: &mut P) -> (r: Result<(), RaplError>)
        ensures
            r matches Err(e) ==> (e matches RaplError::CannotDisableGroup(i, _) && i < old(
                self,
            ).sockets@.len()),
            final(self).sockets@.len() == old(self).sockets@.len(),
    {
        let n = self.sockets.len();
        let mut k: usize = 0;
        while k < n
            invariant
                k <= n,
                n == self.sockets@.len(),
                n == old(self).sockets@.len(),
            decreases n - k,
        {
            let disabled = groups.disable(&mut self.sockets[k].group);
            match disabled {
                Ok(()) => {},
                Err(message) => return Err(RaplError::CannotDisableGroup(k, message)),
            }
            k = k + 1;
        }
        Ok(())
    }
}

/// The RAPL source: the sensor that reads the counters and the processor
/// that turns the readings into energies.
pub struct RaplSource;

impl RaplSource {
    /// A sensor with no counter opened and a processor with no reading.
    pub fn from_config<G, C>() -> (r: (RaplSensor<G, C>, RaplProcessor))
        ensures
            r.0.sockets@.len() == 0,
            r.1.baseline is None,
    {
        (RaplSensor::new(), RaplProcessor::new())
    }

    /// The name of the source.
    pub fn get_name() -> (r: &'static str)
        ensures
            r@ == RAPL_SOURCE_NAME@,
    {
        RAPL_SOURCE_NAME
    }
}

} // verus!

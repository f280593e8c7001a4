//! The counters of the hardware events on a process or on a cgroup: opened
//! per event for a process, per online CPU for a cgroup, and read into a
//! reading per event and per CPU.

use vstd::prelude::*;

use crate::perf::event::Event;
use crate::perf::sensor::PerfEventError;
use crate::perf::snapshot::{PerCpu, Snapshot, events_distinct, snapshot_view};
use crate::rapl::error::RaplError;
use crate::rapl::topology::parse_online_cpus;

verus! {

/// What the counters follow: a process and the processes it spawns, or
/// every process of a cgroup (through a handle on the cgroup).
pub enum Target<F> {
    Pid(i32),
    Cgroup(F),
}

/// The CPU key of the counters of a process, which follow it on every CPU.
pub const PID_CPU: usize = 0;

/// The perf interface: counters and counter groups, and the list of online
/// CPUs; a failure is reported with its message.
pub trait PerfDevice<F> {
    /// A counter.
    type Counter;
    /// A counter group.
    type Group;
    /// The values a group read gave.
    type Data;

    /// The text of the list of online CPUs.
    fn online_cpus_text(&mut self) -> Result<String, String>;

    /// Opens the counter of an event on a process and the processes it
    /// spawns, on any CPU.
    fn pid_counter(&mut self, event: Event, pid: i32) -> Result<Self::Counter, String>;

    /// Enables a counter.
    fn enable_counter(&mut self, counter: &mut Self::Counter) -> Result<(), String>;

    /// What `read_counter` may answer for `counter`; a device that does not
    /// define it claims nothing of its counts.
    open spec fn read_post(counter: Self::Counter, r: Result<u64, String>) -> bool {
        true
    }

    /// The count of a counter.
    fn read_counter(&mut self, counter: &mut Self::Counter) -> (r: Result<u64, String>)
        ensures
            Self::read_post(*old(counter), r),
    ;

    /// Opens a counter group on a CPU for the processes of the cgroup.
    fn cgroup_group(&mut self, cpu: usize, cgroup: &F) -> Result<Self::Group, String>;

    /// Adds the counter of an event to a group.
    fn add_counter(&mut self, group: &mut Self::Group, event: Event, cpu: usize, cgroup: &F) -> Result<
        Self::Counter,
        String,
    >;

    /// Enables a group.
    fn enable_group(&mut self, group: &mut Self::Group) -> Result<(), String>;

    /// Reads every counter of a group at once.
    fn read_group(&mut self, group: &mut Self::Group) -> Result<Self::Data, String>;

    /// The value of a counter of the group in a read of the group.
    fn group_value(&self, data: &Self::Data, counter: &Self::Counter) -> u64;
}

/// The counters of one CPU for a cgroup.
pub struct CpuGroup<C, G> {
    pub cpu: usize,
    pub group: G,
    pub counters: Vec<(Event, C)>,
}

/// The counters, for a process or for a cgroup (whose handle is kept open
/// as long as the groups).
pub enum CountersState<F, C, G> {
    Pid(Vec<(Event, C)>),
    Cgroup(F, Vec<CpuGroup<C, G>>),
}

/// The events of counters.
pub open spec fn keys_of<C>(cs: Seq<(Event, C)>) -> Seq<Event> {
    cs.map_values(|x: (Event, C)| x.0)
}

/// The events, each once, in the order of their first occurrence: the keys
/// of a map filled with them.
pub open spec fn event_keys(events: Seq<Event>) -> Seq<Event>
    decreases events.len(),
{
    if events.len() == 0 {
        seq![]
    } else {
        let k = event_keys(events.drop_last());
        if k.contains(events.last()) {
            k
        } else {
            k.push(events.last())
        }
    }
}

/// The layout of a reading of cgroup counters: for each event, in the order
/// it first appears, the CPUs whose group counts it, in the order of the
/// groups.
pub open spec fn add_cpu(layout: Seq<(Event, Seq<usize>)>, e: Event, cpu: usize) -> Seq<(Event, Seq<usize>)>
    decreases layout.len(),
{
    if layout.len() == 0 {
        seq![(e, seq![cpu])]
    } else if layout[0].0 == e {
        layout.update(0, (e, layout[0].1.push(cpu)))
    } else {
        seq![layout[0]] + add_cpu(layout.drop_first(), e, cpu)
    }
}

/// A reading after the value of an event on a CPU is filed: appended to
/// the event's entry, or in a new entry at the end.
pub open spec fn add_reading(
    s: Seq<(Event, Seq<(usize, u64)>)>,
    e: Event,
    cpu: usize,
    value: u64,
) -> Seq<(Event, Seq<(usize, u64)>)>
    decreases s.len(),
{
    if s.len() == 0 {
        seq![(e, seq![(cpu, value)])]
    } else if s[0].0 == e {
        s.update(0, (e, s[0].1.push((cpu, value))))
    } else {
        seq![s[0]] + add_reading(s.drop_first(), e, cpu, value)
    }
}

/// Filing a value keeps the entries of the reading in place, and adds an
/// entry for the event at the end only when it has none.
proof fn lemma_add_reading_entries(s: Seq<(Event, Seq<(usize, u64)>)>, e: Event, cpu: usize, value: u64)
    ensures
        ({
            let r = add_reading(s, e, cpu, value);
            &&& (exists|k: int| 0 <= k < s.len() && s[k].0 == e) ==> r.len() == s.len()
            &&& !(exists|k: int| 0 <= k < s.len() && s[k].0 == e) ==> r.len() == s.len() + 1
                && r[s.len() as int].0 == e
            &&& forall|i: int| 0 <= i < s.len() ==> #[trigger] r[i].0 == s[i].0
        }),
    decreases s.len(),
{
    if s.len() > 0 && s[0].0 != e {
        let t = s.drop_first();
        lemma_add_reading_entries(t, e, cpu, value);
        let r = add_reading(s, e, cpu, value);
        let rt = add_reading(t, e, cpu, value);
        assert(r == seq![s[0]] + rt);
        assert forall|i: int| 0 <= i < s.len() implies #[trigger] r[i].0 == s[i].0 by {
            if i > 0 {
                assert(r[i] == rt[i - 1]);
                assert(t[i - 1] == s[i]);
            }
        }
        if exists|k: int| 0 <= k < s.len() && s[k].0 == e {
            let k = choose|k: int| 0 <= k < s.len() && s[k].0 == e;
            assert(t[k - 1].0 == e);
        } else {
            assert forall|k: int| 0 <= k < t.len() implies t[k].0 != e by {
                assert(t[k] == s[k + 1]);
            }
            assert(r[s.len() as int] == rt[t.len() as int]);
        }
    }
}

/// Filing a value in a reading where no event has two entries gives a
/// reading where no event has two entries.
pub proof fn lemma_add_reading_keeps_events_distinct(
    s: Seq<(Event, Seq<(usize, u64)>)>,
    e: Event,
    cpu: usize,
    value: u64,
)
    requires
        events_distinct(s),
    ensures
        events_distinct(add_reading(s, e, cpu, value)),
{
    lemma_add_reading_entries(s, e, cpu, value);
    let r = add_reading(s, e, cpu, value);
    assert forall|i: int, j: int| 0 <= i < j < r.len() implies r[i].0 != r[j].0 by {
        assert(r[i].0 == s[i].0);
        if j < s.len() {
            assert(r[j].0 == s[j].0);
        }
    }
}

/// A reading after the values of a group's events are filed on its CPU,
/// in order.
pub open spec fn add_group_readings(
    s: Seq<(Event, Seq<(usize, u64)>)>,
    cpu: usize,
    events: Seq<Event>,
    values: Seq<u64>,
) -> Seq<(Event, Seq<(usize, u64)>)>
    decreases events.len(),
{
    if events.len() == 0 {
        s
    } else {
        add_reading(
            add_group_readings(s, cpu, events.drop_last(), values.drop_last()),
            events.last(),
            cpu,
            values.last(),
        )
    }
}

/// The reading of a process: each event with its value under the single
/// CPU key.
pub open spec fn pid_reading(events: Seq<Event>, values: Seq<u64>) -> Seq<(Event, Seq<(usize, u64)>)> {
    Seq::new(events.len(), |i: int| (events[i], seq![(PID_CPU, values[i])]))
}

/// The layout after the counters of one group.
pub open spec fn add_group(layout: Seq<(Event, Seq<usize>)>, cpu: usize, events: Seq<Event>) -> Seq<
    (Event, Seq<usize>),
>
    decreases events.len(),
{
    if events.len() == 0 {
        layout
    } else {
        add_cpu(add_group(layout, cpu, events.drop_last()), events.last(), cpu)
    }
}

/// The layout of the groups, as CPUs and the events each counts.
pub open spec fn cgroup_layout(groups: Seq<(usize, Seq<Event>)>) -> Seq<(Event, Seq<usize>)>
    decreases groups.len(),
{
    if groups.len() == 0 {
        seq![]
    } else {
        add_group(cgroup_layout(groups.drop_last()), groups.last().0, groups.last().1)
    }
}

/// The CPUs and events of the groups.
pub open spec fn groups_view<C, G>(gs: Seq<CpuGroup<C, G>>) -> Seq<(usize, Seq<Event>)> {
    gs.map_values(|g: CpuGroup<C, G>| (g.cpu, keys_of(g.counters@)))
}

/// The layout of a reading: its events and the CPUs of each.
pub open spec fn snapshot_layout(s: Seq<(Event, PerCpu)>) -> Seq<(Event, Seq<usize>)> {
    s.map_values(|x: (Event, PerCpu)| (x.0, x.1@.map_values(|y: (usize, u64)| y.0)))
}

/// The layout of a reading of the counters in a state.
pub open spec fn state_layout<F, C, G>(state: CountersState<F, C, G>) -> Seq<(Event, Seq<usize>)> {
    match state {
        CountersState::Pid(cs) => keys_of(cs@).map_values(|e: Event| (e, seq![PID_CPU])),
        CountersState::Cgroup(_, gs) => cgroup_layout(groups_view(gs@)),
    }
}

/// Sets the counter of an event, replacing the one it had.
fn set_counter<C>(cs: &mut Vec<(Event, C)>, event: Event, counter: C)
    ensures
        keys_of(final(cs)@) == (if keys_of(old(cs)@).contains(event) {
            keys_of(old(cs)@)
        } else {
            keys_of(old(cs)@).push(event)
        }),
{
    let ghost before = keys_of(cs@);
    let mut k: usize = 0;
    while k < cs.len()
        invariant
            k <= cs@.len(),
            before == keys_of(old(cs)@),
            keys_of(cs@) == before,
            forall|i: int| 0 <= i < k ==> cs@[i].0 != event,
        decreases cs@.len() - k,
    {
        if cs[k].0 == event {
            let ghost prev = cs@;
            cs.set(k, (event, counter));
            proof {
                assert(keys_of(cs@) =~= keys_of(prev));
                assert(before[k as int] == event);
                assert(before.contains(event));
            }
            return;
        }
        k = k + 1;
    }
    proof {
        if before.contains(event) {
            let j = choose|j: int| 0 <= j < before.len() && before[j] == event;
            assert(cs@[j].0 == event);
        }
    }
    let ghost prev = cs@;
    cs.push((event, counter));
    proof {
        assert(keys_of(cs@) =~= keys_of(prev).push(event));
    }
}

/// Adds a CPU's value to the entry of an event, creating it at the end.
fn add_value(metrics: &mut Vec<(Event, PerCpu)>, event: Event, cpu: usize, value: u64)
    ensures
        snapshot_layout(final(metrics)@) == add_cpu(snapshot_layout(old(metrics)@), event, cpu),
        snapshot_view(final(metrics)@) == add_reading(snapshot_view(old(metrics)@), event, cpu, value),
        events_distinct(snapshot_view(old(metrics)@)) ==> events_distinct(snapshot_view(final(metrics)@)),
{
    proof {
        if events_distinct(snapshot_view(metrics@)) {
            lemma_add_reading_keeps_events_distinct(snapshot_view(metrics@), event, cpu, value);
        }
    }
    let ghost layout = snapshot_layout(metrics@);
    let ghost view = snapshot_view(metrics@);
    let mut k: usize = 0;
    proof {
        assert(layout.skip(0) =~= layout);
        assert(view.skip(0) =~= view);
    }
    while k < metrics.len()
        invariant
            k <= metrics@.len(),
            layout == snapshot_layout(old(metrics)@),
            metrics@ == old(metrics)@,
            forall|i: int| 0 <= i < k ==> metrics@[i].0 != event,
            add_cpu(layout, event, cpu) == layout.take(k as int) + add_cpu(layout.skip(k as int), event, cpu),
            view == snapshot_view(old(metrics)@),
            add_reading(view, event, cpu, value) == view.take(k as int) + add_reading(
                view.skip(k as int),
                event,
                cpu,
                value,
            ),
        decreases metrics@.len() - k,
    {
        if metrics[k].0 == event {
            let mut entry: (Event, PerCpu) = (event, Vec::new());
            metrics.set_and_swap(k, &mut entry);
            let mut values = entry.1;
            let ghost old_values = values@;
            values.push((cpu, value));
            let ghost prev = metrics@;
            metrics.set(k, (event, values));
            proof {
                let rest = layout.skip(k as int);
                assert(rest[0] == layout[k as int]);
                assert(layout[k as int] == (event, old_values.map_values(|y: (usize, u64)| y.0)));
                assert(values@.map_values(|y: (usize, u64)| y.0) =~= old_values.map_values(
                    |y: (usize, u64)| y.0,
                ).push(cpu));
                assert(add_cpu(rest, event, cpu) == rest.update(0, (event, rest[0].1.push(cpu))));
                assert(snapshot_layout(metrics@) =~= layout.take(k as int) + rest.update(
                    0,
                    (event, rest[0].1.push(cpu)),
                ));
                let vrest = view.skip(k as int);
                assert(vrest[0] == view[k as int]);
                assert(view[k as int] == (event, old_values));
                assert(add_reading(vrest, event, cpu, value) == vrest.update(
                    0,
                    (event, vrest[0].1.push((cpu, value))),
                ));
                assert(snapshot_view(metrics@) =~= view.take(k as int) + vrest.update(
                    0,
                    (event, vrest[0].1.push((cpu, value))),
                ));
            }
            return;
        }
        proof {
            let rest = layout.skip(k as int);
            assert(rest[0] == layout[k as int]);
            assert(rest.drop_first() =~= layout.skip(k + 1));
            assert(layout.take(k + 1) =~= layout.take(k as int) + seq![rest[0]]);
            let vrest = view.skip(k as int);
            assert(vrest[0] == view[k as int]);
            assert(vrest.drop_first() =~= view.skip(k + 1));
            assert(view.take(k + 1) =~= view.take(k as int) + seq![vrest[0]]);
        }
        k = k + 1;
    }
    let ghost prev = metrics@;
    let one = vec![(cpu, value)];
    proof {
        assert(one@.map_values(|y: (usize, u64)| y.0) =~= seq![cpu]);
        assert(one@ =~= seq![(cpu, value)]);
    }
    metrics.push((event, one));
    proof {
        assert(layout.skip(k as int) =~= Seq::<(Event, Seq<usize>)>::empty());
        assert(layout.take(k as int) =~= layout);
        assert(snapshot_layout(metrics@) =~= layout + seq![(event, seq![cpu])]);
        assert(view.skip(k as int) =~= Seq::<(Event, Seq<(usize, u64)>)>::empty());
        assert(view.take(k as int) =~= view);
        assert(snapshot_view(metrics@) =~= view + seq![(event, seq![(cpu, value)])]);
    }
}

/// Whether the CPUs are listed in increasing order, each once.
pub open spec fn strictly_increasing(s: Seq<usize>) -> bool {
    forall|i: int, j: int| 0 <= i < j < s.len() ==> s[i] < s[j]
}

/// The online CPUs of a list: comma-separated ids
/// and inclusive ranges, in increasing order, each once. An entry that is
/// not an id or a range gives [`PerfEventError::InvalidCpuList`] with the
/// entry.
pub fn list_online_cpus(content: &str) -> (r: Result<Vec<usize>, PerfEventError>)
    ensures
        match parse_online_cpus_spec(content@) {
            Some(s) => r matches Ok(v) && strictly_increasing(v@) && forall|c: usize| #[trigger] v@.contains(c)
                <==> c <= u32::MAX && s.contains(c as u32),
            None => r matches Err(e) && e is InvalidCpuList,
        },
{
    let cpus = match parse_online_cpus(content) {
        Ok(v) => v,
        Err(RaplError::InvalidCpuRange(p)) => return Err(PerfEventError::InvalidCpuList(p)),
        Err(RaplError::InvalidCpuId(p)) => return Err(PerfEventError::InvalidCpuList(p)),
        Err(_) => return Err(PerfEventError::InvalidCpuList(String::new())),
    };
    let mut out: Vec<usize> = Vec::new();
    let mut k: usize = 0;
    while k < cpus.len()
        invariant
            k <= cpus@.len(),
            strictly_increasing(out@),
            forall|c: usize| #[trigger] out@.contains(c) <==> exists|i: int| 0 <= i < k && cpus@[i] as usize == c,
        decreases cpus@.len() - k,
    {
        let x = cpus[k] as usize;
        let mut j = out.len();
        while j > 0 && x < out[j - 1]
            invariant
                j <= out@.len(),
                forall|i: int| j <= i < out@.len() ==> x < out@[i],
            decreases j,
        {
            j = j - 1;
        }
        if j > 0 && out[j - 1] == x {
            proof {
                assert forall|c: usize| #[trigger] out@.contains(c) <==> exists|i: int| 0 <= i < k + 1 && cpus@[i] as usize == c by {
                    if c == x {
                        assert(out@[j - 1] == c);
                    }
                    if exists|i: int| 0 <= i < k + 1 && cpus@[i] as usize == c {
                        let i = choose|i: int| 0 <= i < k + 1 && cpus@[i] as usize == c;
                        if i < k {
                            assert(exists|i2: int| 0 <= i2 < k && cpus@[i2] as usize == c);
                        }
                    }
                    if out@.contains(c) {
                        let i = choose|i: int| 0 <= i < k && cpus@[i] as usize == c;
                        assert(0 <= i < k + 1);
                    }
                }
            }
        } else {
            let ghost prev = out@;
            out.insert(j, x);
            proof {
                assert(out@ =~= prev.take(j as int).push(x) + prev.skip(j as int));
                assert forall|a: int, b: int| 0 <= a < b < out@.len() implies out@[a] < out@[b] by {
                    if b < j {
                        assert(out@[a] == prev[a] && out@[b] == prev[b]);
                    } else if b == j {
                        assert(out@[a] == prev[a]);
                        if a < j - 1 {
                            assert(prev[a] < prev[j - 1]);
                        }
                    } else if a == j {
                        assert(out@[b] == prev[b - 1]);
                    } else if a < j {
                        assert(out@[a] == prev[a] && out@[b] == prev[b - 1]);
                        assert(prev[a] < prev[j as int]);
                    } else {
                        assert(out@[a] == prev[a - 1] && out@[b] == prev[b - 1]);
                    }
                }
                assert forall|c: usize| #[trigger] out@.contains(c) <==> exists|i: int| 0 <= i < k + 1 && cpus@[i] as usize == c by {
                    if out@.contains(c) {
                        let m = choose|m: int| 0 <= m < out@.len() && out@[m] == c;
                        if m != j {
                            let pm = if m < j { m } else { m - 1 };
                            assert(prev[pm] == c);
                            assert(prev.contains(c));
                            let i = choose|i: int| 0 <= i < k && cpus@[i] as usize == c;
                            assert(0 <= i < k + 1);
                        } else {
                            assert(cpus@[k as int] as usize == c);
                        }
                    }
                    if exists|i: int| 0 <= i < k + 1 && cpus@[i] as usize == c {
                        let i = choose|i: int| 0 <= i < k + 1 && cpus@[i] as usize == c;
                        if i < k {
                            assert(exists|i2: int| 0 <= i2 < k && cpus@[i2] as usize == c);
                            assert(prev.contains(c));
                            let m = choose|m: int| 0 <= m < prev.len() && prev[m] == c;
                            if m < j {
                                assert(out@[m] == c);
                            } else {
                                assert(out@[m + 1] == c);
                            }
                        } else {
                            assert(out@[j as int] == c);
                        }
                    }
                }
            }
        }
        k = k + 1;
    }
    proof {
        assert forall|c: usize| #[trigger] out@.contains(c) <==> c <= u32::MAX && cpus@.to_set().contains(
            c as u32,
        ) by {
            if out@.contains(c) {
                let i = choose|i: int| 0 <= i < cpus@.len() && cpus@[i] as usize == c;
                assert(cpus@.to_set().contains(cpus@[i]));
            }
            if c <= u32::MAX && cpus@.to_set().contains(c as u32) {
                assert(cpus@.contains(c as u32));
                let i = choose|i: int| 0 <= i < cpus@.len() && cpus@[i] == c as u32;
                assert(cpus@[i] as usize == c);
            }
        }
    }
    Ok(out)
}

/// The CPUs of a list of online CPUs, when every entry parses.
pub open spec fn parse_online_cpus_spec(content: Seq<char>) -> Option<Set<u32>> {
    match crate::rapl::topology::online_cpus(crate::text::split_on(crate::text::trim(content), ',')) {
        Ok(s) => Some(s),
        Err(_) => None,
    }
}

/// The counters of the hardware events, on a process or on a cgroup.
pub struct PerfEventCounters<F, C, G> {
    pub state: CountersState<F, C, G>,
}

impl<F, C, G> PerfEventCounters<F, C, G> {
    /// Counters of a process, none opened yet.
    pub fn new() -> (s: Self)
        ensures
            s.state matches CountersState::Pid(cs) && cs@.len() == 0,
    {
        PerfEventCounters { state: CountersState::Pid(Vec::new()) }
    }

    /// Opens the counters of the events:
    /// for a process, one counter per event, all enabled once opened; for a
    /// cgroup, one group per online CPU with a counter per event, each group
    /// enabled once filled. An event listed twice is counted once. On
    /// failure the counters are left as they were.
    pub fn init_counters<D: PerfDevice<F, Counter = C, Group = G>>(
        &mut self,
        device: &mut D,
        events: &Vec<Event>,
        target: Target<F>,
    ) -> (r: Result<(), PerfEventError>)
        ensures
            r is Ok ==> match (target, final(self).state) {
                (Target::Pid(_), CountersState::Pid(cs)) => keys_of(cs@) == event_keys(events@),
                (Target::Cgroup(_), CountersState::Cgroup(_, gs)) => strictly_increasing(
                    gs@.map_values(|g: CpuGroup<C, G>| g.cpu),
                ) && forall|i: int| 0 <= i < gs@.len() ==> keys_of((#[trigger] gs@[i]).counters@) == event_keys(events@),
                _ => false,
            },
            r matches Err(e) ==> e is Io || e is InvalidCpuList,
    {
        match target {
            Target::Pid(pid) => {
                let mut counters: Vec<(Event, C)> = Vec::new();
                let mut k: usize = 0;
                while k < events.len()
                    invariant
                        k <= events@.len(),
                        keys_of(counters@) == event_keys(events@.take(k as int)),
                    decreases events@.len() - k,
                {
                    let counter = match device.pid_counter(events[k], pid) {
                        Ok(c) => c,
                        Err(m) => return Err(PerfEventError::Io(m)),
                    };
                    set_counter(&mut counters, events[k], counter);
                    proof {
                        assert(events@.take(k + 1).drop_last() =~= events@.take(k as int));
                        assert(events@.take(k + 1).last() == events@[k as int]);
                    }
                    k = k + 1;
                }
                let n = counters.len();
                let mut j: usize = 0;
                while j < n
                    invariant
                        j <= n,
                        n == counters@.len(),
                        keys_of(counters@) == event_keys(events@.take(events@.len() as int)),
                    decreases n - j,
                {
                    let ghost prev = keys_of(counters@);
                    let enabled = device.enable_counter(&mut counters[j].1);
                    proof {
                        assert(keys_of(counters@) =~= prev);
                    }
                    match enabled {
                        Ok(()) => {},
                        Err(m) => return Err(PerfEventError::Io(m)),
                    }
                    j = j + 1;
                }
                proof {
                    assert(events@.take(events@.len() as int) =~= events@);
                }
                self.state = CountersState::Pid(counters);
                Ok(())
            },
            Target::Cgroup(cgroup) => {
                let text = match device.online_cpus_text() {
                    Ok(t) => t,
                    Err(m) => return Err(PerfEventError::Io(m)),
                };
                let cpus = list_online_cpus(text.as_str())?;
                let mut groups: Vec<CpuGroup<C, G>> = Vec::new();
                let mut c: usize = 0;
                while c < cpus.len()
                    invariant
                        c <= cpus@.len(),
                        strictly_increasing(cpus@),
                        groups@.map_values(|g: CpuGroup<C, G>| g.cpu) == cpus@.take(c as int),
                        forall|i: int| 0 <= i < groups@.len() ==> keys_of((#[trigger] groups@[i]).counters@) == event_keys(events@),
                    decreases cpus@.len() - c,
                {
                    let cpu = cpus[c];
                    let mut group = match device.cgroup_group(cpu, &cgroup) {
                        Ok(g) => g,
                        Err(m) => return Err(PerfEventError::Io(m)),
                    };
                    let mut counters: Vec<(Event, C)> = Vec::new();
                    let mut k: usize = 0;
                    while k < events.len()
                        invariant
                            k <= events@.len(),
                            keys_of(counters@) == event_keys(events@.take(k as int)),
                        decreases events@.len() - k,
                    {
                        let counter = match device.add_counter(&mut group, events[k], cpu, &cgroup) {
                            Ok(x) => x,
                            Err(m) => return Err(PerfEventError::Io(m)),
                        };
                        set_counter(&mut counters, events[k], counter);
                        proof {
                            assert(events@.take(k + 1).drop_last() =~= events@.take(k as int));
                            assert(events@.take(k + 1).last() == events@[k as int]);
                        }
                        k = k + 1;
                    }
                    proof {
                        assert(events@.take(events@.len() as int) =~= events@);
                    }
                    match device.enable_group(&mut group) {
                        Ok(()) => {},
                        Err(m) => return Err(PerfEventError::Io(m)),
                    }
                    let ghost prev = groups@;
                    groups.push(CpuGroup { cpu, group, counters });
                    proof {
                        assert(groups@.map_values(|g: CpuGroup<C, G>| g.cpu) =~= prev.map_values(
                            |g: CpuGroup<C, G>| g.cpu,
                        ).push(cpu));
                        assert(cpus@.take(c + 1) =~= cpus@.take(c as int).push(cpu));
                    }
                    c = c + 1;
                }
                proof {
                    assert(cpus@.take(cpus@.len() as int) =~= cpus@);
                }
                self.state = CountersState::Cgroup(cgroup, groups);
                Ok(())
            },
        }
    }

    /// Reads every counter. The
    /// counters of a process are read one by one, under the single CPU key
    /// [`PID_CPU`]; a failed read gives [`PerfEventError::ErrorReadingCounter`]
    /// with its event. The groups of a cgroup are read one per CPU, and each
    /// value is filed under its event and its CPU; values are kept per CPU.
    pub fn read_snapshot<D: PerfDevice<F, Counter = C, Group = G>>(&mut self, device: &mut D) -> (r: Result<
        Snapshot,
        PerfEventError,
    >)
        ensures
            r matches Ok(s) ==> snapshot_layout(s.metrics@) == state_layout(old(self).state),
            state_layout(final(self).state) == state_layout(old(self).state),
            r matches Err(e) ==> e is ErrorReadingCounter || e is Io,
            match old(self).state {
                CountersState::Pid(cs) => cs@.len() == 0,
                CountersState::Cgroup(_, gs) => gs@.len() == 0,
            } ==> r is Ok,
            r matches Ok(s) ==> match old(self).state {
                CountersState::Pid(cs) => (forall|i: int, j: int|
                    0 <= i < j < cs@.len() ==> cs@[i].0 != cs@[j].0) ==> events_distinct(
                    snapshot_view(s.metrics@),
                ),
                CountersState::Cgroup(_, _) => events_distinct(snapshot_view(s.metrics@)),
            },
            r matches Ok(s) ==> (old(self).state matches CountersState::Pid(cs) ==> exists|
                values: Seq<u64>,
            |
                #![trigger pid_reading(keys_of(cs@), values)]
                values.len() == cs@.len() && snapshot_view(s.metrics@) == pid_reading(
                    keys_of(cs@),
                    values,
                ) && counts_read::<F, D>(cs@, values)),
    {
        match &mut self.state {
            CountersState::Pid(counters) => read_pid_counters(device, counters),
            CountersState::Cgroup(_, groups) => read_cgroup_groups(device, groups),
        }
    }
}

/// The reading of a process from the values read for its events, in
/// order: each value under the single CPU key.
pub fn pid_snapshot(events: &Vec<Event>, values: &Vec<u64>) -> (r: Snapshot)
    requires
        events@.len() == values@.len(),
    ensures
        snapshot_view(r.metrics@) == pid_reading(events@, values@),
        snapshot_layout(r.metrics@) == events@.map_values(|e: Event| (e, seq![PID_CPU])),
        (forall|i: int, j: int| 0 <= i < j < events@.len() ==> events@[i] != events@[j])
            ==> events_distinct(snapshot_view(r.metrics@)),
{
    let mut metrics: Vec<(Event, PerCpu)> = Vec::new();
    let mut k: usize = 0;
    while k < events.len()
        invariant
            k <= events@.len(),
            events@.len() == values@.len(),
            snapshot_view(metrics@) == pid_reading(events@.take(k as int), values@.take(k as int)),
            snapshot_layout(metrics@) == events@.take(k as int).map_values(|e: Event| (e, seq![PID_CPU])),
        decreases events@.len() - k,
    {
        let ghost prev = metrics@;
        let one = vec![(PID_CPU, values[k])];
        proof {
            assert(one@.map_values(|y: (usize, u64)| y.0) =~= seq![PID_CPU]);
            assert(one@ =~= seq![(PID_CPU, values@[k as int])]);
        }
        metrics.push((events[k], one));
        proof {
            assert(snapshot_view(metrics@) =~= snapshot_view(prev).push((events@[k as int], seq![(PID_CPU, values@[k as int])])));
            assert(pid_reading(events@.take(k + 1), values@.take(k + 1)) =~= pid_reading(
                events@.take(k as int),
                values@.take(k as int),
            ).push((events@[k as int], seq![(PID_CPU, values@[k as int])])));
            assert(snapshot_layout(metrics@) =~= snapshot_layout(prev).push((events@[k as int], seq![PID_CPU])));
            assert(events@.take(k + 1) =~= events@.take(k as int).push(events@[k as int]));
        }
        k = k + 1;
    }
    proof {
        assert(events@.take(events@.len() as int) =~= events@);
        assert(values@.take(values@.len() as int) =~= values@);
    }
    Snapshot { metrics }
}

/// Each value is what the device answered when the counter at the same
/// position was read.
pub open spec fn counts_read<F, D: PerfDevice<F>>(counters: Seq<(Event, D::Counter)>, values: Seq<u64>) -> bool {
    forall|k: int|
        #![trigger values[k]]
        0 <= k < values.len() ==> D::read_post(counters[k].1, Ok::<u64, String>(values[k]))
}

/// Reads the counters of a process one by one, then files the values read.
fn read_pid_counters<F, C, G, D: PerfDevice<F, Counter = C, Group = G>>(
    device: &mut D,
    counters: &mut Vec<(Event, C)>,
) -> (r: Result<Snapshot, PerfEventError>)
    ensures
        r matches Ok(s) ==> snapshot_layout(s.metrics@) == keys_of(old(counters)@).map_values(
            |e: Event| (e, seq![PID_CPU]),
        ),
        r matches Ok(s) ==> exists|values: Seq<u64>|
            values.len() == old(counters)@.len() && snapshot_view(s.metrics@) == #[trigger] pid_reading(
                keys_of(old(counters)@),
                values,
            ),
        r matches Ok(s) ==> exists|values: Seq<u64>|
            #![trigger pid_reading(keys_of(old(counters)@), values)]
            values.len() == old(counters)@.len() && snapshot_view(s.metrics@) == pid_reading(
                keys_of(old(counters)@),
                values,
            ) && counts_read::<F, D>(old(counters)@, values),
        keys_of(final(counters)@) == keys_of(old(counters)@),
        r matches Ok(s) ==> ((forall|i: int, j: int|
            0 <= i < j < old(counters)@.len() ==> old(counters)@[i].0 != old(counters)@[j].0)
            ==> events_distinct(snapshot_view(s.metrics@))),
        r matches Err(e) ==> e is ErrorReadingCounter,
        old(counters)@.len() == 0 ==> r is Ok,
{
    let ghost keys = keys_of(counters@);
    let mut events: Vec<Event> = Vec::new();
    let mut values: Vec<u64> = Vec::new();
    let mut k: usize = 0;
    while k < counters.len()
        invariant
            k <= counters@.len(),
            keys == keys_of(old(counters)@),
            keys_of(counters@) == keys,
            events@ == keys.take(k as int),
            values@.len() == k,
            counters@.len() == old(counters)@.len(),
            forall|j: int| k <= j < counters@.len() ==> #[trigger] counters@[j] == old(counters)@[j],
            counts_read::<F, D>(old(counters)@, values@),
        decreases counters@.len() - k,
    {
        let event = counters[k].0;
        let ghost prev_keys = keys_of(counters@);
        let ghost prev = counters@;
        let read = device.read_counter(&mut counters[k].1);
        proof {
            assert(keys_of(counters@) =~= prev_keys);
            assert(prev[k as int] == old(counters)@[k as int]);
            assert forall|j: int| k + 1 <= j < counters@.len() implies #[trigger] counters@[j] == old(
                counters,
            )@[j] by {
                assert(counters@[j] == prev[j]);
            }
        }
        let value = match read {
            Ok(v) => v,
            Err(_) => return Err(PerfEventError::ErrorReadingCounter(event)),
        };
        events.push(event);
        values.push(value);
        proof {
            assert(keys[k as int] == event);
            assert(keys.take(k + 1) =~= keys.take(k as int).push(event));
        }
        k = k + 1;
    }
    proof {
        assert(keys.take(keys.len() as int) =~= keys);
    }
    let snapshot = pid_snapshot(&events, &values);
    proof {
        assert(snapshot_view(snapshot.metrics@) == pid_reading(keys, values@));
    }
    Ok(snapshot)
}

/// Files the values read from a group on its CPU, each under its event,
/// in order.
pub fn file_group(metrics: &mut Vec<(Event, PerCpu)>, cpu: usize, events: &Vec<Event>, values: &Vec<u64>)
    requires
        events@.len() == values@.len(),
    ensures
        snapshot_view(final(metrics)@) == add_group_readings(
            snapshot_view(old(metrics)@),
            cpu,
            events@,
            values@,
        ),
        snapshot_layout(final(metrics)@) == add_group(snapshot_layout(old(metrics)@), cpu, events@),
        events_distinct(snapshot_view(old(metrics)@)) ==> events_distinct(snapshot_view(final(metrics)@)),
{
    let ghost base_view = snapshot_view(metrics@);
    let ghost base = snapshot_layout(metrics@);
    let mut k: usize = 0;
    while k < events.len()
        invariant
            k <= events@.len(),
            events@.len() == values@.len(),
            base_view == snapshot_view(old(metrics)@),
            base == snapshot_layout(old(metrics)@),
            snapshot_view(metrics@) == add_group_readings(
                base_view,
                cpu,
                events@.take(k as int),
                values@.take(k as int),
            ),
            snapshot_layout(metrics@) == add_group(base, cpu, events@.take(k as int)),
            events_distinct(base_view) ==> events_distinct(snapshot_view(metrics@)),
        decreases events@.len() - k,
    {
        add_value(metrics, events[k], cpu, values[k]);
        proof {
            assert(events@.take(k + 1).drop_last() =~= events@.take(k as int));
            assert(values@.take(k + 1).drop_last() =~= values@.take(k as int));
            assert(events@.take(k + 1).last() == events@[k as int]);
            assert(values@.take(k + 1).last() == values@[k as int]);
        }
        k = k + 1;
    }
    proof {
        assert(events@.take(events@.len() as int) =~= events@);
        assert(values@.take(values@.len() as int) =~= values@);
    }
}

/// Reads the groups of a cgroup, one per CPU, filing each value under its
/// event and its CPU.
fn read_cgroup_groups<F, C, G, D: PerfDevice<F, Counter = C, Group = G>>(
    device: &mut D,
    groups: &mut Vec<CpuGroup<C, G>>,
) -> (r: Result<Snapshot, PerfEventError>)
    ensures
        r matches Ok(s) ==> snapshot_layout(s.metrics@) == cgroup_layout(groups_view(old(groups)@)),
        r matches Ok(s) ==> events_distinct(snapshot_view(s.metrics@)),
        groups_view(final(groups)@) == groups_view(old(groups)@),
        r matches Err(e) ==> e is Io,
        old(groups)@.len() == 0 ==> r is Ok,
{
    let ghost view = groups_view(groups@);
    let mut metrics: Vec<(Event, PerCpu)> = Vec::new();
    let mut g: usize = 0;
    while g < groups.len()
        invariant
            g <= groups@.len(),
            view == groups_view(old(groups)@),
            groups_view(groups@) == view,
            snapshot_layout(metrics@) == cgroup_layout(view.take(g as int)),
            events_distinct(snapshot_view(metrics@)),
        decreases groups@.len() - g,
    {
        let ghost prev_view = groups_view(groups@);
        let read = device.read_group(&mut groups[g].group);
        proof {
            assert(groups_view(groups@) =~= prev_view);
        }
        let data = match read {
            Ok(d) => d,
            Err(m) => return Err(PerfEventError::Io(m)),
        };
        let cpu = groups[g].cpu;
        let ghost evs = keys_of(groups@[g as int].counters@);
        let mut events: Vec<Event> = Vec::new();
        let mut values: Vec<u64> = Vec::new();
        let mut k: usize = 0;
        while k < groups[g].counters.len()
            invariant
                g < groups@.len(),
                k <= groups@[g as int].counters@.len(),
                groups_view(groups@) == view,
                cpu == groups@[g as int].cpu,
                evs == keys_of(groups@[g as int].counters@),
                events@ == evs.take(k as int),
                values@.len() == k,
            decreases groups@[g as int].counters@.len() - k,
        {
            let event = groups[g].counters[k].0;
            let value = device.group_value(&data, &groups[g].counters[k].1);
            events.push(event);
            values.push(value);
            proof {
                assert(evs.take(k + 1) =~= evs.take(k as int).push(event));
            }
            k = k + 1;
        }
        proof {
            assert(evs.take(evs.len() as int) =~= evs);
        }
        file_group(&mut metrics, cpu, &events, &values);
        proof {
            assert(view[g as int] == (cpu, evs));
            assert(view.take(g + 1).drop_last() =~= view.take(g as int));
            assert(view.take(g + 1).last() == view[g as int]);
        }
        g = g + 1;
    }
    proof {
        assert(view.take(view.len() as int) =~= view);
    }
    Ok(Snapshot { metrics })
}

} // verus!

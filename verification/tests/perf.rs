use joule_profiler::perf::event::{events, list_sensors, Event};
use joule_profiler::perf::snapshot::{CountsSnapshot, PerfEventProcessor, Phase, Snapshot};
use joule_profiler::types::MetricValue;

/// A single-CPU snapshot.
fn snapshot(metrics: Vec<(Event, u64)>) -> Snapshot {
    Snapshot { metrics: metrics.into_iter().map(|(event, value)| (event, vec![(0, value)])).collect() }
}

fn total(snapshot: &Snapshot, event: Event) -> u64 {
    snapshot.metrics.iter().filter(|(e, _)| *e == event).flat_map(|(_, v)| v.iter().map(|(_, x)| *x)).sum()
}

fn has(snapshot: &Snapshot, event: Event) -> bool {
    snapshot.metrics.iter().any(|(e, _)| *e == event)
}

#[test]
fn diff_basic_delta() {
    let phase = Phase { begin: snapshot(vec![(Event::CpuCycles, 100)]), end: snapshot(vec![(Event::CpuCycles, 350)]) };
    assert_eq!(total(&phase.diff(), Event::CpuCycles), 250);
}

#[test]
fn diff_multiple_events() {
    let phase = Phase {
        begin: snapshot(vec![(Event::CpuCycles, 100), (Event::Instructions, 200)]),
        end: snapshot(vec![(Event::CpuCycles, 400), (Event::Instructions, 500)]),
    };
    let diff = phase.diff();
    assert_eq!(total(&diff, Event::CpuCycles), 300);
    assert_eq!(total(&diff, Event::Instructions), 300);
}

#[test]
fn diff_equal_values_returns_zero() {
    let phase = Phase { begin: snapshot(vec![(Event::CpuCycles, 42)]), end: snapshot(vec![(Event::CpuCycles, 42)]) };
    assert_eq!(total(&phase.diff(), Event::CpuCycles), 0);
}
use joule_profiler::perf::sensor::PerfEventSource;
use joule_profiler::types::InitContext;
use joule_profiler::perf::sensor::{PerfEventError, PerfEventSensor};
use joule_profiler::perf::hardware::list_online_cpus;
use joule_profiler::perf::hardware::{PerfEventCounters, Target};

#[test]
fn diff_wraps_on_counter_overflow() {
    let phase = Phase {
        begin: snapshot(vec![(Event::CpuCycles, u64::MAX - 5)]),
        end: snapshot(vec![(Event::CpuCycles, 10)]),
    };
    assert_eq!(total(&phase.diff(), Event::CpuCycles), 16);
}

#[test]
fn diff_event_missing_in_begin_uses_end_value() {
    let phase = Phase { begin: snapshot(vec![]), end: snapshot(vec![(Event::CacheMisses, 77)]) };
    assert_eq!(total(&phase.diff(), Event::CacheMisses), 77);
}

#[test]
fn diff_event_missing_in_end_is_absent_from_result() {
    let phase = Phase {
        begin: snapshot(vec![(Event::CpuCycles, 100), (Event::Instructions, 200)]),
        end: snapshot(vec![(Event::CpuCycles, 150)]),
    };
    let diff = phase.diff();
    assert_eq!(diff.metrics.len(), 1);
    assert_eq!(total(&diff, Event::CpuCycles), 50);
    assert!(!has(&diff, Event::Instructions));
}

#[test]
fn diff_empty_snapshots_returns_empty() {
    let phase = Phase::default();
    assert_eq!(phase.diff(), Snapshot::default());
}

#[test]
fn diff_sums_independent_per_cpu_deltas() {
    let phase = Phase {
        begin: Snapshot { metrics: vec![(Event::CpuCycles, vec![(0, 100), (1, 500)])] },
        end: Snapshot { metrics: vec![(Event::CpuCycles, vec![(0, 300), (1, 550)])] },
    };
    assert_eq!(total(&phase.diff(), Event::CpuCycles), 250);
}

#[test]
fn diff_per_cpu_wraps_independently_on_overflow() {
    let phase = Phase {
        begin: Snapshot { metrics: vec![(Event::CpuCycles, vec![(0, u64::MAX - 5), (1, 500)])] },
        end: Snapshot { metrics: vec![(Event::CpuCycles, vec![(0, 10), (1, 600)])] },
    };
    assert_eq!(total(&phase.diff(), Event::CpuCycles), 116);
}

#[test]
fn processor_reports_growth_since_the_previous_reading() {
    let mut p = PerfEventProcessor::new();
    assert!(p.consume(CountsSnapshot { timestamp: 5, counts: vec![(Event::CpuCycles, 10)] }).is_none());
    let metrics = p
        .consume(CountsSnapshot {
            timestamp: 9,
            counts: vec![(Event::CpuCycles, 25), (Event::BranchMisses, 3)],
        })
        .unwrap();
    assert_eq!(metrics.len(), 2);
    assert_eq!(metrics[0].name, "CPU_CYCLES");
    assert_eq!(metrics[0].value, MetricValue::U64(15));
    assert_eq!(metrics[0].timestamp, 5);
    // An event without a previous reading reports its whole count.
    assert_eq!(metrics[1].name, "BRANCH_MISSES");
    assert_eq!(metrics[1].value, MetricValue::U64(3));
}

#[test]
fn sensors_are_the_events() {
    assert_eq!(events().len(), 4);
    let names: Vec<String> = list_sensors().into_iter().map(|s| s.name).collect();
    assert_eq!(names, vec!["CPU_CYCLES", "INSTRUCTIONS", "CACHE_MISSES", "BRANCH_MISSES"]);
}

struct FakeCounters {
    fail_open: Option<joule_profiler::perf::event::Event>,
    disabled: usize,
}

impl joule_profiler::perf::sensor::EventCounters for FakeCounters {
    type Counter = u64;

    fn open(&mut self, event: joule_profiler::perf::event::Event, pid: i32) -> Result<u64, String> {
        if self.fail_open == Some(event) {
            Err("denied".to_owned())
        } else {
            Ok(pid as u64)
        }
    }

    fn read(&mut self, counter: &mut u64) -> Result<u64, String> {
        *counter += 10;
        Ok(*counter)
    }

    fn disable(&mut self, _counter: &mut u64) -> Result<(), String> {
        self.disabled += 1;
        Ok(())
    }
}

#[test]
fn perf_sensor_counts_every_event_in_order() {
    let mut hw = FakeCounters { fail_open: None, disabled: 0 };
    let (mut sensor, mut processor) = PerfEventSource::from_config();
    sensor.init(&mut hw, InitContext { pid: 5 }).unwrap();
    let first = sensor.measure(&mut hw, 1).unwrap();
    assert_eq!(
        first.counts,
        vec![(Event::CpuCycles, 15), (Event::Instructions, 15), (Event::CacheMisses, 15), (Event::BranchMisses, 15)]
    );
    assert!(processor.consume(first).is_none());
    let second = sensor.measure(&mut hw, 2).unwrap();
    let metrics = processor.consume(second).unwrap();
    assert_eq!(metrics.len(), 4);
    assert_eq!(metrics[0].name, "CPU_CYCLES");
    assert_eq!(metrics[0].value, joule_profiler::types::MetricValue::U64(10));
    assert_eq!(metrics[0].timestamp, 1);
    sensor.join(&mut hw).unwrap();
    assert_eq!(hw.disabled, 4);
    assert!(sensor.counters.is_empty());
    assert_eq!(PerfEventSource::get_name(), "perf_event");
}

#[test]
fn perf_sensor_reports_the_event_it_cannot_open() {
    let mut hw = FakeCounters { fail_open: Some(Event::CacheMisses), disabled: 0 };
    let mut sensor: PerfEventSensor<u64> = PerfEventSensor::new();
    let err = sensor.init(&mut hw, InitContext { pid: 1 }).unwrap_err();
    assert!(matches!(err, PerfEventError::Open(Event::CacheMisses, _)));
    assert!(sensor.counters.is_empty());
}

/// A perf interface whose counters count their own reads.
struct FakeDevice {
    online: String,
}

impl joule_profiler::perf::hardware::PerfDevice<u32> for FakeDevice {
    type Counter = (joule_profiler::perf::event::Event, usize);
    type Group = Vec<(joule_profiler::perf::event::Event, usize)>;
    type Data = u64;

    fn online_cpus_text(&mut self) -> Result<String, String> {
        Ok(self.online.clone())
    }

    fn pid_counter(&mut self, event: joule_profiler::perf::event::Event, _pid: i32) -> Result<Self::Counter, String> {
        Ok((event, 0))
    }

    fn enable_counter(&mut self, _counter: &mut Self::Counter) -> Result<(), String> {
        Ok(())
    }

    fn read_counter(&mut self, counter: &mut Self::Counter) -> Result<u64, String> {
        counter.1 += 1;
        Ok(counter.1 as u64 * 100)
    }

    fn cgroup_group(&mut self, _cpu: usize, _cgroup: &u32) -> Result<Self::Group, String> {
        Ok(Vec::new())
    }

    fn add_counter(
        &mut self,
        group: &mut Self::Group,
        event: joule_profiler::perf::event::Event,
        cpu: usize,
        _cgroup: &u32,
    ) -> Result<Self::Counter, String> {
        group.push((event, cpu));
        Ok((event, cpu))
    }

    fn enable_group(&mut self, _group: &mut Self::Group) -> Result<(), String> {
        Ok(())
    }

    fn read_group(&mut self, _group: &mut Self::Group) -> Result<u64, String> {
        Ok(1000)
    }

    fn group_value(&self, data: &u64, counter: &Self::Counter) -> u64 {
        *data + counter.1 as u64
    }
}

#[test]
fn list_online_cpus_sorts_and_dedups() {
    assert_eq!(list_online_cpus("0-2,4,1\n").unwrap(), vec![0, 1, 2, 4]);
    assert_eq!(list_online_cpus("").unwrap(), Vec::<usize>::new());
    assert!(matches!(
        list_online_cpus("0-x"),
        Err(joule_profiler::perf::sensor::PerfEventError::InvalidCpuList(p)) if p == "0-x"
    ));
}

#[test]
fn pid_counters_are_read_under_a_single_cpu_key() {
    let mut device = FakeDevice { online: String::new() };
    let mut counters: PerfEventCounters<u32, _, _> = PerfEventCounters::new();
    counters
        .init_counters(&mut device, &vec![Event::CpuCycles, Event::Instructions, Event::CpuCycles], Target::Pid(3))
        .unwrap();
    let snapshot = counters.read_snapshot(&mut device).unwrap();
    assert_eq!(snapshot.metrics, vec![(Event::CpuCycles, vec![(0, 100)]), (Event::Instructions, vec![(0, 100)])]);
}

#[test]
fn cgroup_counters_are_read_per_online_cpu() {
    let mut device = FakeDevice { online: "2,0".to_owned() };
    let mut counters = PerfEventCounters::new();
    counters
        .init_counters(&mut device, &vec![Event::CacheMisses, Event::BranchMisses], Target::Cgroup(7u32))
        .unwrap();
    let snapshot = counters.read_snapshot(&mut device).unwrap();
    assert_eq!(
        snapshot.metrics,
        vec![(Event::CacheMisses, vec![(0, 1000), (2, 1002)]), (Event::BranchMisses, vec![(0, 1000), (2, 1002)])]
    );
}

use joule_profiler::perf::hardware::{file_group, pid_snapshot};

#[test]
fn pid_snapshot_files_each_value_under_its_event() {
    let events = vec![Event::CpuCycles, Event::Instructions];
    let values = vec![11, 22];
    let s = pid_snapshot(&events, &values);
    assert_eq!(
        s.metrics,
        vec![(Event::CpuCycles, vec![(0usize, 11u64)]), (Event::Instructions, vec![(0usize, 22u64)])]
    );
}

#[test]
fn file_group_appends_the_values_on_the_cpu_of_the_group() {
    let mut metrics = vec![(Event::CpuCycles, vec![(0usize, 5u64)])];
    file_group(&mut metrics, 3, &vec![Event::CpuCycles, Event::CacheMisses], &vec![7, 9]);
    assert_eq!(
        metrics,
        vec![(Event::CpuCycles, vec![(0usize, 5u64), (3, 7)]), (Event::CacheMisses, vec![(3usize, 9u64)])]
    );
}

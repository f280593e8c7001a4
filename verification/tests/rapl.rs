use joule_profiler::rapl::counters::{
    add_counter_to_domain_if_supported, domain_order, open_counters, open_event, open_counters_for_socket, open_psys_counter, record_domain,
    record_psys, PerfOpener, PerfRaplDomain, SocketInfo,
};
use joule_profiler::rapl::domain::RaplDomain;
use joule_profiler::rapl::error::RaplError;
use joule_profiler::rapl::processor::{list_sensors, RaplProcessor, RaplSnapshot};
use joule_profiler::rapl::topology::{
    available_domains, cpu_id_of_entry, domains_for_socket, parse_online_cpus, socket_id_of, sockets_of,
    SocketLeader,
};

fn socket(id: u32, cpus: Vec<u32>) -> SocketInfo {
    SocketInfo { id, cpus }
}

/// An opener over a machine that has the listed domains, openable on the
/// listed CPUs only.
struct FakePerf {
    domains: Vec<RaplDomain>,
    cpus: Vec<u32>,
    selected: Option<RaplDomain>,
    enabled: usize,
}

impl FakePerf {
    fn new(domains: Vec<RaplDomain>, cpus: Vec<u32>) -> Self {
        FakePerf { domains, cpus, selected: None, enabled: 0 }
    }
}
use joule_profiler::rapl::sensor::RaplSource;
use joule_profiler::rapl::sensor::RaplSensor;

impl PerfOpener for FakePerf {
    type Group = Vec<(RaplDomain, u32)>;
    type Counter = (RaplDomain, u32);

    fn build_group(&mut self, _socket: &SocketInfo) -> Result<Self::Group, RaplError> {
        Ok(Vec::new())
    }

    fn configure(&mut self, domain: RaplDomain) -> Result<(), RaplError> {
        if self.domains.contains(&domain) {
            self.selected = Some(domain);
            Ok(())
        } else {
            Err(RaplError::DomainNotSupported(domain))
        }
    }

    fn open_on_cpu(
        &mut self,
        domain: RaplDomain,
        cpu: u32,
        group: &mut Self::Group,
    ) -> Result<Self::Counter, RaplError> {
        assert_eq!(self.selected, Some(domain));
        if self.cpus.contains(&cpu) {
            group.push((domain, cpu));
            Ok((domain, cpu))
        } else {
            Err(RaplError::OpenCounter(domain, cpu, "no PMU".to_owned()))
        }
    }

    fn enable(&mut self, _group: &mut Self::Group) -> Result<(), RaplError> {
        self.enabled += 1;
        Ok(())
    }
}

#[test]
fn open_counters_empty_topology_returns_empty() {
    let mut perf = FakePerf::new(vec![], vec![]);
    let result = open_counters(&mut perf, &vec![]).unwrap();
    assert!(result.is_empty());
}

#[test]
fn open_counters_skips_socket_with_no_cpus() {
    let mut perf = FakePerf::new(vec![], vec![]);
    let result = open_counters(&mut perf, &vec![socket(0, vec![])]).unwrap();
    assert!(result.is_empty());
}

#[test]
fn open_counters_opens_the_available_domains_of_each_socket() {
    let mut perf = FakePerf::new(
        vec![RaplDomain::Package, RaplDomain::Dram, RaplDomain::Psys],
        vec![1, 4],
    );
    let sockets = open_counters(&mut perf, &vec![socket(0, vec![0, 1]), socket(1, vec![]), socket(2, vec![4])])
        .unwrap();
    assert_eq!(sockets.len(), 2);
    assert_eq!(sockets[0].id, 0);
    let kinds: Vec<RaplDomain> = sockets[0].domains.iter().map(|d| d.domain).collect();
    assert_eq!(kinds, vec![RaplDomain::Package, RaplDomain::Dram, RaplDomain::Psys]);
    // The counters open on the first CPU that can open them.
    assert_eq!(sockets[0].domains[0].counter, (RaplDomain::Package, 1));
    assert_eq!(sockets[1].id, 2);
    let kinds: Vec<RaplDomain> = sockets[1].domains.iter().map(|d| d.domain).collect();
    assert_eq!(kinds, vec![RaplDomain::Package, RaplDomain::Dram]);
    assert_eq!(perf.enabled, 2);
}

#[test]
fn open_counters_reports_a_socket_whose_cpus_cannot_open_a_domain() {
    let mut perf = FakePerf::new(vec![RaplDomain::Package], vec![]);
    let err = open_counters(&mut perf, &vec![socket(3, vec![5, 6])]).err().unwrap();
    match err {
        RaplError::FailToOpenDomainCounter(m) => assert_eq!(
            m,
            "unable to find a CPU associated with the 3 socket's PMU for domain Package"
        ),
        other => panic!("unexpected error {other:?}"),
    }
}

#[test]
fn unsupported_domains_are_skipped() {
    let mut perf = FakePerf::new(vec![], vec![0]);
    let info = socket(0, vec![0]);
    let mut group = Vec::new();
    let mut domains: Vec<PerfRaplDomain<(RaplDomain, u32)>> = Vec::new();
    add_counter_to_domain_if_supported(&mut perf, RaplDomain::Core, &info, &mut group, &mut domains).unwrap();
    assert!(domains.is_empty());
    assert!(open_psys_counter(&mut perf, &info, &mut group).unwrap().is_none());
    assert!(open_counters_for_socket(&mut perf, &info, &mut group).unwrap().is_empty());
}

#[test]
fn perf_event_names_round_trip() {
    for d in [RaplDomain::Package, RaplDomain::Core, RaplDomain::Uncore, RaplDomain::Dram, RaplDomain::Psys] {
        assert_eq!(RaplDomain::from_perf_event(d.to_perf_event()), Some(d));
    }
    assert_eq!(RaplDomain::from_perf_event("energy-pkg.scale"), None);
    assert_eq!(RaplDomain::Uncore.to_perf_event(), "energy-gpu");
}

#[test]
fn domain_names_carry_the_socket_except_psys() {
    assert_eq!(RaplDomain::Package.name(0), "PACKAGE-0");
    assert_eq!(RaplDomain::Dram.name(12), "DRAM-12");
    assert_eq!(RaplDomain::Psys.name(3), "PSYS");
}

#[test]
fn online_cpus_are_ranges_and_ids() {
    let mut cpus = parse_online_cpus(" 0-3,5,7-7\n").unwrap();
    cpus.sort();
    cpus.dedup();
    assert_eq!(cpus, vec![0, 1, 2, 3, 5, 7]);
    assert!(parse_online_cpus("").unwrap().is_empty());
    match parse_online_cpus("0-x") {
        Err(RaplError::InvalidCpuRange(p)) => assert_eq!(p, "0-x"),
        other => panic!("unexpected {other:?}"),
    }
    match parse_online_cpus("1,b") {
        Err(RaplError::InvalidCpuId(p)) => assert_eq!(p, "b"),
        other => panic!("unexpected {other:?}"),
    }
}

#[test]
fn cpu_entries_name_cpus() {
    assert_eq!(cpu_id_of_entry("cpu12"), Some(12));
    assert_eq!(cpu_id_of_entry("cpufreq"), None);
    assert_eq!(cpu_id_of_entry("node0"), None);
}

#[test]
fn sockets_keep_their_first_cpu_in_id_order() {
    let sockets = sockets_of(&vec![(3, 1), (0, 0), (1, 1), (2, 0), (5, 2)]);
    assert_eq!(
        sockets,
        vec![
            SocketLeader { id: 0, cpu: 0 },
            SocketLeader { id: 1, cpu: 1 },
            SocketLeader { id: 2, cpu: 5 },
        ]
    );
}

#[test]
fn psys_is_only_on_socket_zero() {
    let available = vec![RaplDomain::Psys, RaplDomain::Dram, RaplDomain::Package];
    assert_eq!(
        domains_for_socket(0, &available),
        vec![RaplDomain::Package, RaplDomain::Dram, RaplDomain::Psys]
    );
    assert_eq!(domains_for_socket(1, &available), vec![RaplDomain::Package, RaplDomain::Dram]);
}

#[test]
fn power_events_without_a_dot_name_domains() {
    let names = vec![
        "energy-pkg".to_owned(),
        "energy-pkg.scale".to_owned(),
        "energy-ram".to_owned(),
        "cycles".to_owned(),
    ];
    assert_eq!(available_domains(&names), vec![RaplDomain::Package, RaplDomain::Dram]);
}

#[test]
fn rapl_sensors_follow_sockets_and_domains() {
    let sensors = list_sensors(
        &vec![SocketLeader { id: 0, cpu: 0 }, SocketLeader { id: 1, cpu: 4 }],
        &vec![RaplDomain::Package, RaplDomain::Psys],
    );
    let names: Vec<&str> = sensors.iter().map(|s| s.name.as_str()).collect();
    assert_eq!(names, vec!["PACKAGE-0", "PSYS", "PACKAGE-1"]);
    assert!(sensors.iter().all(|s| s.source == "RAPL"));
}

#[test]
fn rapl_processor_diffs_the_counters_it_saw_before() {
    let mut p = RaplProcessor::new();
    let first = RaplSnapshot { timestamp: 10, readings: vec![("PACKAGE-0".to_owned(), u64::MAX - 1)] };
    assert!(p.consume(first).is_none());
    let second = RaplSnapshot {
        timestamp: 20,
        readings: vec![("PACKAGE-0".to_owned(), 3), ("DRAM-0".to_owned(), 9)],
    };
    let (start, diffs) = p.consume(second).unwrap();
    assert_eq!(start, 10);
    assert_eq!(diffs, vec![("PACKAGE-0".to_owned(), 5)]);
}

/// Reads a group as a fixed count per domain.
struct FakeGroups {
    fail_read: bool,
    disabled: usize,
}

impl joule_profiler::rapl::sensor::PerfGroups<Vec<(RaplDomain, u32)>, (RaplDomain, u32)> for FakeGroups {
    type Data = Vec<(RaplDomain, u64)>;

    fn read(&mut self, group: &mut Vec<(RaplDomain, u32)>) -> Result<Self::Data, String> {
        if self.fail_read {
            return Err("read failed".to_owned());
        }
        Ok(group.iter().filter(|(d, _)| *d != RaplDomain::Dram).map(|(d, cpu)| (*d, 100 + *cpu as u64)).collect())
    }

    fn value(&self, data: &Self::Data, counter: &(RaplDomain, u32)) -> Option<u64> {
        data.iter().find(|(d, _)| *d == counter.0).map(|(_, v)| *v)
    }

    fn disable(&mut self, _group: &mut Vec<(RaplDomain, u32)>) -> Result<(), String> {
        self.disabled += 1;
        Ok(())
    }
}

#[test]
fn rapl_sensor_reads_each_domain_of_each_socket() {
    let mut perf = FakePerf::new(vec![RaplDomain::Package, RaplDomain::Dram, RaplDomain::Psys], vec![0, 4]);
    let (mut sensor, _processor) = RaplSource::from_config();
    sensor.pre_init(&mut perf, &vec![socket(0, vec![0, 1]), socket(1, vec![4, 5])]).unwrap();
    let mut groups = FakeGroups { fail_read: false, disabled: 0 };
    let snapshot = sensor.measure(&mut groups, 77).unwrap();
    assert_eq!(snapshot.timestamp, 77);
    let names: Vec<&str> = snapshot.readings.iter().map(|(n, _)| n.as_str()).collect();
    assert_eq!(names, vec!["PACKAGE-0", "DRAM-0", "PSYS", "PACKAGE-1", "DRAM-1"]);
    assert_eq!(snapshot.readings[0].1, 100);
    assert_eq!(snapshot.readings[1].1, 0);
    assert_eq!(snapshot.readings[3].1, 104);
    sensor.join(&mut groups).unwrap();
    assert_eq!(groups.disabled, 2);
}

#[test]
fn rapl_sensor_without_any_domain_fails() {
    let mut perf = FakePerf::new(vec![], vec![0]);
    let mut sensor: RaplSensor<Vec<(RaplDomain, u32)>, (RaplDomain, u32)> = RaplSensor::new();
    let err = sensor.pre_init(&mut perf, &vec![socket(0, vec![0])]).unwrap_err();
    assert!(matches!(err, RaplError::NoRaplDomain));
    assert!(sensor.sockets.is_empty());
}

#[test]
fn rapl_sensor_reports_a_failed_read() {
    let mut perf = FakePerf::new(vec![RaplDomain::Package], vec![0]);
    let mut sensor = RaplSensor::new();
    sensor.pre_init(&mut perf, &vec![socket(0, vec![0])]).unwrap();
    let mut groups = FakeGroups { fail_read: true, disabled: 0 };
    assert!(matches!(sensor.measure(&mut groups, 1), Err(RaplError::Read(_))));
    assert_eq!(joule_profiler::rapl::sensor::RaplSource::get_name(), "RAPL");
}

#[test]
fn record_domain_keeps_an_opened_counter() {
    let mut domains: Vec<PerfRaplDomain<u32>> = Vec::new();
    assert!(record_domain(Ok(7u32), RaplDomain::Dram, &mut domains).is_ok());
    assert_eq!(domains.len(), 1);
    assert_eq!(domains[0].domain, RaplDomain::Dram);
    assert_eq!(domains[0].counter, 7);
}

#[test]
fn record_domain_skips_an_unsupported_domain() {
    let mut domains: Vec<PerfRaplDomain<u32>> = Vec::new();
    let opened: Result<u32, RaplError> = Err(RaplError::DomainNotSupported(RaplDomain::Uncore));
    assert!(record_domain(opened, RaplDomain::Uncore, &mut domains).is_ok());
    assert!(domains.is_empty());
}

#[test]
fn record_domain_hands_other_errors_on() {
    let mut domains: Vec<PerfRaplDomain<u32>> = Vec::new();
    let opened: Result<u32, RaplError> = Err(RaplError::FailToOpenDomainCounter("core".to_owned()));
    match record_domain(opened, RaplDomain::Core, &mut domains) {
        Err(RaplError::FailToOpenDomainCounter(m)) => assert_eq!(m, "core"),
        _ => panic!("expected the open error"),
    }
    assert!(domains.is_empty());
}

#[test]
fn record_psys_is_none_when_the_platform_counter_is_absent() {
    let absent: Result<u32, RaplError> = Err(RaplError::DomainNotSupported(RaplDomain::Psys));
    assert!(matches!(record_psys(absent), Ok(None)));
    match record_psys(Ok(3u32)) {
        Ok(Some(d)) => {
            assert_eq!(d.domain, RaplDomain::Psys);
            assert_eq!(d.counter, 3);
        }
        _ => panic!("expected the platform counter"),
    }
    let failed: Result<u32, RaplError> = Err(RaplError::FailToOpenDomainCounter("psys".to_owned()));
    assert!(record_psys(failed).is_err());
}

#[test]
fn socket_ids_are_read_from_the_trimmed_file() {
    assert_eq!(socket_id_of("1\n"), Some(1));
    assert_eq!(socket_id_of(" 0 "), Some(0));
    assert_eq!(socket_id_of("x"), None);
    assert_eq!(socket_id_of("4294967296"), None);
}

#[test]
fn the_platform_domain_is_only_opened_on_socket_zero() {
    assert_eq!(
        domain_order(0),
        vec![RaplDomain::Package, RaplDomain::Core, RaplDomain::Uncore, RaplDomain::Dram, RaplDomain::Psys]
    );
    assert_eq!(domain_order(1), vec![RaplDomain::Package, RaplDomain::Core, RaplDomain::Uncore, RaplDomain::Dram]);
}

#[test]
fn open_event_takes_the_first_cpu_that_opens_the_counter() {
    let mut perf = FakePerf::new(vec![RaplDomain::Package], vec![2, 3]);
    let mut group = Vec::new();
    let counter = open_event(&mut perf, RaplDomain::Package, &socket(0, vec![5, 2, 3]), &mut group).unwrap();
    assert_eq!(counter, (RaplDomain::Package, 2));
    assert_eq!(group, vec![(RaplDomain::Package, 2)]);
}

#[test]
fn open_event_hands_on_an_unsupported_domain() {
    let mut perf = FakePerf::new(vec![RaplDomain::Package], vec![0]);
    let mut group = Vec::new();
    assert!(matches!(
        open_event(&mut perf, RaplDomain::Dram, &socket(0, vec![0]), &mut group),
        Err(RaplError::DomainNotSupported(RaplDomain::Dram))
    ));
}

#[test]
fn open_event_fails_when_no_cpu_opens_the_counter() {
    let mut perf = FakePerf::new(vec![RaplDomain::Core], vec![9]);
    let mut group = Vec::new();
    match open_event(&mut perf, RaplDomain::Core, &socket(1, vec![0, 1]), &mut group) {
        Err(RaplError::FailToOpenDomainCounter(m)) => {
            assert_eq!(m, "unable to find a CPU associated with the 1 socket's PMU for domain Core")
        }
        _ => panic!("expected a failure to open"),
    }
}

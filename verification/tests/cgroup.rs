use std::cell::RefCell;
use std::collections::{BTreeMap, BTreeSet};
use std::rc::Rc;

use joule_profiler::cgroup::backend::{into_controller_error, CgroupBackend, ChildCgroup, RootCgroup, SysFsBackend};
use joule_profiler::cgroup::counters::{BeginEnd, CpuCounters, IoCounters, MemoryCounters, MinMax};
use joule_profiler::cgroup::error::{CgroupError, IoError, IoErrorKind};
use joule_profiler::cgroup::fs::CgroupFs;
use joule_profiler::cgroup::snapshot::{CpuSnapshot, IoSnapshot, MemorySnapshot};
use joule_profiler::cgroup::config::CgroupConfig;
use joule_profiler::cgroup::source::{get_sensors, phase_duration, to_metrics, Cgroup};
use joule_profiler::cgroup::util::{
    is_cgroup_dir, read_controllers, read_file, read_flat_keyed_file, read_io_stat, read_u64_opt,
    u64_file_value,
};
use joule_profiler::types::MetricValue;

#[derive(Default, Clone)]
struct MockCgroupBackend {
    memory: MemorySnapshot,
    cpu: CpuSnapshot,
    io: IoSnapshot,
}

impl CgroupBackend for MockCgroupBackend {
    fn verify(&self, _path: &str, _root: &str) -> Result<(), CgroupError> {
        Ok(())
    }

    fn memory(&self, _path: &str) -> Result<MemorySnapshot, CgroupError> {
        Ok(self.memory)
    }

    fn cpu(&self, _path: &str) -> Result<CpuSnapshot, CgroupError> {
        Ok(self.cpu)
    }

    fn io(&self, _path: &str) -> Result<IoSnapshot, CgroupError> {
        Ok(self.io)
    }

    fn create(&self, _path: &str) -> Result<(), CgroupError> {
        Ok(())
    }

    fn attach_pid(&self, _path: &str, _pid: i32) -> Result<(), CgroupError> {
        Ok(())
    }

    fn cleanup(&self, _path: &str, _root: &str) -> Result<(), CgroupError> {
        Ok(())
    }
}

fn mock_cgroup(name: &str, backend: MockCgroupBackend) -> ChildCgroup<MockCgroupBackend> {
    ChildCgroup::new(name.to_owned(), name.to_owned(), backend)
}

/// An in-memory filesystem, for the tests that build cgroup-like directories.
#[derive(Default, Clone)]
struct MemFs {
    dirs: Rc<RefCell<BTreeSet<String>>>,
    files: Rc<RefCell<BTreeMap<String, String>>>,
}

fn missing(path: &str) -> IoError {
    IoError { kind: IoErrorKind::NotFound, message: format!("{path}: not found") }
}

fn parent(path: &str) -> &str {
    match path.rfind('/') {
        Some(0) => "/",
        Some(i) => &path[..i],
        None => "",
    }
}

impl CgroupFs for MemFs {
    fn read_to_string(&self, path: &str) -> Result<String, IoError> {
        self.files.borrow().get(path).cloned().ok_or_else(|| missing(path))
    }

    fn path_exists(&self, path: &str) -> bool {
        self.dirs.borrow().contains(path) || self.files.borrow().contains_key(path)
    }

    fn is_file(&self, path: &str) -> bool {
        self.files.borrow().contains_key(path)
    }

    fn create_dir_all(&self, path: &str) -> Result<(), IoError> {
        let mut p = path;
        while !p.is_empty() && p != "/" {
            self.dirs.borrow_mut().insert(p.to_owned());
            p = parent(p);
        }
        Ok(())
    }

    fn write(&self, path: &str, content: &str) -> Result<(), IoError> {
        if !self.dirs.borrow().contains(parent(path)) {
            return Err(missing(path));
        }
        self.files.borrow_mut().insert(path.to_owned(), content.to_owned());
        Ok(())
    }

    fn remove_dir(&self, path: &str) -> Result<(), IoError> {
        if self.dirs.borrow_mut().remove(path) { Ok(()) } else { Err(missing(path)) }
    }
}

const ROOT: &str = "/sys/fs/cgroup/test";

fn join(base: &str, name: &str) -> String {
    format!("{base}/{name}")
}

/// Builds a directory that looks like a cgroup v2 one.
fn cgroup_dir(fs: &MemFs, path: &str) {
    fs.create_dir_all(path).unwrap();
    fs.write(&join(path, "cgroup.controllers"), "cpu io memory").unwrap();
}

fn cgroup_dir_with(fs: &MemFs, path: &str, available: &str, enabled: &str) {
    fs.create_dir_all(path).unwrap();
    fs.write(&join(path, "cgroup.controllers"), available).unwrap();
    fs.write(&join(path, "cgroup.subtree_control"), enabled).unwrap();
}

fn not_found(path: &str) -> CgroupError {
    CgroupError::io(path, IoError { kind: IoErrorKind::NotFound, message: "missing".to_owned() })
}

fn backend(fs: &MemFs) -> SysFsBackend<MemFs> {
    SysFsBackend { fs: fs.clone() }
}

#[test]
fn test_stats_reader_memory() {
    let backend = MockCgroupBackend {
        memory: MemorySnapshot {
            current: Some(123),
            swap_current: Some(456),
            peak: Some(789),
            anon: Some(100),
            file: Some(200),
            shmem: None,
            kernel: None,
            kernel_stack: None,
            slab: Some(300),
        },
        ..Default::default()
    };

    let cg = mock_cgroup("memory", backend);

    let stats = cg.memory().unwrap();

    assert_eq!(stats.current, Some(123));
    assert_eq!(stats.swap_current, Some(456));
    assert_eq!(stats.peak, Some(789));
    assert_eq!(stats.anon, Some(100));
    assert_eq!(stats.file, Some(200));
    assert_eq!(stats.slab, Some(300));
}

#[test]
fn test_stats_reader_cpu() {
    let backend = MockCgroupBackend {
        cpu: CpuSnapshot {
            usage_usec: 1000,
            user_usec: 400,
            system_usec: 600,
            nr_periods: Some(10),
            nr_throttled: Some(2),
            throttled_usec: None,
            nr_bursts: None,
            burst_usec: None,
        },
        ..Default::default()
    };

    let cg = mock_cgroup("cpu", backend);

    let stats = cg.cpu().unwrap();

    assert_eq!(stats.usage_usec, 1000);
    assert_eq!(stats.user_usec, 400);
    assert_eq!(stats.system_usec, 600);
    assert_eq!(stats.nr_periods, Some(10));
    assert_eq!(stats.nr_throttled, Some(2));
}

#[test]
fn test_stats_reader_io() {
    let backend = MockCgroupBackend {
        io: IoSnapshot { rbytes: Some(120), wbytes: Some(80) },
        ..Default::default()
    };

    let cg = mock_cgroup("io", backend);

    let stats = cg.io().unwrap();

    assert_eq!(stats.rbytes, Some(120));
    assert_eq!(stats.wbytes, Some(80));
}

#[test]
fn verify_rejects_a_root_that_is_not_a_cgroup_hierarchy() {
    let fs = MemFs::default();
    fs.create_dir_all(ROOT).unwrap();
    let cgroup = join(ROOT, "child");
    cgroup_dir(&fs, &cgroup);

    let err = backend(&fs).verify(&cgroup, ROOT).unwrap_err();

    assert!(matches!(err, CgroupError::NotAvailable(path) if path == ROOT));
}

#[test]
fn verify_rejects_a_missing_cgroup() {
    let fs = MemFs::default();
    cgroup_dir(&fs, ROOT);
    let cgroup = join(ROOT, "child");

    let err = backend(&fs).verify(&cgroup, ROOT).unwrap_err();

    assert!(matches!(err, CgroupError::NotFound(path) if path == cgroup));
}

#[test]
fn verify_rejects_a_plain_directory_inside_a_hierarchy() {
    let fs = MemFs::default();
    cgroup_dir(&fs, ROOT);
    let cgroup = join(ROOT, "child");
    fs.create_dir_all(&cgroup).unwrap();

    let err = backend(&fs).verify(&cgroup, ROOT).unwrap_err();

    assert!(matches!(err, CgroupError::NotAvailable(path) if path == cgroup));
}

#[test]
fn verify_accepts_a_cgroup_of_the_hierarchy() {
    let fs = MemFs::default();
    let cgroup = join(ROOT, "child");
    cgroup_dir(&fs, ROOT);
    cgroup_dir(&fs, &cgroup);

    backend(&fs).verify(&cgroup, ROOT).unwrap();
}

#[test]
fn cleanup_of_a_missing_cgroup_is_a_no_op() {
    let fs = MemFs::default();
    cgroup_dir(&fs, ROOT);

    backend(&fs).cleanup(&join(ROOT, "gone"), ROOT).unwrap();
}

#[test]
fn attach_pid_reports_a_missing_cgroup() {
    let fs = MemFs::default();
    fs.create_dir_all(ROOT).unwrap();
    let cgroup = join(ROOT, "gone");

    let err = backend(&fs).attach_pid(&cgroup, 1).unwrap_err();

    assert!(matches!(err, CgroupError::NotFound(path) if path == cgroup));
}

#[test]
fn keeps_errors_that_are_not_a_missing_file() {
    let fs = MemFs::default();
    fs.create_dir_all(ROOT).unwrap();
    let err = CgroupError::io(ROOT, IoError { kind: IoErrorKind::PermissionDenied, message: "denied".to_owned() });

    let err = into_controller_error(&fs, err, "memory", ROOT);

    assert!(matches!(err, CgroupError::IoPath { .. }));
}

#[test]
fn reports_a_missing_cgroup() {
    let fs = MemFs::default();
    fs.create_dir_all(ROOT).unwrap();
    let cgroup = join(ROOT, "gone");

    let err = into_controller_error(&fs, not_found(&join(&cgroup, "memory.stat")), "memory", &cgroup);

    assert!(matches!(err, CgroupError::NotFound(path) if path == cgroup));
}

#[test]
fn reports_a_directory_that_is_not_a_cgroup() {
    let fs = MemFs::default();
    fs.create_dir_all(ROOT).unwrap();

    let err = into_controller_error(&fs, not_found(&join(ROOT, "memory.stat")), "memory", ROOT);

    assert!(matches!(err, CgroupError::NotAvailable(path) if path == ROOT));
}

#[test]
fn reports_a_controller_missing_from_the_hierarchy() {
    let fs = MemFs::default();
    let cgroup = join(ROOT, "child");
    cgroup_dir_with(&fs, ROOT, "cpu io", "cpu io");
    cgroup_dir_with(&fs, &cgroup, "cpu io", "");

    let err = into_controller_error(&fs, not_found(&join(&cgroup, "memory.stat")), "memory", &cgroup);

    assert!(
        matches!(err, CgroupError::ControllerNotAvailable { controller, path }
            if controller == "memory" && path == ROOT)
    );
}

#[test]
fn reports_a_controller_the_parent_does_not_delegate() {
    let fs = MemFs::default();
    let cgroup = join(ROOT, "child");
    cgroup_dir_with(&fs, ROOT, "cpu io memory", "cpu");
    cgroup_dir_with(&fs, &cgroup, "cpu", "");

    let err = into_controller_error(&fs, not_found(&join(&cgroup, "memory.stat")), "memory", &cgroup);

    assert!(
        matches!(err, CgroupError::ControllerNotEnabled { controller, path }
            if controller == "memory" && path == ROOT)
    );
}

#[test]
fn keeps_the_io_error_at_the_hierarchy_root() {
    let fs = MemFs::default();
    cgroup_dir_with(&fs, ROOT, "cpu io memory", "cpu io memory");

    let err = into_controller_error(&fs, not_found(&join(ROOT, "memory.stat")), "memory", ROOT);

    assert!(matches!(err, CgroupError::IoPath { .. }));
}

#[test]
fn keeps_the_io_error_when_nothing_explains_it() {
    let fs = MemFs::default();
    let cgroup = join(ROOT, "child");
    cgroup_dir_with(&fs, ROOT, "cpu io memory", "cpu io memory");
    cgroup_dir_with(&fs, &cgroup, "cpu io memory", "");

    let err = into_controller_error(&fs, not_found(&join(&cgroup, "memory.stat")), "memory", &cgroup);

    assert!(matches!(err, CgroupError::IoPath { .. }));
}

#[test]
fn cgroup_sensors_list_every_metric_once() {
    let sensors = get_sensors();
    assert_eq!(sensors.len(), 26);
    assert_eq!(sensors[0].name, "usage_usec");
    assert_eq!(sensors[25].name, "write_bytes");
    assert!(sensors.iter().all(|s| s.source == "cgroup"));
}

#[test]
fn cgroup_metrics_are_prefixed_and_skip_unread_values() {
    let memory = MemoryCounters { anon: Some(MinMax(Some(10), Some(30))), ..Default::default() };
    let cpu = CpuCounters {
        usage_usec: BeginEnd(Some(100), Some(250)),
        user_usec: BeginEnd(Some(5), Some(4)),
        system_usec: BeginEnd(None, Some(9)),
        nr_periods: Some(BeginEnd(Some(1), Some(3))),
        ..Default::default()
    };
    let io = IoCounters { rbytes: None, wbytes: Some(BeginEnd(Some(7), Some(17))) };

    let metrics = to_metrics(&memory, &cpu, &io, "proc");
    let names: Vec<&str> = metrics.iter().map(|m| m.name.as_str()).collect();
    assert_eq!(
        names,
        vec![
            "proc_anon_min",
            "proc_anon_max",
            "proc_usage_usec",
            "proc_user_usec",
            "proc_system_usec",
            "proc_nr_periods",
            "proc_write_bytes",
        ]
    );
    assert_eq!(metrics[0].value, MetricValue::U64(10));
    assert_eq!(metrics[1].value, MetricValue::U64(30));
    assert_eq!(metrics[2].value, MetricValue::U64(150));
    // A counter that went down gives zero, one never started gives zero.
    assert_eq!(metrics[3].value, MetricValue::U64(0));
    assert_eq!(metrics[4].value, MetricValue::U64(0));
    assert_eq!(metrics[5].value, MetricValue::U64(2));
    assert_eq!(metrics[6].value, MetricValue::U64(10));
}

#[test]
fn phase_duration_is_zero_when_reversed() {
    assert_eq!(phase_duration(10, 35), 25);
    assert_eq!(phase_duration(35, 10), 0);
    assert_eq!(phase_duration(0, u128::MAX), 0);
}

/// A filesystem holding the one file `path` with `content`.
fn fs_with_file(path: &str, content: &str) -> MemFs {
    let fs = MemFs::default();
    fs.create_dir_all(parent(path)).unwrap();
    fs.write(path, content).unwrap();
    fs
}

#[test]
fn test_read_u64_ok() {
    let fs = fs_with_file("/tmp/valid_u64", "42");
    assert_eq!(read_u64_opt(&fs, "/tmp/valid_u64").unwrap(), Some(42));
}

#[test]
fn test_read_u64_invalid() {
    let fs = fs_with_file("/tmp/invalid_u64", "NaN");
    let err = read_u64_opt(&fs, "/tmp/invalid_u64").unwrap_err();
    assert!(matches!(err, CgroupError::Parse { .. }));
}

#[test]
fn test_read_u64_opt_missing() {
    let fs = MemFs::default();
    assert_eq!(read_u64_opt(&fs, "/tmp/missing_file").unwrap(), None);
}

#[test]
fn test_read_file_reports_the_faulty_path() {
    let fs = MemFs::default();
    let err = read_file(&fs, "/tmp/missing_cgroup_file").unwrap_err();
    assert!(matches!(&err, CgroupError::IoPath { path: p, .. } if p == "/tmp/missing_cgroup_file"));
    assert!(format!("{err:?}").contains("missing_cgroup_file"));
}

#[test]
fn test_read_controllers() {
    let fs = fs_with_file("/tmp/test_controllers", "cpuset cpu io memory pids\n");
    let controllers = read_controllers(&fs, "/tmp/test_controllers").unwrap();
    assert_eq!(controllers, ["cpuset", "cpu", "io", "memory", "pids"]);
}

#[test]
fn test_is_cgroup_dir() {
    let fs = MemFs::default();
    fs.create_dir_all("/tmp/dir").unwrap();
    assert!(!is_cgroup_dir(&fs, "/tmp/dir"));
    fs.write("/tmp/dir/cgroup.controllers", "").unwrap();
    assert!(is_cgroup_dir(&fs, "/tmp/dir"));
}

#[test]
fn test_read_u64_opt_present() {
    let fs = fs_with_file("/tmp/present_u64", "100");
    assert_eq!(read_u64_opt(&fs, "/tmp/present_u64").unwrap(), Some(100));
}

#[test]
fn test_read_flat_keyed_file() {
    let content = "foo 10\nbar 20\ninvalid_line\nbaz not_a_number";
    let fs = fs_with_file("/tmp/test_flat_keyed", content);
    let map = read_flat_keyed_file(&fs, "/tmp/test_flat_keyed").unwrap();
    let get = |k: &str| map.iter().find(|(n, _)| n == k).map(|(_, v)| *v);
    assert_eq!(get("foo"), Some(10));
    assert_eq!(get("bar"), Some(20));
    assert_eq!(get("baz"), None);
}

#[test]
fn test_read_io_stat() {
    let fs = fs_with_file("/tmp/test_io_stat", "8:0 rbytes=100 wbytes=50\n8:1 rbytes=20 wbytes=30");
    let (r, w) = read_io_stat(&fs, "/tmp/test_io_stat").unwrap();
    assert_eq!(r, Some(120));
    assert_eq!(w, Some(80));
}

#[test]
fn test_read_io_stat_partial() {
    let fs = fs_with_file("/tmp/test_io_stat_partial", "8:0 rbytes=10\n8:1 rbytes=5");
    let (r, w) = read_io_stat(&fs, "/tmp/test_io_stat_partial").unwrap();
    assert_eq!(r, Some(15));
    assert_eq!(w, None);
}

/// A backend whose statistics are set by the test, shared by its clones.
#[derive(Clone, Default)]
struct SharedBackend {
    memory: Rc<RefCell<MemorySnapshot>>,
    cpu: Rc<RefCell<CpuSnapshot>>,
    io: Rc<RefCell<IoSnapshot>>,
}

impl CgroupBackend for SharedBackend {
    fn verify(&self, _path: &str, _root: &str) -> Result<(), CgroupError> {
        Ok(())
    }

    fn create(&self, _path: &str) -> Result<(), CgroupError> {
        Ok(())
    }

    fn attach_pid(&self, _path: &str, _pid: i32) -> Result<(), CgroupError> {
        Ok(())
    }

    fn cleanup(&self, _path: &str, _root: &str) -> Result<(), CgroupError> {
        Ok(())
    }

    fn memory(&self, _path: &str) -> Result<MemorySnapshot, CgroupError> {
        Ok(*self.memory.borrow())
    }

    fn cpu(&self, _path: &str) -> Result<CpuSnapshot, CgroupError> {
        Ok(*self.cpu.borrow())
    }

    fn io(&self, _path: &str) -> Result<IoSnapshot, CgroupError> {
        Ok(*self.io.borrow())
    }
}

fn setup_source() -> (Cgroup<SharedBackend>, SharedBackend) {
    let backend = SharedBackend::default();
    let root = RootCgroup::new("/tmp/root".to_owned(), backend.clone());
    let proc = ChildCgroup::new("/tmp/cgroup".to_owned(), "/tmp/root".to_owned(), backend.clone());
    let source = Cgroup {
        config: CgroupConfig::default_for(1),
        proc_cgroup: proc,
        root_cgroup: root,
        proc_memory_counters: MemoryCounters::default(),
        global_memory_counters: MemoryCounters::default(),
        proc_cpu_counters: CpuCounters::default(),
        global_cpu_counters: CpuCounters::default(),
        proc_io_counters: IoCounters::default(),
        global_io_counters: IoCounters::default(),
        begin_timestamp: 0,
        end_timestamp: 0,
    };
    (source, backend)
}

#[test]
fn test_measure_updates_counters() {
    let (mut src, backend) = setup_source();
    assert!(src.proc_memory_counters.anon.is_none());
    backend.memory.borrow_mut().anon = Some(200);

    src.measure(1).unwrap();

    let anon = src.proc_memory_counters.anon.unwrap();
    assert_eq!(anon.min(), Some(200));
    assert_eq!(anon.max(), Some(200));
}

#[test]
fn test_measure_tracks_min_max() {
    let (mut src, backend) = setup_source();
    {
        let mut memory = backend.memory.borrow_mut();
        memory.anon = Some(200);
        memory.current = Some(200);
        memory.peak = Some(200);
    }
    src.measure(1).unwrap();
    {
        let mut memory = backend.memory.borrow_mut();
        memory.anon = Some(400);
        memory.current = Some(400);
        memory.peak = Some(400);
    }
    src.measure(2).unwrap();

    let mem = src.proc_memory_counters;
    let anon = mem.anon.unwrap();
    let current = mem.current.unwrap();
    let peak = mem.peak.unwrap();
    assert_eq!(anon.min(), Some(200));
    assert_eq!(anon.max(), Some(400));
    assert_eq!(current.min(), Some(200));
    assert_eq!(current.max(), Some(400));
    assert_eq!(peak.min(), Some(200));
    assert_eq!(peak.max(), Some(400));
}

#[test]
fn test_retrieve_compute_diffs() {
    let (mut src, backend) = setup_source();
    {
        let mut cpu = backend.cpu.borrow_mut();
        cpu.usage_usec = 1000;
        cpu.user_usec = 500;
        cpu.system_usec = 500;
        cpu.nr_periods = Some(2);
    }
    src.measure(1).unwrap();
    {
        let mut cpu = backend.cpu.borrow_mut();
        cpu.usage_usec = 2000;
        cpu.user_usec = 1000;
        cpu.system_usec = 1000;
        cpu.nr_periods = Some(4);
    }
    src.measure(2).unwrap();

    let counters = src.retrieve();
    assert_eq!(counters.proc_cpu.usage_usec.diff(), 1000);
    assert_eq!(counters.proc_cpu.user_usec.diff(), 500);
    assert_eq!(counters.proc_cpu.system_usec.diff(), 500);
    assert_eq!(counters.proc_cpu.nr_periods.unwrap().diff(), 2);
}

#[test]
fn test_worker_updates_counters() {
    let (mut src, backend) = setup_source();
    assert!(src.proc_memory_counters.anon.is_none());

    backend.memory.borrow_mut().anon = Some(200);
    src.poll_memory().unwrap();
    let anon = src.proc_memory_counters.anon.unwrap();
    assert_eq!(anon.max().unwrap(), 200);
    assert_eq!(anon.min().unwrap(), 200);

    backend.memory.borrow_mut().anon = Some(100);
    src.poll_memory().unwrap();
    let anon = src.proc_memory_counters.anon.unwrap();
    assert_eq!(anon.max().unwrap(), 200);
    assert_eq!(anon.min().unwrap(), 100);
}

#[test]
fn cgroup_source_is_named_cgroup() {
    assert_eq!(Cgroup::<SharedBackend>::get_name(), "cgroup");
}

#[test]
fn u64_file_value_reads_the_trimmed_content() {
    assert!(matches!(u64_file_value("f", Ok(" 42\n".to_owned())), Ok(Some(42))));
    assert!(matches!(u64_file_value("f", Ok("100".to_owned())), Ok(Some(100))));
}

#[test]
fn u64_file_value_of_a_missing_file_is_none() {
    let read = Err(IoError { kind: IoErrorKind::NotFound, message: "gone".to_owned() });
    assert!(matches!(u64_file_value("f", read), Ok(None)));
}

#[test]
fn u64_file_value_reports_a_bad_content_as_a_parse_error() {
    match u64_file_value("memory.peak", Ok("NaN".to_owned())) {
        Err(CgroupError::Parse { path }) => assert_eq!(path, "memory.peak"),
        _ => panic!("expected a parse error"),
    }
}

#[test]
fn u64_file_value_reports_other_read_failures_on_the_file() {
    let read = Err(IoError { kind: IoErrorKind::PermissionDenied, message: "denied".to_owned() });
    match u64_file_value("memory.peak", read) {
        Err(CgroupError::IoPath { path, source }) => {
            assert_eq!(path, "memory.peak");
            assert_eq!(source.kind, IoErrorKind::PermissionDenied);
        }
        _ => panic!("expected an I/O error"),
    }
}

use joule_profiler::procfs::backend::{Backend, Meminfo, ProcReader, ProcfsBackend, global_snapshot};
use joule_profiler::procfs::config::ProcfsConfig;
use joule_profiler::procfs::error::{ProcErrorKind, ProcfsError};
use joule_profiler::procfs::snapshot::{GlobalSnapshot, ProcSnapshot};
use joule_profiler::procfs::source::{Procfs, get_sensors, to_metrics, PROCFS_SOURCE_NAME};
use joule_profiler::procfs::utils::{add_new_children, ChildProcesses, collect_all_children};
use joule_profiler::types::MetricValue;

#[derive(Clone, Default)]
struct FakeBackend {
    children: Vec<i32>,
    dead: Vec<i32>,
    per_process: ProcSnapshot,
    global: GlobalSnapshot,
    mem_total: u64,
}

impl Backend for FakeBackend {
    fn read_proc(&self, pid: i32, snapshot: &mut ProcSnapshot) -> Result<(), ProcfsError> {
        if self.dead.contains(&pid) {
            return Err(ProcfsError::Procfs { kind: ProcErrorKind::NotFound, message: String::new() });
        }
        snapshot.vm_size += self.per_process.vm_size;
        snapshot.rss += self.per_process.rss;
        snapshot.pss += self.per_process.pss;
        snapshot.shared += self.per_process.shared;
        snapshot.anon += self.per_process.anon;
        snapshot.read_bytes += self.per_process.read_bytes;
        snapshot.write_bytes += self.per_process.write_bytes;
        Ok(())
    }

    fn measure_global(&self) -> Result<GlobalSnapshot, ProcfsError> {
        Ok(self.global)
    }

    fn collect_children(&self, _pid: i32) -> Vec<i32> {
        self.children.clone()
    }

    fn mem_total(&self) -> Result<u64, ProcfsError> {
        Ok(self.mem_total)
    }
}

fn global(anon: u64, cached: u64, mem_available: u64, mem_free: u64, swap_free: u64) -> GlobalSnapshot {
    GlobalSnapshot {
        anon: Some(anon),
        cached,
        mem_available: Some(mem_available),
        mem_free,
        swap_free,
    }
}

fn source_after_init(backend: &FakeBackend) -> Procfs {
    let mut source = Procfs::new(ProcfsConfig::default(), 0);
    source.init(backend, 1).unwrap();
    source
}

#[test]
fn test_init_function_initializes_field_correctly() {
    let backend = FakeBackend { children: vec![1, 2], mem_total: 4096, ..Default::default() };
    let source = source_after_init(&backend);
    assert_eq!(source.mem_total, 4096);
    assert_eq!(source.detected_processes, vec![1, 2]);
}

#[test]
fn test_measure_updates_counters_once() {
    let backend = FakeBackend {
        children: vec![1],
        global: global(100, 200, 300, 400, 500),
        mem_total: 1000,
        ..Default::default()
    };
    let mut source = source_after_init(&backend);
    source.measure(&backend).unwrap();
    let counters = source.counters;
    assert_eq!(counters.global.cached.max(), Some(200));
    assert_eq!(counters.global.mem_available.unwrap().max(), Some(300));
    assert_eq!(counters.global.mem_free.max(), Some(400));
    assert_eq!(counters.global.swap_free.max(), Some(500));
}

#[test]
fn test_measure_tracks_global_min_max() {
    let mut backend = FakeBackend {
        children: vec![1],
        global: global(100, 200, 300, 400, 500),
        ..Default::default()
    };
    let mut source = source_after_init(&backend);
    source.measure(&backend).unwrap();
    backend.global = global(200, 400, 600, 800, 1000);
    source.measure(&backend).unwrap();
    let g = source.counters.global;
    assert_eq!(g.anon.unwrap().min(), Some(100));
    assert_eq!(g.anon.unwrap().max(), Some(200));
    assert_eq!(g.cached.min(), Some(200));
    assert_eq!(g.cached.max(), Some(400));
    assert_eq!(g.mem_available.unwrap().min(), Some(300));
    assert_eq!(g.mem_available.unwrap().max(), Some(600));
    assert_eq!(g.mem_free.min(), Some(400));
    assert_eq!(g.mem_free.max(), Some(800));
    assert_eq!(g.swap_free.min(), Some(500));
    assert_eq!(g.swap_free.max(), Some(1000));
}

#[test]
fn test_retrieve_resets_counters() {
    let backend = FakeBackend {
        children: vec![1],
        global: global(10, 20, 30, 40, 50),
        mem_total: 1000,
        ..Default::default()
    };
    let mut source = source_after_init(&backend);
    source.measure(&backend).unwrap();
    let first = source.retrieve();
    let second = source.retrieve();
    assert!(first.global.cached.max().is_some());
    assert!(second.global.cached.max().is_none());
}

#[test]
fn test_dead_pid_removed_from_detected_processes() {
    let backend = FakeBackend { children: vec![1, 2], dead: vec![2], mem_total: 1000, ..Default::default() };
    let mut source = source_after_init(&backend);
    source.measure(&backend).unwrap();
    assert!(source.detected_processes.contains(&1));
    assert!(!source.detected_processes.contains(&2));
}

#[test]
fn measure_sums_the_processes_of_the_tree() {
    let backend = FakeBackend {
        children: vec![1, 2, 3],
        per_process: ProcSnapshot { vm_size: 10, rss: 5, pss: 4, shared: 3, anon: 2, read_bytes: 7, write_bytes: 1 },
        global: global(1, 2, 3, 4, 5),
        mem_total: 100,
        ..Default::default()
    };
    let mut source = source_after_init(&backend);
    source.measure(&backend).unwrap();
    let p = source.counters.proc;
    assert_eq!((p.vm_size.0, p.vm_size.1), (Some(30), Some(30)));
    assert_eq!((p.rss.0, p.rss.1), (Some(15), Some(15)));
    assert_eq!(p.end_read_bytes, 21);
    assert_eq!(p.end_write_bytes, 3);
}

#[test]
fn get_sensors_lists_every_procfs_metric_in_bytes() {
    let sensors = get_sensors();
    assert_eq!(sensors.len(), 20);
    assert_eq!(sensors[0].name, "proc_vm_size_min");
    assert_eq!(sensors[19].name, "proc_io_write_bytes");
    assert!(sensors.iter().all(|s| s.source == PROCFS_SOURCE_NAME));
}

#[test]
fn to_metrics_derives_used_memory_from_the_total() {
    let backend = FakeBackend {
        children: vec![1],
        global: global(100, 200, 300, 400, 500),
        mem_total: 1000,
        ..Default::default()
    };
    let mut source = source_after_init(&backend);
    source.measure(&backend).unwrap();
    let counters = source.retrieve();
    let metrics = to_metrics(1000, &counters);
    assert_eq!(metrics.len(), 20);
    let used = metrics.iter().find(|m| m.name == "global_mem_used_min").unwrap();
    assert_eq!(used.value, MetricValue::U64(700));
    let anon = metrics.iter().find(|m| m.name == "global_anon_max").unwrap();
    assert_eq!(anon.value, MetricValue::U64(100));
}

#[test]
fn to_metrics_without_anonymous_memory_skips_those_metrics() {
    let backend = FakeBackend {
        children: vec![1],
        global: GlobalSnapshot { anon: None, cached: 100, mem_available: None, mem_free: 300, swap_free: 0 },
        ..Default::default()
    };
    let mut source = source_after_init(&backend);
    source.measure(&backend).unwrap();
    let metrics = to_metrics(1000, &source.counters);
    assert_eq!(metrics.len(), 18);
    let used = metrics.iter().find(|m| m.name == "global_mem_used_max").unwrap();
    assert_eq!(used.value, MetricValue::U64(600));
}

struct Tree;

impl ChildProcesses for Tree {
    fn children(&self, pid: i32) -> Vec<i32> {
        match pid {
            1 => vec![2, 3],
            2 => vec![4],
            3 => vec![4, 5],
            _ => vec![],
        }
    }
}

#[test]
fn collect_all_children_walks_the_tree_breadth_first() {
    assert_eq!(collect_all_children(&Tree, 1), vec![1, 2, 3, 4, 5]);
    assert_eq!(collect_all_children(&Tree, 5), vec![5]);
}

struct Reader;

impl ProcReader for Reader {
    fn vsize(&self, _pid: i32) -> Result<u64, ProcfsError> {
        Ok(1000)
    }

    fn smaps_rollup(&self, _pid: i32) -> Result<Option<Vec<(String, u64)>>, ProcfsError> {
        Ok(Some(vec![
            ("Rss".to_string(), 10),
            ("Pss".to_string(), 8),
            ("Shared_Clean".to_string(), 3),
            ("Shared_Dirty".to_string(), 2),
        ]))
    }

    fn io(&self, pid: i32) -> Result<(u64, u64), ProcfsError> {
        if pid == 2 {
            Err(ProcfsError::Procfs { kind: ProcErrorKind::PermissionDenied, message: String::new() })
        } else {
            Ok((5, 6))
        }
    }

    fn meminfo(&self) -> Result<Meminfo, ProcfsError> {
        Ok(Meminfo {
            mem_total: 2048,
            mem_available: Some(1024),
            mem_free: 512,
            cached: 256,
            anon_pages: None,
            swap_free: 0,
        })
    }

    fn task_children(&self, pid: i32) -> Vec<i32> {
        if pid == 1 { vec![2] } else { vec![] }
    }
}

#[test]
fn procfs_backend_reads_the_process_files() {
    let backend = ProcfsBackend { reader: Reader };
    let mut snapshot = ProcSnapshot::default();
    backend.read_proc(1, &mut snapshot).unwrap();
    backend.read_proc(2, &mut snapshot).unwrap();
    assert_eq!(snapshot.vm_size, 2000);
    assert_eq!(snapshot.rss, 20);
    assert_eq!(snapshot.pss, 16);
    assert_eq!(snapshot.shared, 10);
    assert_eq!(snapshot.anon, 0);
    assert_eq!(snapshot.read_bytes, 5);
    assert_eq!(snapshot.write_bytes, 6);
    assert_eq!(backend.collect_children(1), vec![1, 2]);
    assert_eq!(backend.mem_total().unwrap(), 2048);
    let g = backend.measure_global().unwrap();
    assert_eq!(g, global_snapshot(&backend.reader.meminfo().unwrap()));
    assert_eq!(g.mem_available, Some(1024));
}

/// A backend whose process tree and system memory change from one call to
/// the next, as a running program's do.
struct ChangingBackend {
    trees: Vec<Vec<i32>>,
    globals: Vec<GlobalSnapshot>,
    tree_calls: std::cell::Cell<usize>,
    global_calls: std::cell::Cell<usize>,
}

impl Backend for ChangingBackend {
    fn read_proc(&self, _pid: i32, _snapshot: &mut ProcSnapshot) -> Result<(), ProcfsError> {
        Ok(())
    }

    fn measure_global(&self) -> Result<GlobalSnapshot, ProcfsError> {
        let k = self.global_calls.get();
        self.global_calls.set(k + 1);
        Ok(self.globals[k.min(self.globals.len() - 1)])
    }

    fn collect_children(&self, _pid: i32) -> Vec<i32> {
        let k = self.tree_calls.get();
        self.tree_calls.set(k + 1);
        self.trees[k.min(self.trees.len() - 1)].clone()
    }

    fn mem_total(&self) -> Result<u64, ProcfsError> {
        Ok(0)
    }
}

#[test]
fn test_process_detection_polling_updates_processes_list() {
    let backend = ChangingBackend {
        trees: vec![vec![], vec![1, 2, 3, 4]],
        globals: vec![GlobalSnapshot::default()],
        tree_calls: std::cell::Cell::new(0),
        global_calls: std::cell::Cell::new(0),
    };
    let mut source = Procfs::new(ProcfsConfig::default(), 0);
    assert!(source.detected_processes.is_empty());

    source.init(&backend, 1).unwrap();
    source.discover(&backend, 1);

    assert_eq!(source.detected_processes, vec![1, 2, 3, 4]);
}

#[test]
fn test_polling_task_updates_counters() {
    let backend = ChangingBackend {
        trees: vec![vec![1]],
        globals: vec![global(100, 200, 300, 400, 500), global(200, 400, 600, 800, 1000)],
        tree_calls: std::cell::Cell::new(0),
        global_calls: std::cell::Cell::new(0),
    };
    let mut source = Procfs::new(ProcfsConfig::default(), 0);
    let g = source.counters.global;
    assert!(g.anon.is_none());
    assert!(g.cached.min().is_none());
    assert!(g.cached.max().is_none());
    assert!(g.mem_available.is_none());
    assert!(g.mem_free.min().is_none());
    assert!(g.mem_free.max().is_none());
    assert!(g.swap_free.min().is_none());
    assert!(g.swap_free.max().is_none());

    source.init(&backend, 1).unwrap();
    source.measure(&backend).unwrap();
    source.measure(&backend).unwrap();

    let g = source.counters.global;
    assert_eq!(g.anon.unwrap().min(), Some(100));
    assert_eq!(g.anon.unwrap().max(), Some(200));
    assert_eq!(g.cached.min(), Some(200));
    assert_eq!(g.cached.max(), Some(400));
    assert_eq!(g.mem_available.unwrap().min(), Some(300));
    assert_eq!(g.mem_available.unwrap().max(), Some(600));
    assert_eq!(g.mem_free.min(), Some(400));
    assert_eq!(g.mem_free.max(), Some(800));
    assert_eq!(g.swap_free.min(), Some(500));
    assert_eq!(g.swap_free.max(), Some(1000));
}

#[test]
fn procfs_source_is_named_procfs() {
    assert_eq!(Procfs::get_name(), "procfs");
}

/// A reader whose rollup read fails for pid 3 and whose I/O read fails for
/// pid 4 with an error other than a denial.
struct FailingReader;

impl ProcReader for FailingReader {
    fn vsize(&self, pid: i32) -> Result<u64, ProcfsError> {
        if pid == 5 {
            Err(ProcfsError::Io("gone".to_string()))
        } else {
            Ok(100)
        }
    }

    fn smaps_rollup(&self, pid: i32) -> Result<Option<Vec<(String, u64)>>, ProcfsError> {
        if pid == 3 {
            Err(ProcfsError::Io("gone".to_string()))
        } else {
            Ok(Some(vec![("Rss".to_string(), 7)]))
        }
    }

    fn io(&self, _pid: i32) -> Result<(u64, u64), ProcfsError> {
        Err(ProcfsError::Procfs { kind: ProcErrorKind::Other, message: String::new() })
    }

    fn meminfo(&self) -> Result<Meminfo, ProcfsError> {
        Err(ProcfsError::Io("no meminfo".to_string()))
    }

    fn task_children(&self, _pid: i32) -> Vec<i32> {
        vec![]
    }
}

#[test]
fn read_proc_keeps_what_the_reads_before_a_failure_added() {
    let backend = ProcfsBackend { reader: FailingReader };
    let mut snapshot = ProcSnapshot::default();
    assert!(backend.read_proc(5, &mut snapshot).is_err());
    assert_eq!(snapshot, ProcSnapshot::default());
    assert!(backend.read_proc(3, &mut snapshot).is_err());
    assert_eq!(snapshot.vm_size, 100);
    assert_eq!(snapshot.rss, 0);
    assert!(backend.read_proc(4, &mut snapshot).is_err());
    assert_eq!(snapshot.vm_size, 200);
    assert_eq!(snapshot.rss, 7);
    assert_eq!(snapshot.read_bytes, 0);
}

#[test]
fn add_new_children_appends_the_unseen_children_once_in_order() {
    let mut pids = vec![1, 2];
    add_new_children(&mut pids, &vec![3, 2, 4, 3, 1, 5]);
    assert_eq!(pids, vec![1, 2, 3, 4, 5]);
    add_new_children(&mut pids, &vec![]);
    assert_eq!(pids, vec![1, 2, 3, 4, 5]);
}

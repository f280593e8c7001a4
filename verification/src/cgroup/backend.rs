//! Reading a cgroup v2 hierarchy: the backend interface, the sysfs backend,
//! and the handles on the root cgroup and on a child cgroup.

use vstd::prelude::*;

use crate::cgroup::error::{CgroupError, IoError, IoErrorKind};
use crate::cgroup::fs::{CgroupFs, join_path, path_join};
use crate::cgroup::snapshot::{CpuSnapshot, IoSnapshot, MemorySnapshot};
use crate::cgroup::util::{
    entries_view, flat_keyed, io_stat, io_stat_fits, is_cgroup_dir, keyed_get, keyed_lookup,
    opt_u64_int, read_controllers, read_flat_keyed_file, read_io_stat, read_u64_opt,
};
use crate::text::{chars_of, chars_equal, i32_decimal_string, line_ranges, parse_i32_range, trim_range};

verus! {

/// The memory snapshot made of the entries of `memory.stat` and of the
/// single-value memory files.
pub fn memory_snapshot(
    stat: &Vec<(String, u64)>,
    current: Option<u64>,
    swap_current: Option<u64>,
    peak: Option<u64>,
) -> (s: MemorySnapshot)
    ensures
        s.current == current,
        s.swap_current == swap_current,
        s.peak == peak,
        s.anon == keyed_lookup(entries_view(stat@), "anon"@),
        s.file == keyed_lookup(entries_view(stat@), "file"@),
        s.shmem == keyed_lookup(entries_view(stat@), "shmem"@),
        s.kernel == keyed_lookup(entries_view(stat@), "kernel"@),
        s.kernel_stack == keyed_lookup(entries_view(stat@), "kernel_stack"@),
        s.slab == keyed_lookup(entries_view(stat@), "slab"@),
{
    MemorySnapshot {
        current,
        swap_current,
        peak,
        anon: keyed_get(stat, "anon"),
        file: keyed_get(stat, "file"),
        shmem: keyed_get(stat, "shmem"),
        kernel: keyed_get(stat, "kernel"),
        kernel_stack: keyed_get(stat, "kernel_stack"),
        slab: keyed_get(stat, "slab"),
    }
}

fn required(stat: &Vec<(String, u64)>, key: &str) -> (r: Result<u64, CgroupError>)
    ensures
        match keyed_lookup(entries_view(stat@), key@) {
            Some(v) => r == Ok::<u64, CgroupError>(v),
            None => r matches Err(e) && (e matches CgroupError::MissingAlwaysPresentMetric(m)
                && m@ == key@),
        },
{
    match keyed_get(stat, key) {
        Some(v) => Ok(v),
        None => Err(CgroupError::MissingAlwaysPresentMetric(key.to_owned())),
    }
}

/// The CPU snapshot made of the entries of `cpu.stat`; the three usage
/// counters must be present.
pub fn cpu_snapshot(stat: &Vec<(String, u64)>) -> (r: Result<CpuSnapshot, CgroupError>)
    ensures
        ({
            let e = entries_view(stat@);
            match r {
                Ok(s) => keyed_lookup(e, "usage_usec"@) == Some(s.usage_usec) && keyed_lookup(
                    e,
                    "user_usec"@,
                ) == Some(s.user_usec) && keyed_lookup(e, "system_usec"@) == Some(s.system_usec)
                    && s.nr_periods == keyed_lookup(e, "nr_periods"@) && s.nr_throttled
                    == keyed_lookup(e, "nr_throttled"@) && s.throttled_usec == keyed_lookup(
                    e,
                    "throttled_usec"@,
                ) && s.nr_bursts == keyed_lookup(e, "nr_bursts"@) && s.burst_usec
                    == keyed_lookup(e, "burst_usec"@),
                Err(err) => (keyed_lookup(e, "usage_usec"@) is None && (
                err matches CgroupError::MissingAlwaysPresentMetric(m) && m@ == "usage_usec"@))
                    || (keyed_lookup(e, "usage_usec"@) is Some && keyed_lookup(e, "user_usec"@) is None
                    && (err matches CgroupError::MissingAlwaysPresentMetric(m) && m@
                    == "user_usec"@)) || (keyed_lookup(e, "usage_usec"@) is Some && keyed_lookup(
                    e,
                    "user_usec"@,
                ) is Some && keyed_lookup(e, "system_usec"@) is None && (
                err matches CgroupError::MissingAlwaysPresentMetric(m) && m@ == "system_usec"@)),
            }
        }),
{
    let usage_usec = required(stat, "usage_usec")?;
    let user_usec = required(stat, "user_usec")?;
    let system_usec = required(stat, "system_usec")?;
    Ok(
        CpuSnapshot {
            usage_usec,
            user_usec,
            system_usec,
            nr_periods: keyed_get(stat, "nr_periods"),
            nr_throttled: keyed_get(stat, "nr_throttled"),
            throttled_usec: keyed_get(stat, "throttled_usec"),
            nr_bursts: keyed_get(stat, "nr_bursts"),
            burst_usec: keyed_get(stat, "burst_usec"),
        },
    )
}

/// Whether `name` is among `list`.
pub fn contains_name(list: &Vec<String>, name: &str) -> (b: bool)
    ensures
        b == exists|i: int| 0 <= i < list@.len() && #[trigger] list@[i]@ == name@,
{
    let n = chars_of(name);
    let mut i: usize = 0;
    while i < list.len()
        invariant
            0 <= i <= list@.len(),
            n@ == name@,
            forall|j: int| 0 <= j < i ==> #[trigger] list@[j]@ != name@,
        decreases list@.len() - i,
    {
        let c = chars_of(list[i].as_str());
        if chars_equal(&c, &n) {
            return true;
        }
        i = i + 1;
    }
    false
}

/// The parent of a path, as `Path::parent` gives it for a path without
/// repeated nor trailing separators: what precedes the last `/`, the root
/// `/` for a top-level path, the empty path for a bare name, and nothing for
/// the root or the empty path.
pub open spec fn path_parent(s: Seq<char>) -> Option<Seq<char>> {
    let k = crate::cgroup::fs::last_slash(s);
    if s.len() == 0 || s == seq!['/'] {
        None
    } else if k < 0 {
        Some(Seq::empty())
    } else if k == 0 {
        Some(seq!['/'])
    } else {
        Some(s.subrange(0, k))
    }
}

/// Executable form of [`path_parent`].
pub fn parent_path(path: &str) -> (r: Option<String>)
    ensures
        match r {
            Some(p) => path_parent(path@) == Some(p@),
            None => path_parent(path@) is None,
        },
{
    let v = chars_of(path);
    if v.len() == 0 || (v.len() == 1 && v[0] == '/') {
        proof {
            if v.len() == 1 {
                assert(v@ =~= seq!['/']);
            }
        }
        return None;
    }
    proof {
        if v@ == seq!['/'] {
            assert(v@.len() == 1);
        }
    }
    let mut k = v.len();
    proof {
        assert(v@.subrange(0, v@.len() as int) =~= v@);
    }
    while k > 0 && v[k - 1] != '/'
        invariant
            0 <= k <= v@.len(),
            crate::cgroup::fs::last_slash(v@) == crate::cgroup::fs::last_slash(
                v@.subrange(0, k as int),
            ),
        decreases k,
    {
        proof {
            assert(v@.subrange(0, k as int).drop_last() =~= v@.subrange(0, k - 1));
        }
        k = k - 1;
    }
    proof {
        assert(v@.subrange(0, v@.len() as int) =~= v@);
        if k == 0 {
            assert(v@.subrange(0, 0) =~= Seq::<char>::empty());
        }
    }
    if k == 0 {
        Some(String::new())
    } else if k == 1 {
        Some(crate::text::string_of(vec!['/']))
    } else {
        Some(crate::text::string_of_range(&v, 0, k - 1))
    }
}

/// What a failed read of a controller's interface file comes from, once
/// the filesystem has been probed.
///
/// `cgroup_exists` and `cgroup_is_dir` describe `cgroup`; `parent` is its
/// parent when that is a cgroup directory; `available` the controllers of
/// the scope (the parent if there is one, else the cgroup), `None` when they
/// could not be read; `enabled` the controllers the parent enables for its
/// children, `None` when they could not be read.
pub fn diagnose_controller_error(
    error: CgroupError,
    controller: &str,
    cgroup: &str,
    cgroup_exists: bool,
    cgroup_is_dir: bool,
    parent: Option<String>,
    available: Option<Vec<String>>,
    enabled: Option<Vec<String>>,
) -> (r: CgroupError)
    ensures
        ({
            let missing_file = error matches CgroupError::IoPath { source, .. } && source.kind
                == IoErrorKind::NotFound;
            let scope = match parent {
                Some(p) => p@,
                None => cgroup@,
            };
            if !missing_file {
                r == error
            } else if !cgroup_exists {
                r matches CgroupError::NotFound(p) && p@ == cgroup@
            } else if !cgroup_is_dir {
                r matches CgroupError::NotAvailable(p) && p@ == cgroup@
            } else if available is None {
                r == error
            } else if !exists|i: int|
                0 <= i < available.unwrap()@.len() && #[trigger] available.unwrap()@[i]@
                    == controller@ {
                r matches CgroupError::ControllerNotAvailable { controller: c, path: p } && c@
                    == controller@ && p@ == scope
            } else if parent is None || enabled is None {
                r == error
            } else if exists|i: int|
                0 <= i < enabled.unwrap()@.len() && #[trigger] enabled.unwrap()@[i]@
                    == controller@ {
                r == error
            } else {
                r matches CgroupError::ControllerNotEnabled { controller: c, path: p } && c@
                    == controller@ && p@ == parent.unwrap()@
            }
        }),
{
    let missing_file = match &error {
        CgroupError::IoPath { source, .. } => source.kind == IoErrorKind::NotFound,
        _ => false,
    };
    if !missing_file {
        return error;
    }
    if !cgroup_exists {
        return CgroupError::NotFound(cgroup.to_owned());
    }
    if !cgroup_is_dir {
        return CgroupError::NotAvailable(cgroup.to_owned());
    }
    let available = match available {
        Some(a) => a,
        None => {
            return error;
        },
    };
    if !contains_name(&available, controller) {
        let scope = match &parent {
            Some(p) => p.clone(),
            None => cgroup.to_owned(),
        };
        return CgroupError::ControllerNotAvailable {
            controller: controller.to_owned(),
            path: scope,
        };
    }
    let parent = match parent {
        Some(p) => p,
        None => {
            return error;
        },
    };
    let enabled = match enabled {
        Some(e) => e,
        None => {
            return error;
        },
    };
    if contains_name(&enabled, controller) {
        return error;
    }
    CgroupError::ControllerNotEnabled { controller: controller.to_owned(), path: parent }
}

/// Turns the failed read of a controller's file into the reason it failed,
/// when the hierarchy explains it:
/// the cgroup is missing or not a cgroup, the controller is unknown to the
/// hierarchy, or the parent does not enable it. Other errors are kept.
pub fn into_controller_error<F: CgroupFs>(
    fs: &F,
    error: CgroupError,
    controller: &str,
    cgroup: &str,
) -> (r: CgroupError)
    ensures
        !(error matches CgroupError::IoPath { source, .. } && source.kind == IoErrorKind::NotFound)
            ==> r == error,
        r == error || (r matches CgroupError::NotFound(p) && p@ == cgroup@) || (
        r matches CgroupError::NotAvailable(p) && p@ == cgroup@) || (
        r matches CgroupError::ControllerNotAvailable { controller: c, path: p } && c@
            == controller@ && (p@ == cgroup@ || path_parent(cgroup@) == Some(p@))) || (
        r matches CgroupError::ControllerNotEnabled { controller: c, path: p } && c@ == controller@
            && path_parent(cgroup@) == Some(p@)),
{
    let missing_file = match &error {
        CgroupError::IoPath { source, .. } => source.kind == IoErrorKind::NotFound,
        _ => false,
    };
    if !missing_file {
        return error;
    }
    let exists = fs.path_exists(cgroup);
    let is_dir = exists && is_cgroup_dir(fs, cgroup);
    let parent = match parent_path(cgroup) {
        Some(p) => if is_cgroup_dir(fs, p.as_str()) {
            Some(p)
        } else {
            None
        },
        None => None,
    };
    let available = if exists && is_dir {
        let scope = match &parent {
            Some(p) => p.clone(),
            None => cgroup.to_owned(),
        };
        match read_controllers(fs, join_path(scope.as_str(), "cgroup.controllers").as_str()) {
            Ok(a) => Some(a),
            Err(_) => None,
        }
    } else {
        None
    };
    let enabled = match &parent {
        Some(p) => match read_controllers(fs, join_path(p.as_str(), "cgroup.subtree_control").as_str()) {
            Ok(e) => Some(e),
            Err(_) => None,
        },
        None => None,
    };
    diagnose_controller_error(error, controller, cgroup, exists, is_dir, parent, available, enabled)
}


/// The outcome of checking the cgroup `path` of the hierarchy at `root`
/// when the filesystem answered that the root is a cgroup directory
/// (`root_is_cgroup`), that the cgroup exists (`path_exists`) and that it is
/// a cgroup directory (`path_is_cgroup`).
pub open spec fn checked(
    path: Seq<char>,
    root: Seq<char>,
    root_is_cgroup: bool,
    path_exists: bool,
    path_is_cgroup: bool,
    r: Result<(), CgroupError>,
) -> bool {
    if !root_is_cgroup {
        r matches Err(CgroupError::NotAvailable(p)) && p@ == root
    } else if !path_exists {
        r matches Err(CgroupError::NotFound(p)) && p@ == path
    } else if !path_is_cgroup {
        r matches Err(CgroupError::NotAvailable(p)) && p@ == path
    } else {
        r is Ok
    }
}

/// The outcome of checking a cgroup, from what the filesystem answered:
/// the hierarchy root must be a cgroup directory, the cgroup must exist and
/// be a cgroup directory.
pub fn verify_outcome(
    path: &str,
    root: &str,
    root_is_cgroup: bool,
    path_exists: bool,
    path_is_cgroup: bool,
) -> (r: Result<(), CgroupError>)
    ensures
        checked(path@, root@, root_is_cgroup, path_exists, path_is_cgroup, r),
{
    if !root_is_cgroup {
        return Err(CgroupError::NotAvailable(root.to_owned()));
    }
    if !path_exists {
        return Err(CgroupError::NotFound(path.to_owned()));
    }
    if !path_is_cgroup {
        return Err(CgroupError::NotAvailable(path.to_owned()));
    }
    Ok(())
}

/// The error of a failed creation of the cgroup directory.
pub fn create_error(path: &str, err: IoError) -> (e: CgroupError)
    ensures
        err.kind == IoErrorKind::PermissionDenied ==> e is PermissionDenied,
        err.kind != IoErrorKind::PermissionDenied ==> (e matches CgroupError::IoPath {
            path: p,
            source,
        } && p@ == path@ && source.kind == err.kind),
{
    if err.kind == IoErrorKind::PermissionDenied {
        CgroupError::PermissionDenied("creating a cgroup requires root privileges.".to_owned())
    } else {
        CgroupError::io(path, err)
    }
}

/// The error of a failed write of a pid to `cgroup.procs`: a missing
/// `cgroup.procs` means the cgroup itself is missing, while a missing
/// process leaves the file in place.
pub fn attach_error(path: &str, procs_path: &str, pid: i32, err: IoError, procs_exists: bool) -> (e:
    CgroupError)
    ensures
        err.kind == IoErrorKind::PermissionDenied ==> e is PermissionDenied,
        err.kind == IoErrorKind::NotFound && !procs_exists ==> (e matches CgroupError::NotFound(p)
            && p@ == path@),
        err.kind == IoErrorKind::Other || (err.kind == IoErrorKind::NotFound && procs_exists) ==> (
        e matches CgroupError::FailedToAttachPid { pid: q, path: p, .. } && q == pid && p@
            == procs_path@),
{
    if err.kind == IoErrorKind::PermissionDenied {
        CgroupError::PermissionDenied(
            "attaching a process to this cgroup requires root privileges.".to_owned(),
        )
    } else if err.kind == IoErrorKind::NotFound && !procs_exists {
        CgroupError::NotFound(path.to_owned())
    } else {
        CgroupError::FailedToAttachPid { pid, path: procs_path.to_owned(), source: err }
    }
}

/// The pids of a `cgroup.procs` content: every line that parses as an
/// `i32` once trimmed.
pub open spec fn pid_lines(ls: Seq<Seq<char>>) -> Seq<i32>
    decreases ls.len(),
{
    if ls.len() == 0 {
        seq![]
    } else {
        let p = pid_lines(ls.drop_last());
        match crate::text::parse_i32(crate::text::trim(ls.last())) {
            Some(x) => p.push(x),
            None => p,
        }
    }
}

/// Parses a `cgroup.procs` content into its pids.
pub fn parse_pids(text: &str) -> (r: Vec<i32>)
    ensures
        r@ == pid_lines(crate::text::lines(text@)),
{
    let v = chars_of(text);
    let lr = line_ranges(&v);
    let ghost ls = crate::text::pieces(v@, lr@);
    let mut out: Vec<i32> = Vec::new();
    let mut k: usize = 0;
    while k < lr.len()
        invariant
            0 <= k <= lr@.len(),
            crate::text::ranges_within(lr@, v@.len() as int),
            ls == crate::text::pieces(v@, lr@),
            ls == crate::text::lines(text@),
            out@ == pid_lines(ls.subrange(0, k as int)),
        decreases lr@.len() - k,
    {
        let (a, b) = lr[k];
        proof {
            assert(lr@[k as int].0 <= lr@[k as int].1 <= v@.len());
            assert(ls.subrange(0, k + 1).drop_last() =~= ls.subrange(0, k as int));
            assert(ls.subrange(0, k + 1).last() == v@.subrange(a as int, b as int));
        }
        let (x, y) = trim_range(&v, a, b);
        match parse_i32_range(&v, x, y) {
            Some(p) => {
                out.push(p);
            },
            None => {},
        }
        k = k + 1;
    }
    proof {
        assert(ls.subrange(0, lr@.len() as int) =~= ls);
    }
    out
}

/// The memory snapshot holds, besides the three single-value files, the
/// entries of `memory.stat` that it names.
pub open spec fn memory_from_stat(e: Seq<(Seq<char>, u64)>, s: MemorySnapshot) -> bool {
    &&& s.anon == keyed_lookup(e, "anon"@)
    &&& s.file == keyed_lookup(e, "file"@)
    &&& s.shmem == keyed_lookup(e, "shmem"@)
    &&& s.kernel == keyed_lookup(e, "kernel"@)
    &&& s.kernel_stack == keyed_lookup(e, "kernel_stack"@)
    &&& s.slab == keyed_lookup(e, "slab"@)
}

/// The CPU snapshot is made of the entries of `cpu.stat`, which hold the
/// three usage counters.
pub open spec fn cpu_from_stat(e: Seq<(Seq<char>, u64)>, s: CpuSnapshot) -> bool {
    &&& keyed_lookup(e, "usage_usec"@) == Some(s.usage_usec)
    &&& keyed_lookup(e, "user_usec"@) == Some(s.user_usec)
    &&& keyed_lookup(e, "system_usec"@) == Some(s.system_usec)
    &&& s.nr_periods == keyed_lookup(e, "nr_periods"@)
    &&& s.nr_throttled == keyed_lookup(e, "nr_throttled"@)
    &&& s.throttled_usec == keyed_lookup(e, "throttled_usec"@)
    &&& s.nr_bursts == keyed_lookup(e, "nr_bursts"@)
    &&& s.burst_usec == keyed_lookup(e, "burst_usec"@)
}

/// The errors of reading a controller's statistics file `file` of the
/// cgroup `cgroup`: the read failure itself, or, for a missing file, what
/// the hierarchy says of the cgroup and of the controller.
pub open spec fn controller_read_error(
    e: CgroupError,
    controller: Seq<char>,
    cgroup: Seq<char>,
    file: Seq<char>,
) -> bool {
    ||| (e matches CgroupError::IoPath { path: p, .. } && p@ == file)
    ||| (e matches CgroupError::NotFound(p) && p@ == cgroup)
    ||| (e matches CgroupError::NotAvailable(p) && p@ == cgroup)
    ||| (e matches CgroupError::ControllerNotAvailable { controller: c, path: p } && c@
        == controller && (p@ == cgroup || path_parent(cgroup) == Some(p@)))
    ||| (e matches CgroupError::ControllerNotEnabled { controller: c, path: p } && c@ == controller
        && path_parent(cgroup) == Some(p@))
}

/// The errors of reading an optional single-value file.
pub open spec fn value_file_error(e: CgroupError, file: Seq<char>) -> bool {
    ||| (e matches CgroupError::IoPath { path: p, .. } && p@ == file)
    ||| (e matches CgroupError::Parse { path: p } && p@ == file)
}

/// Reading a cgroup's statistics and managing its lifecycle.
///
/// Each operation states its outcome through a predicate that a backend
/// may define: what it may answer for the paths it was handed. A backend
/// that does not define one claims nothing of that operation's answers.
pub trait CgroupBackend: Clone + Default {
    /// What `verify` may answer for `path` in the hierarchy at `root`.
    open spec fn verify_post(&self, path: Seq<char>, root: Seq<char>, r: Result<(), CgroupError>) -> bool {
        true
    }

    /// What `create` may answer for `path`.
    open spec fn create_post(&self, path: Seq<char>, r: Result<(), CgroupError>) -> bool {
        true
    }

    /// What `attach_pid` may answer for `path` and `pid`.
    open spec fn attach_pid_post(&self, path: Seq<char>, pid: i32, r: Result<(), CgroupError>) -> bool {
        true
    }

    /// What `cleanup` may answer for `path` in the hierarchy at `root`.
    open spec fn cleanup_post(&self, path: Seq<char>, root: Seq<char>, r: Result<(), CgroupError>) -> bool {
        true
    }

    /// What `memory` may answer for `path`.
    open spec fn memory_post(&self, path: Seq<char>, r: Result<MemorySnapshot, CgroupError>) -> bool {
        true
    }

    /// What `cpu` may answer for `path`.
    open spec fn cpu_post(&self, path: Seq<char>, r: Result<CpuSnapshot, CgroupError>) -> bool {
        true
    }

    /// What `io` may answer for `path`.
    open spec fn io_post(&self, path: Seq<char>, r: Result<IoSnapshot, CgroupError>) -> bool {
        true
    }

    /// Checks that `path` is a cgroup the backend can read, `root` being the
    /// hierarchy it belongs to.
    fn verify(&self, path: &str, root: &str) -> (r: Result<(), CgroupError>)
        ensures
            self.verify_post(path@, root@, r),
    ;

    /// Creates the cgroup.
    fn create(&self, path: &str) -> (r: Result<(), CgroupError>)
        ensures
            self.create_post(path@, r),
    ;

    /// Attaches the provided pid to the cgroup.
    fn attach_pid(&self, path: &str, pid: i32) -> (r: Result<(), CgroupError>)
        ensures
            self.attach_pid_post(path@, pid, r),
    ;

    /// Moves the cgroup's processes back to the root and removes it.
    fn cleanup(&self, path: &str, root: &str) -> (r: Result<(), CgroupError>)
        ensures
            self.cleanup_post(path@, root@, r),
    ;

    /// Returns memory statistics.
    fn memory(&self, path: &str) -> (r: Result<MemorySnapshot, CgroupError>)
        ensures
            self.memory_post(path@, r),
    ;

    /// Returns CPU statistics.
    fn cpu(&self, path: &str) -> (r: Result<CpuSnapshot, CgroupError>)
        ensures
            self.cpu_post(path@, r),
    ;

    /// Returns I/O statistics.
    fn io(&self, path: &str) -> (r: Result<IoSnapshot, CgroupError>)
        ensures
            self.io_post(path@, r),
    ;
}

/// The backend that reads the cgroup v2 interface files.
pub struct SysFsBackend<F: CgroupFs> {
    pub fs: F,
}

impl<F: CgroupFs + Clone> Clone for SysFsBackend<F> {
    fn clone(&self) -> Self {
        SysFsBackend { fs: self.fs.clone() }
    }
}

impl<F: CgroupFs + Default> Default for SysFsBackend<F> {
    fn default() -> Self {
        SysFsBackend { fs: F::default() }
    }
}

impl<F: CgroupFs> SysFsBackend<F> {
    /// The pids attached to the cgroup; none when `cgroup.procs` is missing.
    pub fn pids(&self, path: &str) -> (r: Result<Vec<i32>, CgroupError>)
        ensures
            r matches Ok(v) ==> exists|t: Seq<char>|
                v@ == pid_lines(crate::text::lines(t)),
            r matches Err(e) ==> e matches CgroupError::IoPath { path: p, .. } && p@ == path_join(
                path@,
                "cgroup.procs"@,
            ),
    {
        let procs = join_path(path, "cgroup.procs");
        match self.fs.read_to_string(procs.as_str()) {
            Ok(content) => Ok(parse_pids(content.as_str())),
            Err(err) => {
                if err.kind == IoErrorKind::NotFound {
                    proof {
                        assert(pid_lines(crate::text::lines(Seq::<char>::empty())) =~= Seq::<
                            i32,
                        >::empty()) by {
                            assert(crate::text::split_on(Seq::<char>::empty(), '\n') =~= seq![
                                Seq::<char>::empty(),
                            ]);
                            assert(crate::text::lines(Seq::<char>::empty()) =~= Seq::<
                                Seq<char>,
                            >::empty());
                        }
                    }
                    Ok(Vec::new())
                } else {
                    Err(CgroupError::io(procs.as_str(), err))
                }
            },
        }
    }
}

impl<F: CgroupFs + Clone + Default> CgroupBackend for SysFsBackend<F> {
    open spec fn verify_post(&self, path: Seq<char>, root: Seq<char>, r: Result<(), CgroupError>) -> bool {
        exists|root_is_cgroup: bool, path_exists: bool, path_is_cgroup: bool|
            #![trigger checked(path, root, root_is_cgroup, path_exists, path_is_cgroup, r)]
            {
                &&& self.fs.is_file_post(path_join(root, "cgroup.controllers"@), root_is_cgroup)
                &&& root_is_cgroup ==> self.fs.exists_post(path, path_exists)
                &&& root_is_cgroup && path_exists ==> self.fs.is_file_post(
                    path_join(path, "cgroup.controllers"@),
                    path_is_cgroup,
                )
                &&& checked(path, root, root_is_cgroup, path_exists, path_is_cgroup, r)
            }
    }

    open spec fn create_post(&self, path: Seq<char>, r: Result<(), CgroupError>) -> bool {
        ||| r is Ok
        ||| (r matches Err(e) && e is PermissionDenied)
        ||| (r matches Err(CgroupError::IoPath { path: p, .. }) && p@ == path)
    }

    open spec fn attach_pid_post(&self, path: Seq<char>, pid: i32, r: Result<(), CgroupError>) -> bool {
        ||| r is Ok
        ||| (r matches Err(e) && e is PermissionDenied)
        ||| (r matches Err(CgroupError::NotFound(p)) && p@ == path)
        ||| (r matches Err(CgroupError::FailedToAttachPid { pid: q, path: p, .. }) && q == pid
            && p@ == path_join(path, "cgroup.procs"@))
    }

    open spec fn cleanup_post(&self, path: Seq<char>, root: Seq<char>, r: Result<(), CgroupError>) -> bool {
        &&& exists|present: bool|
            #![trigger self.fs.exists_post(path, present)]
            self.fs.exists_post(path, present) && (!present ==> r is Ok)
        &&& r matches Err(e) ==> e matches CgroupError::IoPath { path: p, .. } && p@ == path_join(
            path,
            "cgroup.procs"@,
        )
    }

    open spec fn memory_post(&self, path: Seq<char>, r: Result<MemorySnapshot, CgroupError>) -> bool {
        match r {
            Ok(s) => exists|t: String|
                #![trigger self.fs.read_post(path_join(path, "memory.stat"@), Ok::<String, IoError>(t))]
                self.fs.read_post(path_join(path, "memory.stat"@), Ok::<String, IoError>(t))
                    && memory_from_stat(flat_keyed(t@), s),
            Err(e) => controller_read_error(e, "memory"@, path, path_join(path, "memory.stat"@))
                || value_file_error(e, path_join(path, "memory.current"@)) || value_file_error(
                e,
                path_join(path, "memory.swap.current"@),
            ) || value_file_error(e, path_join(path, "memory.peak"@)),
        }
    }

    open spec fn cpu_post(&self, path: Seq<char>, r: Result<CpuSnapshot, CgroupError>) -> bool {
        match r {
            Ok(s) => exists|t: String|
                #![trigger self.fs.read_post(path_join(path, "cpu.stat"@), Ok::<String, IoError>(t))]
                self.fs.read_post(path_join(path, "cpu.stat"@), Ok::<String, IoError>(t))
                    && cpu_from_stat(flat_keyed(t@), s),
            Err(e) => controller_read_error(e, "cpu"@, path, path_join(path, "cpu.stat"@)) || (
            e matches CgroupError::MissingAlwaysPresentMetric(m) && (m@ == "usage_usec"@ || m@
                == "user_usec"@ || m@ == "system_usec"@)),
        }
    }

    open spec fn io_post(&self, path: Seq<char>, r: Result<IoSnapshot, CgroupError>) -> bool {
        match r {
            Ok(s) => exists|t: String|
                #![trigger self.fs.read_post(path_join(path, "io.stat"@), Ok::<String, IoError>(t))]
                self.fs.read_post(path_join(path, "io.stat"@), Ok::<String, IoError>(t))
                    && io_stat_fits(t@) && opt_u64_int(s.rbytes) == io_stat(t@).0 && opt_u64_int(
                    s.wbytes,
                ) == io_stat(t@).1,
            Err(e) => controller_read_error(e, "io"@, path, path_join(path, "io.stat"@)) || (
            e matches CgroupError::Parse { path: p } && p@ == path_join(path, "io.stat"@)),
        }
    }

    /// Checks that the hierarchy is mounted and that the cgroup exists in it.
    fn verify(&self, path: &str, root: &str) -> (r: Result<(), CgroupError>) {
        let root_is_cgroup = is_cgroup_dir(&self.fs, root);
        if !root_is_cgroup {
            let r = verify_outcome(path, root, false, false, false);
            proof {
                assert(checked(path@, root@, false, false, false, r));
            }
            return r;
        }
        let exists = self.fs.path_exists(path);
        if !exists {
            let r = verify_outcome(path, root, true, false, false);
            proof {
                assert(checked(path@, root@, true, false, false, r));
            }
            return r;
        }
        let is_cgroup = is_cgroup_dir(&self.fs, path);
        let r = verify_outcome(path, root, true, true, is_cgroup);
        proof {
            assert(checked(path@, root@, true, true, is_cgroup, r));
        }
        r
    }

    /// Creates the cgroup directory.
    fn create(&self, path: &str) -> (r: Result<(), CgroupError>) {
        match self.fs.create_dir_all(path) {
            Ok(()) => Ok(()),
            Err(err) => Err(create_error(path, err)),
        }
    }

    /// Attaches a process pid to the cgroup.
    fn attach_pid(&self, path: &str, pid: i32) -> (r: Result<(), CgroupError>) {
        let procs_path = join_path(path, "cgroup.procs");
        let content = i32_decimal_string(pid);
        match self.fs.write(procs_path.as_str(), content.as_str()) {
            Ok(()) => Ok(()),
            Err(err) => {
                let procs_exists = if err.kind == IoErrorKind::NotFound {
                    self.fs.path_exists(procs_path.as_str())
                } else {
                    true
                };
                Err(attach_error(path, procs_path.as_str(), pid, err, procs_exists))
            },
        }
    }

    /// Moves processes back to the root cgroup and removes the directory; a
    /// cgroup that is already gone is left alone.
    fn cleanup(&self, path: &str, root: &str) -> (r: Result<(), CgroupError>) {
        let present = self.fs.path_exists(path);
        if !present {
            return Ok(());
        }
        let root_procs = join_path(root, "cgroup.procs");
        let pids = self.pids(path)?;
        let mut i: usize = 0;
        while i < pids.len()
            invariant
                0 <= i <= pids@.len(),
            decreases pids@.len() - i,
        {
            let content = i32_decimal_string(pids[i]);
            let _ = self.fs.write(root_procs.as_str(), content.as_str());
            i = i + 1;
        }
        let _ = self.fs.remove_dir(path);
        Ok(())
    }

    /// Reads memory statistics from the cgroup memory files.
    fn memory(&self, path: &str) -> (r: Result<MemorySnapshot, CgroupError>) {
        let stat_path = join_path(path, "memory.stat");
        let stat = match read_flat_keyed_file(&self.fs, stat_path.as_str()) {
            Ok(s) => s,
            Err(e) => {
                return Err(into_controller_error(&self.fs, e, "memory", path));
            },
        };
        let current = read_u64_opt(&self.fs, join_path(path, "memory.current").as_str())?;
        let swap_current = read_u64_opt(&self.fs, join_path(path, "memory.swap.current").as_str())?;
        let peak = read_u64_opt(&self.fs, join_path(path, "memory.peak").as_str())?;
        let snapshot = memory_snapshot(&stat, current, swap_current, peak);
        proof {
            let t = choose|t: String|
                self.fs.read_post(stat_path@, Ok::<String, IoError>(t)) && entries_view(stat@)
                    == flat_keyed(t@);
            assert(memory_from_stat(flat_keyed(t@), snapshot));
        }
        Ok(snapshot)
    }

    /// Reads CPU statistics from `cpu.stat`.
    fn cpu(&self, path: &str) -> (r: Result<CpuSnapshot, CgroupError>) {
        let stat_path = join_path(path, "cpu.stat");
        let stat = match read_flat_keyed_file(&self.fs, stat_path.as_str()) {
            Ok(s) => s,
            Err(e) => {
                return Err(into_controller_error(&self.fs, e, "cpu", path));
            },
        };
        let r = cpu_snapshot(&stat);
        proof {
            if let Ok(snapshot) = r {
                let t = choose|t: String|
                    self.fs.read_post(stat_path@, Ok::<String, IoError>(t)) && entries_view(stat@)
                        == flat_keyed(t@);
                assert(cpu_from_stat(flat_keyed(t@), snapshot));
            }
        }
        r
    }

    /// Reads I/O statistics from `io.stat`.
    fn io(&self, path: &str) -> (r: Result<IoSnapshot, CgroupError>) {
        let stat_path = join_path(path, "io.stat");
        match read_io_stat(&self.fs, stat_path.as_str()) {
            Ok((rbytes, wbytes)) => {
                let snapshot = IoSnapshot { rbytes, wbytes };
                proof {
                    let t = choose|t: String|
                        self.fs.read_post(stat_path@, Ok::<String, IoError>(t)) && io_stat_fits(t@)
                            && opt_u64_int(rbytes) == io_stat(t@).0 && opt_u64_int(wbytes) == io_stat(
                            t@,
                        ).1;
                    assert(io_stat_fits(t@) && opt_u64_int(snapshot.rbytes) == io_stat(t@).0
                        && opt_u64_int(snapshot.wbytes) == io_stat(t@).1);
                }
                Ok(snapshot)
            },
            Err(e) => Err(into_controller_error(&self.fs, e, "io", path)),
        }
    }
}

/// The default mount point of the cgroup v2 hierarchy.
pub const DEFAULT_CGROUP_ROOT: &'static str = "/sys/fs/cgroup";

/// The root cgroup of a hierarchy.
pub struct RootCgroup<B: CgroupBackend> {
    path: String,
    backend: B,
}

impl<F: CgroupFs + Clone + Default> RootCgroup<SysFsBackend<F>> {
    /// A handle on the hierarchy at `path`, read through the filesystem.
    pub fn at(path: String) -> (r: Self)
        ensures
            r.path()@ == path@,
    {
        RootCgroup { path, backend: SysFsBackend::default() }
    }
}

impl<B: CgroupBackend> RootCgroup<B> {
    /// The path of the cgroup.
    pub closed spec fn path(&self) -> String {
        self.path
    }

    /// The backend the cgroup is read through.
    pub closed spec fn backend(&self) -> B {
        self.backend
    }

    /// A handle on the hierarchy at `path`, read through `backend`.
    pub fn new(path: String, backend: B) -> (r: Self)
        ensures
            r.path()@ == path@,
            r.backend() == backend,
    {
        RootCgroup { path, backend }
    }

    /// Builds the root cgroup (at `cgroup_root`, or the default mount point)
    /// and its child named `cgroup_name`, with a default backend.
    pub fn build(cgroup_root: Option<String>, cgroup_name: &str) -> (r: (Self, ChildCgroup<B>))
        ensures
            r.0.path()@ == match cgroup_root {
                Some(p) => p@,
                None => DEFAULT_CGROUP_ROOT@,
            },
            r.1.path()@ == path_join(r.0.path()@, cgroup_name@),
            r.1.root()@ == r.0.path()@,
            call_ensures(B::default, (), r.0.backend()),
            cloned::<B>(r.0.backend(), r.1.backend()),
    {
        let path = match cgroup_root {
            Some(p) => p,
            None => DEFAULT_CGROUP_ROOT.to_owned(),
        };
        let root = RootCgroup::new(path, B::default());
        let child = root.child(cgroup_name);
        (root, child)
    }

    /// A handle on the child cgroup `name`, sharing this cgroup's backend.
    pub fn child(&self, name: &str) -> (c: ChildCgroup<B>)
        ensures
            c.path()@ == path_join(self.path()@, name@),
            c.root()@ == self.path()@,
            cloned::<B>(self.backend(), c.backend()),
    {
        ChildCgroup::new(join_path(self.path.as_str(), name), self.path.clone(), self.backend.clone())
    }

    /// Get memory stats.
    pub fn memory(&self) -> (r: Result<MemorySnapshot, CgroupError>)
        ensures
            self.backend().memory_post(self.path()@, r),
    {
        self.backend.memory(self.path.as_str())
    }

    /// Get CPU stats.
    pub fn cpu(&self) -> (r: Result<CpuSnapshot, CgroupError>)
        ensures
            self.backend().cpu_post(self.path()@, r),
    {
        self.backend.cpu(self.path.as_str())
    }

    /// Get I/O stats.
    pub fn io(&self) -> (r: Result<IoSnapshot, CgroupError>)
        ensures
            self.backend().io_post(self.path()@, r),
    {
        self.backend.io(self.path.as_str())
    }

    /// Checks that the cgroup v2 hierarchy is mounted at this path.
    pub fn verify(&self) -> (r: Result<(), CgroupError>)
        ensures
            self.backend().verify_post(self.path()@, self.path()@, r),
    {
        self.backend.verify(self.path.as_str(), self.path.as_str())
    }
}

/// A child cgroup, with the root of its hierarchy.
pub struct ChildCgroup<B: CgroupBackend> {
    path: String,
    root: String,
    backend: B,
}

impl<B: CgroupBackend> ChildCgroup<B> {
    /// The path of the cgroup.
    pub closed spec fn path(&self) -> String {
        self.path
    }

    /// The path of the root of its hierarchy.
    pub closed spec fn root(&self) -> String {
        self.root
    }

    /// The backend the cgroup is read through.
    pub closed spec fn backend(&self) -> B {
        self.backend
    }

    /// A handle on the cgroup at `path` of the hierarchy at `root`.
    pub fn new(path: String, root: String, backend: B) -> (c: Self)
        ensures
            c.path()@ == path@,
            c.root()@ == root@,
            c.backend() == backend,
    {
        ChildCgroup { path, root, backend }
    }

    /// Get memory stats.
    pub fn memory(&self) -> (r: Result<MemorySnapshot, CgroupError>)
        ensures
            self.backend().memory_post(self.path()@, r),
    {
        self.backend.memory(self.path.as_str())
    }

    /// Get CPU stats.
    pub fn cpu(&self) -> (r: Result<CpuSnapshot, CgroupError>)
        ensures
            self.backend().cpu_post(self.path()@, r),
    {
        self.backend.cpu(self.path.as_str())
    }

    /// Get I/O stats.
    pub fn io(&self) -> (r: Result<IoSnapshot, CgroupError>)
        ensures
            self.backend().io_post(self.path()@, r),
    {
        self.backend.io(self.path.as_str())
    }

    /// Checks that the cgroup exists in a mounted cgroup v2 hierarchy.
    pub fn verify(&self) -> (r: Result<(), CgroupError>)
        ensures
            self.backend().verify_post(self.path()@, self.root()@, r),
    {
        self.backend.verify(self.path.as_str(), self.root.as_str())
    }

    /// Creates the cgroup.
    pub fn create(&self) -> (r: Result<(), CgroupError>)
        ensures
            self.backend().create_post(self.path()@, r),
    {
        self.backend.create(self.path.as_str())
    }

    /// Attaches a process pid to the cgroup.
    pub fn attach_pid(&self, pid: i32) -> (r: Result<(), CgroupError>)
        ensures
            self.backend().attach_pid_post(self.path()@, pid, r),
    {
        self.backend.attach_pid(self.path.as_str(), pid)
    }

    /// Moves the processes back to the root and removes the cgroup.
    pub fn cleanup(&self) -> (r: Result<(), CgroupError>)
        ensures
            self.backend().cleanup_post(self.path()@, self.root()@, r),
    {
        self.backend.cleanup(self.path.as_str(), self.root.as_str())
    }
}

} // verus!

//! Reading `/proc`: the backend interface the source uses, and the backend
//! built on the readers of the process and system files.

use vstd::prelude::*;

use crate::cgroup::util::{entries_view, keyed_get, keyed_lookup};
use crate::procfs::counters::Counters;
use crate::procfs::error::{ProcErrorKind, ProcfsError};
use crate::procfs::snapshot::{GlobalSnapshot, ProcSnapshot};
use crate::procfs::utils::{ChildProcesses, collect_all_children, distinct};

verus! {

/// The backend the procfs source reads through.
///
/// Whether a process could be read is stated through a predicate that a
/// backend may define; one that does not define it claims nothing of the
/// outcome.
pub trait Backend {
    /// What `read_proc` may answer for `pid`.
    open spec fn read_proc_post(&self, pid: i32, r: Result<(), ProcfsError>) -> bool {
        true
    }

    /// Reads memory and I/O stats for a single pid and adds them into
    /// `snapshot`.
    fn read_proc(&self, pid: i32, snapshot: &mut ProcSnapshot) -> (r: Result<(), ProcfsError>)
        ensures
            self.read_proc_post(pid, r),
    ;

    /// Reads the current global system memory.
    fn measure_global(&self) -> Result<GlobalSnapshot, ProcfsError>;

    /// Collects the root pid and all its descendants.
    fn collect_children(&self, pid: i32) -> Vec<i32>;

    /// The total memory of the machine.
    fn mem_total(&self) -> Result<u64, ProcfsError>;
}

/// The system-wide memory figures of `/proc/meminfo`, in bytes.
#[derive(Debug, Clone, Copy)]
pub struct Meminfo {
    pub mem_total: u64,
    pub mem_available: Option<u64>,
    pub mem_free: u64,
    pub cached: u64,
    pub anon_pages: Option<u64>,
    pub swap_free: u64,
}

/// The per-process and system files of `/proc`, as the system reports them.
///
/// The per-process answers are stated through predicates that a reader may
/// define: what it may answer for a given pid. A reader that does not
/// define one claims nothing of those answers.
pub trait ProcReader {
    /// What `vsize` may answer for `pid`.
    open spec fn vsize_post(&self, pid: i32, r: Result<u64, ProcfsError>) -> bool {
        true
    }

    /// What `smaps_rollup` may answer for `pid`.
    open spec fn rollup_post(&self, pid: i32, r: Result<Option<Vec<(String, u64)>>, ProcfsError>) -> bool {
        true
    }

    /// What `io` may answer for `pid`.
    open spec fn io_post(&self, pid: i32, r: Result<(u64, u64), ProcfsError>) -> bool {
        true
    }

    /// The virtual memory size of a process (`stat`'s `vsize`).
    fn vsize(&self, pid: i32) -> (r: Result<u64, ProcfsError>)
        ensures
            self.vsize_post(pid, r),
    ;

    /// The entries of the first mapping of `smaps_rollup`, in bytes.
    fn smaps_rollup(&self, pid: i32) -> (r: Result<Option<Vec<(String, u64)>>, ProcfsError>)
        ensures
            self.rollup_post(pid, r),
    ;

    /// The characters read and written by a process (`io`'s `rchar`,
    /// `wchar`).
    fn io(&self, pid: i32) -> (r: Result<(u64, u64), ProcfsError>)
        ensures
            self.io_post(pid, r),
    ;

    /// The content of `/proc/meminfo`.
    fn meminfo(&self) -> Result<Meminfo, ProcfsError>;

    /// The children of the threads of a process that lead their own process.
    fn task_children(&self, pid: i32) -> Vec<i32>;
}

/// The value of `key` in a rollup, zero when absent.
pub open spec fn rollup_value(e: Seq<(Seq<char>, u64)>, key: Seq<char>) -> u64 {
    match keyed_lookup(e, key) {
        Some(v) => v,
        None => 0,
    }
}

fn rollup_get(e: &Vec<(String, u64)>, key: &str) -> (r: u64)
    ensures
        r == rollup_value(entries_view(e@), key@),
{
    match keyed_get(e, key) {
        Some(v) => v,
        None => 0,
    }
}

/// The backend built on the readers of `/proc`.
pub struct ProcfsBackend<R: ProcReader> {
    pub reader: R,
}

impl<R: ProcReader> ChildProcesses for ProcfsBackend<R> {
    fn children(&self, pid: i32) -> Vec<i32> {
        self.reader.task_children(pid)
    }
}

impl<R: ProcReader> ProcfsBackend<R> {
    /// Adds the memory figures of a rollup into a snapshot: `Rss`, `Pss`,
    /// `Anonymous`, and the clean plus dirty shared memory. The sums wrap
    /// around at `u64::MAX`.
    pub fn add_rollup(snapshot: &mut ProcSnapshot, rollup: &Vec<(String, u64)>)
        ensures
            ({
                let e = entries_view(rollup@);
                &&& final(snapshot).rss == old(snapshot).rss.wrapping_add(rollup_value(e, "Rss"@))
                &&& final(snapshot).pss == old(snapshot).pss.wrapping_add(rollup_value(e, "Pss"@))
                &&& final(snapshot).anon == old(snapshot).anon.wrapping_add(
                    rollup_value(e, "Anonymous"@),
                )
                &&& final(snapshot).shared == old(snapshot).shared.wrapping_add(
                    rollup_value(e, "Shared_Clean"@).wrapping_add(rollup_value(e, "Shared_Dirty"@)),
                )
                &&& final(snapshot).vm_size == old(snapshot).vm_size
                &&& final(snapshot).read_bytes == old(snapshot).read_bytes
                &&& final(snapshot).write_bytes == old(snapshot).write_bytes
            }),
    {
        snapshot.rss = snapshot.rss.wrapping_add(rollup_get(rollup, "Rss"));
        snapshot.pss = snapshot.pss.wrapping_add(rollup_get(rollup, "Pss"));
        snapshot.anon = snapshot.anon.wrapping_add(rollup_get(rollup, "Anonymous"));
        let shared = rollup_get(rollup, "Shared_Clean").wrapping_add(
            rollup_get(rollup, "Shared_Dirty"),
        );
        snapshot.shared = snapshot.shared.wrapping_add(shared);
    }
}

/// The rollup entries of a `smaps_rollup` answer.
pub open spec fn rollup_view(a: Option<Vec<(String, u64)>>) -> Option<Seq<(Seq<char>, u64)>> {
    match a {
        Some(v) => Some(entries_view(v@)),
        None => None,
    }
}

/// The readings of a process are what the reader answered for that pid:
/// its virtual memory size, its rollup, and its I/O counters, which are
/// missing only when reading them was denied.
pub open spec fn process_answered<R: ProcReader>(
    reader: R,
    pid: i32,
    vsize: u64,
    rollup: Option<Vec<(String, u64)>>,
    io: Option<(u64, u64)>,
) -> bool {
    &&& reader.vsize_post(pid, Ok::<u64, ProcfsError>(vsize))
    &&& reader.rollup_post(pid, Ok::<Option<Vec<(String, u64)>>, ProcfsError>(rollup))
    &&& match io {
        Some(x) => reader.io_post(pid, Ok::<(u64, u64), ProcfsError>(x)),
        None => exists|m: String|
            #![trigger reader.io_post(pid, Err::<(u64, u64), ProcfsError>(ProcfsError::Procfs { kind: ProcErrorKind::PermissionDenied, message: m }))]
            reader.io_post(
                pid,
                Err::<(u64, u64), ProcfsError>(
                    ProcfsError::Procfs { kind: ProcErrorKind::PermissionDenied, message: m },
                ),
            ),
    }
}

/// A snapshot with a process's virtual memory size added.
pub open spec fn vsize_added(s: ProcSnapshot, vsize: u64) -> ProcSnapshot {
    ProcSnapshot { vm_size: s.vm_size.wrapping_add(vsize), ..s }
}

/// A snapshot with the memory figures of a rollup added, when the process
/// has one.
pub open spec fn rollup_added(s: ProcSnapshot, rollup: Option<Seq<(Seq<char>, u64)>>) -> ProcSnapshot {
    match rollup {
        Some(e) => ProcSnapshot {
            rss: s.rss.wrapping_add(rollup_value(e, "Rss"@)),
            pss: s.pss.wrapping_add(rollup_value(e, "Pss"@)),
            anon: s.anon.wrapping_add(rollup_value(e, "Anonymous"@)),
            shared: s.shared.wrapping_add(
                rollup_value(e, "Shared_Clean"@).wrapping_add(rollup_value(e, "Shared_Dirty"@)),
            ),
            ..s
        },
        None => s,
    }
}

/// A snapshot with the characters read and written by a process added,
/// when they could be read.
pub open spec fn io_added(s: ProcSnapshot, io: Option<(u64, u64)>) -> ProcSnapshot {
    match io {
        Some((rchar, wchar)) => ProcSnapshot {
            read_bytes: s.read_bytes.wrapping_add(rchar),
            write_bytes: s.write_bytes.wrapping_add(wchar),
            ..s
        },
        None => s,
    }
}

/// A snapshot with a whole reading of a process added: its virtual memory
/// size, its rollup and its I/O counters.
pub open spec fn process_added(
    s: ProcSnapshot,
    vsize: u64,
    rollup: Option<Seq<(Seq<char>, u64)>>,
    io: Option<(u64, u64)>,
) -> ProcSnapshot {
    io_added(rollup_added(vsize_added(s, vsize), rollup), io)
}

impl<R: ProcReader> Backend for ProcfsBackend<R> {
    /// Reads memory and I/O stats for a single pid and adds them into
    /// `snapshot`; a denied read of the I/O counters is skipped, as the
    /// process may exit between the memory and the I/O reads. A failed read
    /// leaves in `snapshot` what the reads before it added.
    fn read_proc(&self, pid: i32, snapshot: &mut ProcSnapshot) -> (r: Result<(), ProcfsError>)
        ensures
            r is Ok ==> exists|v: u64, ro: Option<Seq<(Seq<char>, u64)>>, io: Option<(u64, u64)>|
                *final(snapshot) == #[trigger] process_added(*old(snapshot), v, ro, io),
            r is Err ==> *final(snapshot) == *old(snapshot) || exists|
                v: u64,
                ro: Option<Seq<(Seq<char>, u64)>>,
            |
                *final(snapshot) == #[trigger] rollup_added(vsize_added(*old(snapshot), v), ro),
            r is Ok ==> exists|
                v: u64,
                rollup: Option<Vec<(String, u64)>>,
                io: Option<(u64, u64)>,
            |
                #![trigger process_answered(self.reader, pid, v, rollup, io)]
                process_answered(self.reader, pid, v, rollup, io) && *final(snapshot)
                    == process_added(*old(snapshot), v, rollup_view(rollup), io),
    {
        let ghost s0 = *snapshot;
        let vsize = self.reader.vsize(pid)?;
        snapshot.vm_size = snapshot.vm_size.wrapping_add(vsize);
        let ghost ro: Option<Seq<(Seq<char>, u64)>> = None;
        proof {
            assert(*snapshot == rollup_added(vsize_added(s0, vsize), ro));
        }
        let answer = self.reader.smaps_rollup(pid)?;
        let ghost rollup_answer = answer;
        if let Some(rollup) = answer {
            Self::add_rollup(snapshot, &rollup);
            proof {
                ro = Some(entries_view(rollup@));
            }
        }
        proof {
            assert(ro == rollup_view(rollup_answer));
            assert(*snapshot == rollup_added(vsize_added(s0, vsize), ro));
        }
        let io_read = self.reader.io(pid);
        let ghost io_answer = io_read;
        match io_read {
            Ok((rchar, wchar)) => {
                snapshot.read_bytes = snapshot.read_bytes.wrapping_add(rchar);
                snapshot.write_bytes = snapshot.write_bytes.wrapping_add(wchar);
                proof {
                    assert(*snapshot == process_added(s0, vsize, ro, Some((rchar, wchar))));
                    assert(process_answered(self.reader, pid, vsize, rollup_answer, Some((rchar, wchar))));
                }
            },
            Err(ProcfsError::Procfs { kind: ProcErrorKind::PermissionDenied, message }) => {
                proof {
                    assert(*snapshot == process_added(s0, vsize, ro, None));
                    assert(io_answer == Err::<(u64, u64), ProcfsError>(
                        ProcfsError::Procfs { kind: ProcErrorKind::PermissionDenied, message },
                    ));
                    assert(process_answered(self.reader, pid, vsize, rollup_answer, None));
                }
            },
            Err(err) => {
                return Err(err);
            },
        }
        Ok(())
    }

    /// Reads system-wide memory statistics from `/proc/meminfo`.
    fn measure_global(&self) -> (r: Result<GlobalSnapshot, ProcfsError>) {
        let m = self.reader.meminfo()?;
        Ok(global_snapshot(&m))
    }

    /// Collects `pid` and all its descendants.
    fn collect_children(&self, pid: i32) -> (r: Vec<i32>)
        ensures
            r@.len() >= 1,
            r@[0] == pid,
            distinct(r@),
    {
        collect_all_children(self, pid)
    }

    fn mem_total(&self) -> (r: Result<u64, ProcfsError>) {
        let m = self.reader.meminfo()?;
        Ok(m.mem_total)
    }
}

/// The system snapshot of a `/proc/meminfo` reading.
pub fn global_snapshot(m: &Meminfo) -> (g: GlobalSnapshot)
    ensures
        g.mem_available == m.mem_available,
        g.mem_free == m.mem_free,
        g.cached == m.cached,
        g.anon == m.anon_pages,
        g.swap_free == m.swap_free,
{
    GlobalSnapshot {
        mem_available: m.mem_available,
        mem_free: m.mem_free,
        cached: m.cached,
        anon: m.anon_pages,
        swap_free: m.swap_free,
    }
}

proof fn lemma_increasing_ge_index(idx: Seq<int>, k: int)
    requires
        0 <= k < idx.len(),
        forall|i: int| 0 <= i < idx.len() ==> 0 <= #[trigger] idx[i],
        forall|a: int, b: int| 0 <= a < b < idx.len() ==> #[trigger] idx[a] < #[trigger] idx[b],
    ensures
        idx[k] >= k,
    decreases k,
{
    if k > 0 {
        lemma_increasing_ge_index(idx, k - 1);
        assert(idx[k - 1] < idx[k]);
    }
}

/// Whether a failed read of a process says that the process is gone.
pub open spec fn process_gone(e: ProcfsError) -> bool {
    e matches ProcfsError::Procfs { kind, .. } && (kind == ProcErrorKind::NotFound || kind
        == ProcErrorKind::Incomplete)
}

/// The pids whose read succeeded, in order, when the `k`-th pid's read
/// answered `answers[k]`.
pub open spec fn readable_pids(pids: Seq<i32>, answers: Seq<Result<(), ProcfsError>>) -> Seq<i32>
    decreases answers.len(),
{
    if answers.len() == 0 || pids.len() < answers.len() {
        seq![]
    } else {
        let p = readable_pids(pids, answers.drop_last());
        if answers.last() is Ok {
            p.push(pids[answers.len() - 1])
        } else {
            p
        }
    }
}

/// Reads every detected process and the system memory into `counters`.
///
/// Processes that are gone are dropped from `detected` (which keeps the
/// others in order); any other failure is returned, leaving `counters`
/// and `detected` as they were.
pub fn measure_and_update_pids<B: Backend>(
    backend: &B,
    counters: &mut Counters,
    detected: &mut Vec<i32>,
) -> (r: Result<(), ProcfsError>)
    ensures
        r is Err ==> *final(counters) == *old(counters) && final(detected)@ == old(detected)@,
        r is Ok ==> forall|i: int|
            0 <= i < final(detected)@.len() ==> old(detected)@.contains(
                #[trigger] final(detected)@[i],
            ),
        r is Ok ==> final(detected)@.len() <= old(detected)@.len(),
        r is Ok && distinct(old(detected)@) ==> distinct(final(detected)@),
        r is Ok ==> exists|p: ProcSnapshot, g: GlobalSnapshot|
            *final(counters) == #[trigger] old(counters).updated(p, g),
        r is Ok ==> exists|answers: Seq<Result<(), ProcfsError>>|
            #![trigger readable_pids(old(detected)@, answers)]
            {
                &&& answers.len() == old(detected)@.len()
                &&& forall|k: int| 0 <= k < answers.len() ==> backend.read_proc_post(
                    old(detected)@[k],
                    #[trigger] answers[k],
                )
                &&& forall|k: int| 0 <= k < answers.len() ==> (#[trigger] answers[k] matches Err(e)
                    ==> process_gone(e))
                &&& final(detected)@ == readable_pids(old(detected)@, answers)
            },
{
    let pids = detected.clone();
    let mut present: Vec<i32> = Vec::new();
    let mut snapshot = ProcSnapshot {
        vm_size: 0,
        rss: 0,
        pss: 0,
        shared: 0,
        anon: 0,
        read_bytes: 0,
        write_bytes: 0,
    };
    let mut pids_updated = false;
    let mut i: usize = 0;
    let ghost mut idx: Seq<int> = Seq::empty();
    let ghost mut answers: Seq<Result<(), ProcfsError>> = Seq::empty();
    while i < pids.len()
        invariant
            answers.len() == i,
            forall|k: int| 0 <= k < i ==> backend.read_proc_post(pids@[k], #[trigger] answers[k]),
            forall|k: int| 0 <= k < i ==> (#[trigger] answers[k] matches Err(e) ==> process_gone(e)),
            present@ == readable_pids(pids@, answers),
            pids_updated || present@ == pids@.take(i as int),
            0 <= i <= pids@.len(),
            pids@ == old(detected)@,
            *counters == *old(counters),
            *detected == *old(detected),
            idx.len() == present@.len(),
            forall|k: int| 0 <= k < idx.len() ==> 0 <= #[trigger] idx[k] < i,
            forall|k: int| 0 <= k < idx.len() ==> #[trigger] present@[k] == pids@[idx[k]],
            forall|a: int, b: int| 0 <= a < b < idx.len() ==> #[trigger] idx[a] < #[trigger] idx[b],
        decreases pids@.len() - i,
    {
        let pid = pids[i];
        let read = backend.read_proc(pid, &mut snapshot);
        let ghost prev = answers;
        proof {
            answers = answers.push(read);
            assert(answers.drop_last() =~= prev);
            assert(pids@.take(i + 1) =~= pids@.take(i as int).push(pid));
        }
        match read {
            Ok(()) => {
                present.push(pid);
                proof {
                    idx = idx.push(i as int);
                }
            },
            Err(e) => {
                let gone = match &e {
                    ProcfsError::Procfs { kind, .. } => *kind == ProcErrorKind::NotFound || *kind
                        == ProcErrorKind::Incomplete,
                    _ => false,
                };
                if gone {
                    pids_updated = true;
                    proof {
                        assert(process_gone(e));
                    }
                } else {
                    return Err(e);
                }
            },
        }
        i = i + 1;
    }
    let global = backend.measure_global()?;
    counters.update(&snapshot, &global);
    proof {
        assert(*counters == old(counters).updated(snapshot, global));
    }
    if pids_updated {
        *detected = present;
        proof {
            assert forall|k: int| 0 <= k < detected@.len() implies old(detected)@.contains(
                #[trigger] detected@[k],
            ) by {
                assert(old(detected)@[idx[k]] == detected@[k]);
            }
            if distinct(old(detected)@) {
                assert forall|a: int, b: int| 0 <= a < b < detected@.len() implies detected@[a]
                    != detected@[b] by {
                    assert(idx[a] < idx[b]);
                    assert(detected@[a] == pids@[idx[a]]);
                    assert(detected@[b] == pids@[idx[b]]);
                }
            }
            assert(idx.len() <= pids@.len()) by {
                if idx.len() > pids@.len() {
                    lemma_increasing_ge_index(idx, idx.len() - 1);
                }
            }
        }
    } else {
        proof {
            assert forall|k: int| 0 <= k < detected@.len() implies old(detected)@.contains(
                #[trigger] detected@[k],
            ) by {
                assert(old(detected)@[k] == detected@[k]);
            }
            assert(pids@.take(pids@.len() as int) =~= pids@);
        }
    }
    proof {
        assert(detected@ == readable_pids(old(detected)@, answers));
    }
    Ok(())
}

} // verus!

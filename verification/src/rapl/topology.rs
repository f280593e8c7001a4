//! The CPU topology the RAPL counters are read through: the online CPUs,
//! the sockets and their first CPU, and the domains each socket offers.

use vstd::prelude::*;

use crate::rapl::domain::{RaplDomain, domain_of_event, per_socket_domains};
use crate::rapl::error::RaplError;
use crate::text::{
    chars_of, copy_range, find_char, parse_u64, parse_u64_range, pieces, ranges_within,
    split_on, split_ranges, starts_with, string_of_range, trim, trim_range,
};

verus! {

/// What `str::parse::<u32>` gives.
pub open spec fn parse_u32(s: Seq<char>) -> Option<u32> {
    match parse_u64(s) {
        Some(v) => if v <= u32::MAX {
            Some(v as u32)
        } else {
            None
        },
        None => None,
    }
}

fn parse_u32_range(v: &Vec<char>, lo: usize, hi: usize) -> (r: Option<u32>)
    requires
        lo <= hi <= v@.len(),
    ensures
        r == parse_u32(v@.subrange(lo as int, hi as int)),
{
    match parse_u64_range(v, lo, hi) {
        Some(x) => if x <= 0xffff_ffffu64 {
            Some(x as u32)
        } else {
            None
        },
        None => None,
    }
}

/// The index of the first `c` in `s`, if any.
pub open spec fn first_index(s: Seq<char>, c: char) -> Option<int> {
    if exists|i: int| 0 <= i < s.len() && s[i] == c {
        Some(choose|i: int| 0 <= i < s.len() && s[i] == c && forall|j: int| 0 <= j < i ==> s[j] != c)
    } else {
        None
    }
}

/// The CPUs of one part of the list of online CPUs: none for an empty
/// part; `a-b` for the CPUs from `a` to `b`; otherwise a single CPU. Ok
/// holds the inclusive bounds; a part that does not parse gives whether it
/// was a range.
pub open spec fn cpu_part(p: Seq<char>) -> Result<Option<(u32, u32)>, bool> {
    if p.len() == 0 {
        Ok(None)
    } else {
        match first_index(p, '-') {
            Some(k) => match (parse_u32(p.subrange(0, k)), parse_u32(p.subrange(k + 1, p.len() as int))) {
                (Some(a), Some(b)) => Ok(Some((a, b))),
                _ => Err(true),
            },
            None => match parse_u32(p) {
                Some(a) => Ok(Some((a, a))),
                None => Err(false),
            },
        }
    }
}

/// The CPUs named by the parts, in order, or the first part that does not
/// parse (its index and whether it was a range).
pub open spec fn online_cpus(parts: Seq<Seq<char>>) -> Result<Set<u32>, (int, bool)>
    decreases parts.len(),
{
    if parts.len() == 0 {
        Ok(Set::empty())
    } else {
        match online_cpus(parts.drop_last()) {
            Err(e) => Err(e),
            Ok(s) => match cpu_part(parts.last()) {
                Err(r) => Err((parts.len() - 1, r)),
                Ok(None) => Ok(s),
                Ok(Some((a, b))) => Ok(s.union(Set::new(|c: u32| a <= c <= b))),
            },
        }
    }
}

/// Appending one element to a sequence adds it to its set.
pub proof fn lemma_push_to_set(s: Seq<u32>, x: u32)
    ensures
        s.push(x).to_set() == s.to_set().insert(x),
{
    let t = s.push(x);
    assert forall|y: u32| t.to_set().contains(y) <==> s.to_set().insert(x).contains(y) by {
        if y == x {
            assert(t[s.len() as int] == y);
        }
        if s.contains(y) {
            let j = choose|j: int| 0 <= j < s.len() && s[j] == y;
            assert(t[j] == y);
        }
        if t.contains(y) && y != x {
            let j = choose|j: int| 0 <= j < t.len() && t[j] == y;
            assert(j < s.len());
            assert(s[j] == y);
        }
    }
    assert(t.to_set() =~= s.to_set().insert(x));
}

/// Appends the CPUs from `s` to `e`.
fn push_range(cpus: &mut Vec<u32>, s: u32, e: u32)
    ensures
        final(cpus)@.to_set() == old(cpus)@.to_set().union(Set::new(|x: u32| s <= x <= e)),
{
    let ghost before = cpus@;
    let mut c: u64 = s as u64;
    if s > e {
        assert(Set::new(|x: u32| s <= x <= e) =~= Set::<u32>::empty());
        assert(before.to_set().union(Set::<u32>::empty()) =~= before.to_set());
        return;
    }
    assert(before.to_set().union(Set::new(|x: u32| s <= x < s)) =~= before.to_set());
    while c <= e as u64
        invariant
            s <= e,
            s <= c <= e as u64 + 1,
            cpus@.to_set() == before.to_set().union(Set::new(|x: u32| s <= x < c)),
        decreases e as u64 + 1 - c,
    {
        let ghost prev = cpus@;
        cpus.push(c as u32);
        proof {
            lemma_push_to_set(prev, c as u32);
            assert(before.to_set().union(Set::new(|x: u32| s <= x < c)).insert(c as u32)
                =~= before.to_set().union(Set::new(|x: u32| s <= x < c + 1)));
        }
        c = c + 1;
    }
    assert(Set::new(|x: u32| s <= x < c) =~= Set::new(|x: u32| s <= x <= e));
}

/// Adds the CPUs of the part `v[a..b]` of the list of online CPUs.
fn add_part(cpus: &mut Vec<u32>, v: &Vec<char>, a: usize, b: usize) -> (r: Result<(), RaplError>)
    requires
        a <= b <= v@.len(),
    ensures
        ({
            let p = v@.subrange(a as int, b as int);
            match cpu_part(p) {
                Ok(None) => r is Ok && final(cpus)@.to_set() == old(cpus)@.to_set(),
                Ok(Some((x, y))) => r is Ok && final(cpus)@.to_set() == old(cpus)@.to_set().union(
                    Set::new(|c: u32| x <= c <= y),
                ),
                Err(true) => r matches Err(RaplError::InvalidCpuRange(q)) && q@ == p,
                Err(false) => r matches Err(RaplError::InvalidCpuId(q)) && q@ == p,
            }
        }),
{
    let ghost p = v@.subrange(a as int, b as int);
    if a == b {
        return Ok(());
    }
    match find_char(v, a, b, '-') {
        Some(d) => {
            proof {
                assert(p[d - a] == '-');
                assert forall|j: int| 0 <= j < d - a implies p[j] != '-' by {
                    assert(p[j] == v@[a + j]);
                }
                let k = (d - a) as int;
                assert(exists|i: int| 0 <= i < p.len() && p[i] == '-');
                let c = choose|i: int| 0 <= i < p.len() && p[i] == '-' && forall|j: int|
                    0 <= j < i ==> p[j] != '-';
                assert(p[k] == '-' && forall|j: int| 0 <= j < k ==> p[j] != '-');
                if c < k {
                    assert(p[c] != '-');
                }
                if k < c {
                    assert(p[k] != '-');
                }
                assert(first_index(p, '-') == Some(k));
                assert(p.subrange(0, k) =~= v@.subrange(a as int, d as int));
                assert(p.subrange(k + 1, p.len() as int) =~= v@.subrange(d + 1, b as int));
            }
            let start = parse_u32_range(v, a, d);
            let end = parse_u32_range(v, d + 1, b);
            match (start, end) {
                (Some(s), Some(e)) => {
                    push_range(cpus, s, e);
                    Ok(())
                },
                _ => Err(RaplError::InvalidCpuRange(string_of_range(v, a, b))),
            }
        },
        None => {
            proof {
                assert forall|i: int| 0 <= i < p.len() implies p[i] != '-' by {
                    assert(p[i] == v@[a + i]);
                }
                assert(first_index(p, '-') is None);
            }
            match parse_u32_range(v, a, b) {
                Some(x) => {
                    let ghost prev = cpus@;
                    cpus.push(x);
                    proof {
                        lemma_push_to_set(prev, x);
                        assert(Set::new(|c: u32| x <= c <= x) =~= set![x]);
                        assert(prev.to_set().insert(x) =~= prev.to_set().union(set![x]));
                    }
                    Ok(())
                },
                None => Err(RaplError::InvalidCpuId(string_of_range(v, a, b))),
            }
        },
    }
}

/// Whether `r` is what the parts of a list of online CPUs give.
pub open spec fn online_outcome(parts: Seq<Seq<char>>, r: Result<Vec<u32>, RaplError>) -> bool {
    match online_cpus(parts) {
        Ok(s) => r matches Ok(v) && v@.to_set() == s,
        Err((k, true)) => r matches Err(RaplError::InvalidCpuRange(p)) && p@ == parts[k],
        Err((k, false)) => r matches Err(RaplError::InvalidCpuId(p)) && p@ == parts[k],
    }
}

fn parse_parts(v: &Vec<char>, ranges: &Vec<(usize, usize)>) -> (r: Result<Vec<u32>, RaplError>)
    requires
        ranges_within(ranges@, v@.len() as int),
    ensures
        online_outcome(pieces(v@, ranges@), r),
{
    let ghost parts = pieces(v@, ranges@);
    let mut cpus: Vec<u32> = Vec::new();
    let mut k: usize = 0;
    proof {
        assert(parts.take(0) =~= Seq::<Seq<char>>::empty());
        assert(cpus@.to_set() =~= Set::<u32>::empty());
    }
    while k < ranges.len()
        invariant
            k <= ranges@.len(),
            ranges_within(ranges@, v@.len() as int),
            parts == pieces(v@, ranges@),
            parts.len() == ranges@.len(),
            online_cpus(parts.take(k as int)) matches Ok(s) && cpus@.to_set() == s,
        decreases ranges@.len() - k,
    {
        let (a, b) = ranges[k];
        proof {
            assert(parts[k as int] == v@.subrange(a as int, b as int));
            lemma_online_step(parts, k as int);
        }
        match add_part(&mut cpus, v, a, b) {
            Ok(()) => {},
            Err(e) => {
                proof {
                    lemma_online_prefix_error(parts, (k + 1) as int);
                }
                return Err(e);
            },
        }
        k = k + 1;
    }
    proof {
        assert(parts.take(ranges@.len() as int) =~= parts);
    }
    Ok(cpus)
}

/// Parses the list of online CPUs: comma-separated
/// CPU ids and inclusive ranges `a-b`, around which blanks are ignored.
pub fn parse_online_cpus(content: &str) -> (r: Result<Vec<u32>, RaplError>)
    ensures
        online_outcome(split_on(trim(content@), ','), r),
{
    let all = chars_of(content);
    let (lo, hi) = trim_range(&all, 0, all.len());
    proof {
        assert(all@.subrange(0, all@.len() as int) =~= all@);
    }
    let v = copy_range(&all, lo, hi);
    let ranges = split_ranges(&v, ',');
    parse_parts(&v, &ranges)
}

/// One more part of the list of online CPUs.
proof fn lemma_online_step(parts: Seq<Seq<char>>, k: int)
    requires
        0 <= k < parts.len(),
    ensures
        online_cpus(parts.take(k + 1)) == match online_cpus(parts.take(k)) {
            Err(e) => Err(e),
            Ok(s) => match cpu_part(parts[k]) {
                Err(r) => Err((k, r)),
                Ok(None) => Ok(s),
                Ok(Some((a, b))) => Ok(s.union(Set::new(|c: u32| a <= c <= b))),
            },
        },
{
    assert(parts.take(k + 1).drop_last() =~= parts.take(k));
    assert(parts.take(k + 1).last() == parts[k]);
}

/// An error in a prefix of the parts is the error of all of them.
proof fn lemma_online_prefix_error(parts: Seq<Seq<char>>, n: int)
    requires
        0 <= n <= parts.len(),
        online_cpus(parts.take(n)) is Err,
    ensures
        online_cpus(parts) == online_cpus(parts.take(n)),
    decreases parts.len() - n,
{
    if n < parts.len() {
        assert(parts.take(n + 1).drop_last() =~= parts.take(n));
        lemma_online_prefix_error(parts, n + 1);
    } else {
        assert(parts.take(n) =~= parts);
    }
}

/// The socket of a CPU from the content of its `physical_package_id`
/// file: the trimmed text read as a `u32`.
pub fn socket_id_of(text: &str) -> (r: Option<u32>)
    ensures
        r == parse_u32(trim(text@)),
{
    let v = chars_of(text);
    let (x, y) = trim_range(&v, 0, v.len());
    proof {
        assert(v@.subrange(0, v@.len() as int) =~= v@);
    }
    parse_u32_range(&v, x, y)
}

/// The CPU id of an entry of the CPU directory: `cpu<id>`.
pub open spec fn cpu_entry_id(name: Seq<char>) -> Option<u32> {
    if name.len() >= 3 && name.subrange(0, 3) == "cpu"@ {
        parse_u32(name.subrange(3, name.len() as int))
    } else {
        None
    }
}

/// The CPU id of an entry of the CPU directory, if it names a CPU.
pub fn cpu_id_of_entry(name: &str) -> (r: Option<u32>)
    ensures
        r == cpu_entry_id(name@),
{
    let v = chars_of(name);
    let prefix = chars_of("cpu");
    if starts_with(&v, 0, v.len(), &prefix) {
        proof {
            reveal_strlit("cpu");
        }
        parse_u32_range(&v, 3, v.len())
    } else {
        proof {
            reveal_strlit("cpu");
            assert(v@.subrange(0, v@.len() as int) =~= v@);
        }
        None
    }
}

/// A socket and the CPU its counters are opened on.
#[derive(Debug, Clone, Copy, PartialEq, Eq, Structural)]
pub struct SocketLeader {
    pub id: u32,
    pub cpu: u32,
}

/// The smallest CPU of the socket `id` among the `(cpu, socket)` pairs.
pub open spec fn min_cpu(entries: Seq<(u32, u32)>, id: u32) -> Option<u32>
    decreases entries.len(),
{
    if entries.len() == 0 {
        None
    } else {
        let prev = min_cpu(entries.drop_last(), id);
        let (cpu, socket) = entries.last();
        if socket == id {
            match prev {
                Some(m) => Some(if cpu < m {
                    cpu
                } else {
                    m
                }),
                None => Some(cpu),
            }
        } else {
            prev
        }
    }
}

/// The sockets of the `(cpu, socket)` pairs of the online CPUs, ordered by
/// id, each with its smallest CPU.
pub fn sockets_of(entries: &Vec<(u32, u32)>) -> (r: Vec<SocketLeader>)
    ensures
        forall|i: int, j: int| 0 <= i < j < r@.len() ==> r@[i].id < r@[j].id,
        forall|i: int| 0 <= i < r@.len() ==> min_cpu(entries@, (#[trigger] r@[i]).id) == Some(r@[i].cpu),
        forall|id: u32| min_cpu(entries@, id) is Some ==> exists|i: int| 0 <= i < r@.len() && (#[trigger] r@[i]).id == id,
{
    let mut out: Vec<SocketLeader> = Vec::new();
    let mut k: usize = 0;
    while k < entries.len()
        invariant
            k <= entries@.len(),
            forall|i: int, j: int| 0 <= i < j < out@.len() ==> out@[i].id < out@[j].id,
            forall|i: int| 0 <= i < out@.len() ==> min_cpu(entries@.take(k as int), (#[trigger] out@[i]).id) == Some(out@[i].cpu),
            forall|id: u32| min_cpu(entries@.take(k as int), id) is Some ==> exists|i: int| 0 <= i < out@.len() && (#[trigger] out@[i]).id == id,
        decreases entries@.len() - k,
    {
        let (cpu, socket) = entries[k];
        let ghost pre = entries@.take(k as int);
        let ghost next = entries@.take(k + 1);
        proof {
            assert(next.drop_last() =~= pre);
            assert(next.last() == (cpu, socket));
        }
        let ghost old_out = out@;
        let mut pos: usize = 0;
        while pos < out.len() && out[pos].id < socket
            invariant
                pos <= out@.len(),
                out@ == old_out,
                forall|i: int| 0 <= i < pos ==> out@[i].id < socket,
            decreases out@.len() - pos,
        {
            pos = pos + 1;
        }
        if pos < out.len() && out[pos].id == socket {
            let old = out[pos];
            let m = if cpu < old.cpu {
                cpu
            } else {
                old.cpu
            };
            out.set(pos, SocketLeader { id: socket, cpu: m });
            proof {
                assert forall|i: int| 0 <= i < out@.len() implies min_cpu(next, (#[trigger] out@[i]).id) == Some(out@[i].cpu) by {
                    if i != pos {
                        assert(out@[i] == old_out[i]);
                        assert(old_out[i].id != socket) by {
                            if i < pos {
                            } else {
                                assert(old_out[pos as int].id < old_out[i].id);
                            }
                        }
                    }
                }
                assert forall|id: u32| min_cpu(next, id) is Some implies exists|i: int| 0 <= i < out@.len() && (#[trigger] out@[i]).id == id by {
                    if id == socket {
                        assert(out@[pos as int].id == id);
                    } else {
                        assert(min_cpu(next, id) == min_cpu(pre, id));
                        let i = choose|i: int| 0 <= i < old_out.len() && (#[trigger] old_out[i]).id == id;
                        assert(out@[i].id == id);
                    }
                }
            }
        } else {
            proof {
                assert forall|i: int| 0 <= i < old_out.len() implies (#[trigger] old_out[i]).id != socket by {
                    if i >= pos && pos < old_out.len() {
                        if i > pos {
                            assert(old_out[pos as int].id < old_out[i].id);
                        }
                    }
                }
                assert(min_cpu(pre, socket) is None) by {
                    if min_cpu(pre, socket) is Some {
                        let i = choose|i: int| 0 <= i < old_out.len() && (#[trigger] old_out[i]).id == socket;
                    }
                }
            }
            out.insert(pos, SocketLeader { id: socket, cpu });
            proof {
                assert forall|i: int, j: int| 0 <= i < j < out@.len() implies out@[i].id < out@[j].id by {
                    if i < pos && j > pos {
                        assert(out@[i] == old_out[i]);
                        assert(out@[j] == old_out[j - 1]);
                        if j - 1 >= pos {
                            if j - 1 > pos {
                                assert(old_out[pos as int].id < old_out[j - 1].id);
                            }
                        }
                    }
                    if i < pos && j == pos {
                        assert(out@[i] == old_out[i]);
                    }
                    if i == pos && j > pos {
                        assert(out@[j] == old_out[j - 1]);
                    }
                    if i > pos {
                        assert(out@[i] == old_out[i - 1]);
                        assert(out@[j] == old_out[j - 1]);
                    }
                    if j < pos {
                        assert(out@[i] == old_out[i]);
                        assert(out@[j] == old_out[j]);
                    }
                }
                assert forall|i: int| 0 <= i < out@.len() implies min_cpu(next, (#[trigger] out@[i]).id) == Some(out@[i].cpu) by {
                    if i < pos {
                        assert(out@[i] == old_out[i]);
                    } else if i > pos {
                        assert(out@[i] == old_out[i - 1]);
                    }
                }
                assert forall|id: u32| min_cpu(next, id) is Some implies exists|i: int| 0 <= i < out@.len() && (#[trigger] out@[i]).id == id by {
                    if id == socket {
                        assert(out@[pos as int].id == id);
                    } else {
                        assert(min_cpu(next, id) == min_cpu(pre, id));
                        let i = choose|i: int| 0 <= i < old_out.len() && (#[trigger] old_out[i]).id == id;
                        if i < pos {
                            assert(out@[i].id == id);
                        } else {
                            assert(out@[i + 1].id == id);
                        }
                    }
                }
            }
        }
        k = k + 1;
    }
    proof {
        assert(entries@.take(entries@.len() as int) =~= entries@);
    }
    out
}

/// The domains offered on a socket: the per-socket domains that are
/// available, in order, then the platform domain on socket 0 when it is
/// available.
pub open spec fn socket_domains(id: u32, available: Seq<RaplDomain>) -> Seq<RaplDomain> {
    per_socket_domains().filter(|d: RaplDomain| available.contains(d)) + (if id == 0
        && available.contains(RaplDomain::Psys) {
        seq![RaplDomain::Psys]
    } else {
        seq![]
    })
}

fn contains_domain(v: &Vec<RaplDomain>, d: RaplDomain) -> (b: bool)
    ensures
        b == v@.contains(d),
{
    let mut k: usize = 0;
    while k < v.len()
        invariant
            k <= v@.len(),
            forall|i: int| 0 <= i < k ==> v@[i] != d,
        decreases v@.len() - k,
    {
        if v[k] == d {
            return true;
        }
        k = k + 1;
    }
    false
}

/// The domains offered on the socket `id`.
pub fn domains_for_socket(id: u32, available: &Vec<RaplDomain>) -> (r: Vec<RaplDomain>)
    ensures
        r@ == socket_domains(id, available@),
{
    let all = vec![RaplDomain::Package, RaplDomain::Core, RaplDomain::Uncore, RaplDomain::Dram];
    assert(all@ == per_socket_domains());
    let mut out: Vec<RaplDomain> = Vec::new();
    let mut k: usize = 0;
    while k < all.len()
        invariant
            k <= all@.len(),
            all@ == per_socket_domains(),
            out@ == all@.take(k as int).filter(|d: RaplDomain| available@.contains(d)),
        decreases all@.len() - k,
    {
        proof {
            reveal(Seq::filter);
            assert(all@.take(k + 1).drop_last() =~= all@.take(k as int));
        }
        if contains_domain(available, all[k]) {
            out.push(all[k]);
        }
        k = k + 1;
    }
    proof {
        assert(all@.take(4) =~= all@);
    }
    if id == 0 && contains_domain(available, RaplDomain::Psys) {
        out.push(RaplDomain::Psys);
    }
    assert(out@ =~= socket_domains(id, available@));
    out
}

/// The domains named by the events of the power PMU, in order; events
/// with a `.` in their name (their unit and scale files) are skipped.
pub open spec fn event_domains(names: Seq<Seq<char>>) -> Seq<RaplDomain>
    decreases names.len(),
{
    if names.len() == 0 {
        seq![]
    } else {
        event_domains(names.drop_last()) + (if !names.last().contains('.') {
            match domain_of_event(names.last()) {
                Some(d) => seq![d],
                None => seq![],
            }
        } else {
            seq![]
        })
    }
}

/// The domains named by the events of the power PMU.
pub fn available_domains(names: &Vec<String>) -> (r: Vec<RaplDomain>)
    ensures
        r@ == event_domains(names@.map_values(|s: String| s@)),
{
    let ghost view = names@.map_values(|s: String| s@);
    let mut out: Vec<RaplDomain> = Vec::new();
    let mut k: usize = 0;
    while k < names.len()
        invariant
            k <= names@.len(),
            view == names@.map_values(|s: String| s@),
            out@ == event_domains(view.take(k as int)),
        decreases names@.len() - k,
    {
        proof {
            assert(view.take(k + 1).drop_last() =~= view.take(k as int));
            assert(view.take(k + 1).last() == names@[k as int]@);
        }
        let v = chars_of(names[k].as_str());
        let dot = find_char(&v, 0, v.len(), '.');
        proof {
            if dot is Some {
                assert(v@.contains('.'));
            } else {
                assert(!v@.contains('.'));
            }
        }
        if dot.is_none() {
            if let Some(d) = RaplDomain::from_perf_event(names[k].as_str()) {
                out.push(d);
            }
        }
        k = k + 1;
    }
    proof {
        assert(view.take(names@.len() as int) =~= view);
    }
    out
}

} // verus!

//! Discovery of a process tree.

use vstd::prelude::*;

verus! {

/// The children of a process, as the system lists them.
///
/// The answers are stated through a predicate that a lister may define; one
/// that does not define it claims nothing of its answers.
pub trait ChildProcesses {
    /// What `children` may answer for `pid`.
    open spec fn children_post(&self, pid: i32, r: Seq<i32>) -> bool {
        true
    }

    /// The pids of the processes (not threads) that `pid` spawned.
    fn children(&self, pid: i32) -> (r: Vec<i32>)
        ensures
            self.children_post(pid, r@),
    ;
}

/// Whether `s` holds no value twice.
pub open spec fn distinct(s: Seq<i32>) -> bool {
    forall|i: int, j: int| 0 <= i < j < s.len() ==> s[i] != s[j]
}

proof fn lemma_distinct_len(s: Seq<i32>)
    requires
        distinct(s),
    ensures
        s.len() <= 0x1_0000_0000,
{
    let ints = s.map_values(|x: i32| x as int);
    let set = ints.to_set();
    assert(ints.no_duplicates()) by {
        assert forall|i: int, j: int| 0 <= i < ints.len() && 0 <= j < ints.len() && i != j implies ints[i]
            != ints[j] by {
            if i < j {
                assert(s[i] != s[j]);
            } else {
                assert(s[j] != s[i]);
            }
        }
    }
    ints.unique_seq_to_set();
    let range = vstd::set_lib::set_int_range(-0x8000_0000, 0x8000_0000);
    vstd::set_lib::lemma_int_range(-0x8000_0000, 0x8000_0000);
    assert(set.subset_of(range)) by {
        assert forall|x: int| set.contains(x) implies range.contains(x) by {
            let i = choose|i: int| 0 <= i < ints.len() && ints[i] == x;
            assert(ints[i] == s[i] as int);
        }
    }
    vstd::set_lib::lemma_len_subset(set, range);
}

/// Whether `x` is among `v`.
fn contains_pid(v: &Vec<i32>, x: i32) -> (b: bool)
    ensures
        b == v@.contains(x),
{
    let mut i: usize = 0;
    while i < v.len()
        invariant
            0 <= i <= v@.len(),
            forall|j: int| 0 <= j < i ==> v@[j] != x,
        decreases v@.len() - i,
    {
        if v[i] == x {
            return true;
        }
        i = i + 1;
    }
    false
}

/// `pids` followed by the pids of `children` that it does not hold yet, in
/// order, each once.
pub open spec fn add_children(pids: Seq<i32>, children: Seq<i32>) -> Seq<i32>
    decreases children.len(),
{
    if children.len() == 0 {
        pids
    } else {
        let p = add_children(pids, children.drop_last());
        if p.contains(children.last()) {
            p
        } else {
            p.push(children.last())
        }
    }
}

/// The pids found from `root` breadth first, when the `k`-th pid found had
/// `answers[k]` as its children.
pub open spec fn breadth_first(root: i32, answers: Seq<Seq<i32>>) -> Seq<i32>
    decreases answers.len(),
{
    if answers.len() == 0 {
        seq![root]
    } else {
        add_children(breadth_first(root, answers.drop_last()), answers.last())
    }
}

/// Adding children keeps the pids in place, adds only children, holds every
/// child, and adds none twice.
pub proof fn lemma_add_children(pids: Seq<i32>, children: Seq<i32>)
    ensures
        ({
            let r = add_children(pids, children);
            &&& r.len() >= pids.len()
            &&& forall|i: int| 0 <= i < pids.len() ==> #[trigger] r[i] == pids[i]
            &&& forall|i: int| pids.len() <= i < r.len() ==> children.contains(#[trigger] r[i])
            &&& forall|x: i32| #[trigger] children.contains(x) ==> r.contains(x)
            &&& distinct(pids) ==> distinct(r)
        }),
    decreases children.len(),
{
    if children.len() > 0 {
        let c = children.drop_last();
        lemma_add_children(pids, c);
        let p = add_children(pids, c);
        let r = add_children(pids, children);
        assert forall|i: int| pids.len() <= i < r.len() implies children.contains(#[trigger] r[i]) by {
            if i < p.len() {
                assert(c.contains(p[i]));
                let j = choose|j: int| 0 <= j < c.len() && c[j] == p[i];
                assert(children[j] == c[j]);
            } else {
                assert(children[children.len() - 1] == children.last());
            }
        }
        assert forall|x: i32| #[trigger] children.contains(x) implies r.contains(x) by {
            let j = choose|j: int| 0 <= j < children.len() && children[j] == x;
            if j < c.len() {
                assert(c[j] == x);
                assert(c.contains(x));
                let m = choose|m: int| 0 <= m < p.len() && p[m] == x;
                assert(r[m] == x);
            } else {
                if !p.contains(x) {
                    assert(r[p.len() as int] == x);
                }
            }
        }
    }
}

/// Every pid listed breadth first is listed once, and every child that a
/// listed pid had is listed too: the list is closed under the answers.
pub proof fn lemma_breadth_first_closed(root: i32, answers: Seq<Seq<i32>>)
    ensures
        ({
            let r = breadth_first(root, answers);
            &&& r.len() >= 1
            &&& r[0] == root
            &&& distinct(r)
            &&& forall|k: int, x: i32|
                0 <= k < answers.len() && #[trigger] answers[k].contains(x) ==> r.contains(x)
        }),
    decreases answers.len(),
{
    if answers.len() > 0 {
        let a = answers.drop_last();
        lemma_breadth_first_closed(root, a);
        let p = breadth_first(root, a);
        lemma_add_children(p, answers.last());
        let r = breadth_first(root, answers);
        assert forall|k: int, x: i32|
            0 <= k < answers.len() && #[trigger] answers[k].contains(x) implies r.contains(x) by {
            if k < a.len() {
                assert(a[k] == answers[k]);
                assert(p.contains(x));
                let m = choose|m: int| 0 <= m < p.len() && p[m] == x;
                assert(r[m] == x);
            } else {
                assert(answers[k] == answers.last());
            }
        }
    } else {
        assert(distinct(seq![root]));
    }
}

/// Adds to `pids` the pids of `children` that it does not hold yet, in
/// order, each once.
pub fn add_new_children(pids: &mut Vec<i32>, children: &Vec<i32>)
    ensures
        final(pids)@ == add_children(old(pids)@, children@),
{
    let mut k: usize = 0;
    while k < children.len()
        invariant
            0 <= k <= children@.len(),
            pids@ == add_children(old(pids)@, children@.take(k as int)),
        decreases children@.len() - k,
    {
        let c = children[k];
        proof {
            assert(children@.take(k + 1).drop_last() =~= children@.take(k as int));
            assert(children@.take(k + 1).last() == c);
        }
        if !contains_pid(pids, c) {
            pids.push(c);
        }
        k = k + 1;
    }
    proof {
        assert(children@.take(children@.len() as int) =~= children@);
    }
}

/// Collects `root_pid` and all its descendants, breadth first: the root
/// comes first, every pid once, each one after its parent. The `k`-th pid
/// listed is asked for its children `answers[k]`, and the list is the one
/// those answers give, closed under them.
pub fn collect_all_children<T: ChildProcesses>(tree: &T, root_pid: i32) -> (pids: Vec<i32>)
    ensures
        pids@.len() >= 1,
        pids@[0] == root_pid,
        distinct(pids@),
        exists|answers: Seq<Seq<i32>>|
            #![trigger breadth_first(root_pid, answers)]
            answers.len() == pids@.len() && pids@ == breadth_first(root_pid, answers) && forall|k: int|
                0 <= k < answers.len() ==> tree.children_post(pids@[k], #[trigger] answers[k]),
{
    let mut pids: Vec<i32> = vec![root_pid];
    let ghost mut answers: Seq<Seq<i32>> = Seq::empty();
    let mut next: usize = 0;
    proof {
        assert(pids@ =~= breadth_first(root_pid, answers));
    }
    while next < pids.len()
        invariant
            0 <= next <= pids@.len(),
            answers.len() == next,
            pids@ == breadth_first(root_pid, answers),
            forall|k: int| 0 <= k < next ==> tree.children_post(pids@[k], #[trigger] answers[k]),
        decreases 0x1_0000_0000 - pids@.len(), pids@.len() - next,
    {
        let children = tree.children(pids[next]);
        let ghost before = pids@;
        add_new_children(&mut pids, &children);
        proof {
            lemma_add_children(before, children@);
            let prev = answers;
            answers = answers.push(children@);
            assert(answers.drop_last() =~= prev);
            assert(pids@ == breadth_first(root_pid, answers));
            assert forall|k: int| 0 <= k < next + 1 implies tree.children_post(
                pids@[k],
                #[trigger] answers[k],
            ) by {
                assert(pids@[k] == before[k]);
                if k < next {
                    assert(answers[k] == prev[k]);
                }
            }
            lemma_breadth_first_closed(root_pid, answers);
            lemma_distinct_len(pids@);
        }
        next = next + 1;
    }
    proof {
        lemma_breadth_first_closed(root_pid, answers);
    }
    pids
}

} // verus!

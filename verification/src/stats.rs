//! Minimum and maximum of a sequence of readings, the model of every
//! min/max accumulator of the sources.

use vstd::prelude::*;

verus! {

/// The smaller of two integers.
pub open spec fn min2(a: int, b: int) -> int {
    if a <= b {
        a
    } else {
        b
    }
}

/// The larger of two integers.
pub open spec fn max2(a: int, b: int) -> int {
    if a >= b {
        a
    } else {
        b
    }
}

/// The smallest element of a non-empty sequence.
pub open spec fn seq_min(s: Seq<int>) -> int
    recommends
        s.len() > 0,
    decreases s.len(),
{
    if s.len() <= 1 {
        s[0]
    } else {
        min2(seq_min(s.drop_last()), s.last())
    }
}

/// The largest element of a non-empty sequence.
pub open spec fn seq_max(s: Seq<int>) -> int
    recommends
        s.len() > 0,
    decreases s.len(),
{
    if s.len() <= 1 {
        s[0]
    } else {
        max2(seq_max(s.drop_last()), s.last())
    }
}

/// A running minimum after one more reading.
pub open spec fn min_after(m: Option<int>, v: int) -> Option<int> {
    match m {
        Some(x) => Some(min2(x, v)),
        None => Some(v),
    }
}

/// A running maximum after one more reading.
pub open spec fn max_after(m: Option<int>, v: int) -> Option<int> {
    match m {
        Some(x) => Some(max2(x, v)),
        None => Some(v),
    }
}

/// A running minimum after a sequence of readings.
pub open spec fn min_fold(m: Option<int>, s: Seq<int>) -> Option<int>
    decreases s.len(),
{
    if s.len() == 0 {
        m
    } else {
        min_after(min_fold(m, s.drop_last()), s.last())
    }
}

/// A running maximum after a sequence of readings.
pub open spec fn max_fold(m: Option<int>, s: Seq<int>) -> Option<int>
    decreases s.len(),
{
    if s.len() == 0 {
        m
    } else {
        max_after(max_fold(m, s.drop_last()), s.last())
    }
}

/// Started empty, a running minimum and maximum hold the smallest and the
/// largest reading, and every reading lies between them.
pub proof fn lemma_fold_from_empty(s: Seq<int>)
    requires
        s.len() > 0,
    ensures
        min_fold(None, s) == Some(seq_min(s)),
        max_fold(None, s) == Some(seq_max(s)),
        forall|i: int| 0 <= i < s.len() ==> seq_min(s) <= #[trigger] s[i] <= seq_max(s),
    decreases s.len(),
{
    if s.len() == 1 {
        assert(s.drop_last() =~= Seq::<int>::empty());
    } else {
        lemma_fold_from_empty(s.drop_last());
        assert forall|i: int| 0 <= i < s.len() implies seq_min(s) <= #[trigger] s[i] <= seq_max(
            s,
        ) by {
            if i < s.len() - 1 {
                assert(s.drop_last()[i] == s[i]);
            }
        }
    }
}

} // verus!

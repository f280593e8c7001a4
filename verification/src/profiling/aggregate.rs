//! Aggregation of the per-phase results of several metric sources.

use vstd::prelude::*;

use crate::types::Metric;

verus! {

/// A metric seen whole: source, name, value, unit and timestamp.
pub open spec fn full_view(m: Metric) -> (
    Seq<char>,
    Seq<char>,
    crate::types::MetricValue,
    crate::types::MetricUnit,
    u128,
) {
    (m.source@, m.name@, m.value, m.unit, m.timestamp)
}

/// What a metric is seen as in results.
pub type MetricView = (Seq<char>, Seq<char>, crate::types::MetricValue, crate::types::MetricUnit, u128);

/// The metrics that one or more sources gathered during one phase.
#[derive(Debug)]
pub struct SensorPhase {
    pub metrics: Vec<Metric>,
}

/// The metrics of a phase, seen whole.
pub open spec fn phase_view(p: SensorPhase) -> Seq<MetricView> {
    p.metrics@.map_values(|m: Metric| full_view(m))
}

/// Aggregated results of sensors: one entry per phase.
#[derive(Debug)]
pub struct SensorResult {
    pub phases: Vec<SensorPhase>,
}

/// The phases of a result, each seen as its metrics.
pub open spec fn result_view(r: SensorResult) -> Seq<Seq<MetricView>> {
    r.phases@.map_values(|p: SensorPhase| phase_view(p))
}

/// The results of several sources.
pub open spec fn results_view(rs: Seq<SensorResult>) -> Seq<Seq<Seq<MetricView>>> {
    rs.map_values(|r: SensorResult| result_view(r))
}

/// Errors of the aggregation and orchestration of the sources.
#[derive(Debug)]
pub enum OrchestratorError {
    /// No metric source is configured.
    NoSourceConfigured,
    /// A source task could not be joined, with the reason.
    JoinError(String),
    /// An event could not be sent to a source, with the reason.
    SendError(String),
    /// A source could not be initialized, with the reason.
    InitializationError(String),
    /// Two results do not have the same number of phases.
    PhaseMismatch { lhs: usize, rhs: usize },
    /// Every source produced zero phases.
    AllSourcesEmpty,
    /// There was no result to merge.
    NoSensorResults,
    /// A metric source failed, with its message.
    MetricSourceError(String),
}

/// Phase by phase, the metrics of `a` followed by those of `b`.
pub open spec fn zip_concat(a: Seq<Seq<MetricView>>, b: Seq<Seq<MetricView>>) -> Seq<
    Seq<MetricView>,
> {
    Seq::new(a.len(), |i: int| a[i] + b[i])
}

/// The results that have at least one phase, in order.
pub open spec fn non_empty(rs: Seq<Seq<Seq<MetricView>>>) -> Seq<Seq<Seq<MetricView>>> {
    rs.filter(|r: Seq<Seq<MetricView>>| r.len() > 0)
}

/// Folds results with [`zip_concat`] from the first, failing with the two
/// phase counts at the first result whose count differs from the first's.
pub open spec fn fold_results(rs: Seq<Seq<Seq<MetricView>>>) -> Result<
    Seq<Seq<MetricView>>,
    (nat, nat),
>
    recommends
        rs.len() > 0,
    decreases rs.len(),
{
    if rs.len() <= 1 {
        Ok(rs[0])
    } else {
        match fold_results(rs.drop_last()) {
            Ok(acc) => if acc.len() == rs.last().len() {
                Ok(zip_concat(acc, rs.last()))
            } else {
                Err((acc.len(), rs.last().len()))
            },
            Err(e) => Err(e),
        }
    }
}

impl SensorResult {
    /// Combines two results phase by phase: each
    /// phase holds the metrics of `self` then those of `rhs`. Results with
    /// different numbers of phases cannot be combined.
    pub fn try_add(self, rhs: Self) -> (r: Result<Self, OrchestratorError>)
        ensures
            self.phases@.len() != rhs.phases@.len() <==> r is Err,
            r matches Err(e) ==> e == (OrchestratorError::PhaseMismatch {
                lhs: self.phases@.len() as usize,
                rhs: rhs.phases@.len() as usize,
            }),
            r matches Ok(s) ==> result_view(s) == zip_concat(result_view(self), result_view(rhs)),
    {
        let lhs_len = self.phases.len();
        let rhs_len = rhs.phases.len();
        if lhs_len != rhs_len {
            return Err(OrchestratorError::PhaseMismatch { lhs: lhs_len, rhs: rhs_len });
        }
        let ghost a = result_view(self);
        let ghost b = result_view(rhs);
        let mut left = self.phases;
        let mut right = rhs.phases;
        let mut phases: Vec<SensorPhase> = Vec::new();
        let mut k: usize = 0;
        while k < lhs_len
            invariant
                k <= lhs_len,
                left@.len() == lhs_len,
                right@.len() == lhs_len,
                a.len() == lhs_len,
                b.len() == lhs_len,
                forall|i: int| k <= i < lhs_len ==> phase_view(#[trigger] left@[i]) == a[i],
                forall|i: int| k <= i < lhs_len ==> phase_view(#[trigger] right@[i]) == b[i],
                phases@.len() == k,
                forall|i: int| 0 <= i < k ==> phase_view(#[trigger] phases@[i]) == a[i] + b[i],
            decreases lhs_len - k,
        {
            let mut l = SensorPhase { metrics: Vec::new() };
            left.set_and_swap(k, &mut l);
            let mut r = SensorPhase { metrics: Vec::new() };
            right.set_and_swap(k, &mut r);
            let ghost lv = l.metrics@;
            let ghost rv = r.metrics@;
            let mut metrics = l.metrics;
            let mut more = r.metrics;
            metrics.append(&mut more);
            proof {
                assert(metrics@ == lv + rv);
                assert(phase_view(SensorPhase { metrics }) =~= a[k as int] + b[k as int]);
            }
            phases.push(SensorPhase { metrics });
            k = k + 1;
        }
        let out = SensorResult { phases };
        assert(result_view(out) =~= zip_concat(a, b));
        Ok(out)
    }

    /// Merges the results of several sources into one.
    ///
    /// Fails when there is no result, and when every result has zero
    /// phases; results with zero phases are skipped; the others are combined
    /// in order with [`SensorResult::try_add`], which fails on the first
    /// result whose number of phases differs from the first's.
    pub fn merge(results: Vec<Self>) -> (r: Result<SensorResult, OrchestratorError>)
        ensures
            results@.len() == 0 <==> r matches Err(OrchestratorError::NoSensorResults),
            results@.len() > 0 && non_empty(results_view(results@)).len() == 0 <==> r matches Err(
                OrchestratorError::AllSourcesEmpty,
            ),
            non_empty(results_view(results@)).len() > 0 ==> match fold_results(
                non_empty(results_view(results@)),
            ) {
                Ok(v) => r matches Ok(s) && result_view(s) == v,
                Err((a, b)) => r matches Err(e) && e == (OrchestratorError::PhaseMismatch {
                    lhs: a as usize,
                    rhs: b as usize,
                }),
            },
    {
        if results.len() == 0 {
            return Err(OrchestratorError::NoSensorResults);
        }
        let ghost all = results_view(results@);
        let mut results = results;
        let n = results.len();
        let mut acc: Option<SensorResult> = None;
        let mut failed: Option<OrchestratorError> = None;
        let mut k: usize = 0;
        while k < n
            invariant
                k <= n,
                results@.len() == n,
                all.len() == n,
                forall|i: int| k <= i < n ==> result_view(#[trigger] results@[i]) == all[i],
                acc is None ==> non_empty(all.subrange(0, k as int)).len() == 0,
                acc is Some ==> non_empty(all.subrange(0, k as int)).len() > 0,
                failed is None ==> (acc matches Some(s) ==> fold_results(
                    non_empty(all.subrange(0, k as int)),
                ) == Ok::<Seq<Seq<MetricView>>, (nat, nat)>(result_view(s))),
                failed matches Some(e) ==> acc is Some && (fold_results(
                    non_empty(all.subrange(0, k as int)),
                ) matches Err((x, y)) && e == (OrchestratorError::PhaseMismatch {
                    lhs: x as usize,
                    rhs: y as usize,
                })),
            decreases n - k,
        {
            let mut next = SensorResult { phases: Vec::new() };
            results.set_and_swap(k, &mut next);
            let ghost nv = result_view(next);
            proof {
                let pre = all.subrange(0, k as int);
                assert(all.subrange(0, k + 1) =~= pre.push(nv));
                lemma_non_empty_push(pre, nv);
            }
            proof {
                let ne = non_empty(all.subrange(0, k as int));
                lemma_fold_push(ne, nv);
            }
            if next.phases.len() > 0 {
                if failed.is_none() {
                    match acc {
                        None => {
                            acc = Some(next);
                        },
                        Some(a) => {
                            let ghost av = result_view(a);
                            let la = a.phases.len();
                            let lb = next.phases.len();
                            match a.try_add(next) {
                                Ok(s) => {
                                    acc = Some(s);
                                },
                                Err(e) => {
                                    failed = Some(e);
                                    acc = Some(SensorResult { phases: Vec::new() });
                                },
                            }
                        },
                    }
                }
            }
            k = k + 1;
        }
        proof {
            assert(all.subrange(0, n as int) =~= all);
        }
        match failed {
            Some(e) => Err(e),
            None => match acc {
                Some(s) => Ok(s),
                None => Err(OrchestratorError::AllSourcesEmpty),
            },
        }
    }
}

/// Folding one more result.
pub proof fn lemma_fold_push(rs: Seq<Seq<Seq<MetricView>>>, r: Seq<Seq<MetricView>>)
    ensures
        rs.len() == 0 ==> fold_results(rs.push(r)) == Ok::<Seq<Seq<MetricView>>, (nat, nat)>(r),
        rs.len() > 0 ==> fold_results(rs.push(r)) == match fold_results(rs) {
            Ok(acc) => if acc.len() == r.len() {
                Ok(zip_concat(acc, r))
            } else {
                Err((acc.len(), r.len()))
            },
            Err(e) => Err(e),
        },
{
    assert(rs.push(r).drop_last() =~= rs);
    assert(rs.push(r).last() == r);
    if rs.len() == 0 {
        assert(rs.push(r)[0] == r);
    }
}

/// Keeping the results with phases commutes with appending one result.
pub proof fn lemma_non_empty_push(rs: Seq<Seq<Seq<MetricView>>>, r: Seq<Seq<MetricView>>)
    ensures
        non_empty(rs.push(r)) == (if r.len() > 0 {
            non_empty(rs).push(r)
        } else {
            non_empty(rs)
        }),
{
    reveal(Seq::filter);
    assert(rs.push(r).drop_last() =~= rs);
}

/// Merging keeps the phases aligned: when the results of the sources can
/// be merged, the merged result has as many phases as each of them, and
/// each merged phase starts with that phase of the first source.
pub proof fn law_merge_keeps_phase_count(rs: Seq<Seq<Seq<MetricView>>>)
    requires
        rs.len() > 0,
        fold_results(rs) is Ok,
    ensures
        forall|i: int| 0 <= i < rs.len() ==> (#[trigger] rs[i]).len() == fold_results(rs)->Ok_0.len(),
        forall|p: int|
            0 <= p < rs[0].len() ==> rs[0][p].len() <= (#[trigger] fold_results(rs)->Ok_0[p]).len()
                && fold_results(rs)->Ok_0[p].subrange(0, rs[0][p].len() as int) == rs[0][p],
    decreases rs.len(),
{
    if rs.len() > 1 {
        let pre = rs.drop_last();
        law_merge_keeps_phase_count(pre);
        let acc = fold_results(pre)->Ok_0;
        assert(pre[0] == rs[0]);
        assert forall|i: int| 0 <= i < rs.len() implies (#[trigger] rs[i]).len() == fold_results(
            rs,
        )->Ok_0.len() by {
            if i < rs.len() - 1 {
                assert(rs[i] == pre[i]);
            }
        }
        assert forall|p: int| 0 <= p < rs[0].len() implies rs[0][p].len() <= (#[trigger] fold_results(
            rs,
        )->Ok_0[p]).len() && fold_results(rs)->Ok_0[p].subrange(0, rs[0][p].len() as int)
            == rs[0][p] by {
            let whole = acc[p] + rs.last()[p];
            assert(fold_results(rs)->Ok_0[p] == whole);
            assert(whole.subrange(0, rs[0][p].len() as int) =~= acc[p].subrange(
                0,
                rs[0][p].len() as int,
            ));
        }
    } else {
        assert forall|p: int| 0 <= p < rs[0].len() implies rs[0][p].len() <= (#[trigger] fold_results(
            rs,
        )->Ok_0[p]).len() && fold_results(rs)->Ok_0[p].subrange(0, rs[0][p].len() as int)
            == rs[0][p] by {
            assert(rs[0][p].subrange(0, rs[0][p].len() as int) =~= rs[0][p]);
        }
    }
}

/// The metrics of phase `p` of each result, one result after the other.
pub open spec fn phase_metrics(rs: Seq<Seq<Seq<MetricView>>>, p: int) -> Seq<MetricView>
    decreases rs.len(),
{
    if rs.len() == 0 {
        seq![]
    } else {
        phase_metrics(rs.drop_last(), p) + rs.last()[p]
    }
}

/// Merging concatenates: when the results of the sources can be merged,
/// each merged phase holds the metrics of that phase of every source, in
/// the order of the sources.
pub proof fn law_merge_concatenates(rs: Seq<Seq<Seq<MetricView>>>)
    requires
        rs.len() > 0,
        fold_results(rs) is Ok,
    ensures
        forall|p: int| 0 <= p < rs[0].len() ==> (#[trigger] fold_results(rs)->Ok_0[p]) == phase_metrics(rs, p),
    decreases rs.len(),
{
    if rs.len() > 1 {
        let pre = rs.drop_last();
        law_merge_concatenates(pre);
        law_merge_keeps_phase_count(rs);
        law_merge_keeps_phase_count(pre);
        assert(pre[0] == rs[0]);
        let acc = fold_results(pre)->Ok_0;
        assert forall|p: int| 0 <= p < rs[0].len() implies (#[trigger] fold_results(rs)->Ok_0[p])
            == phase_metrics(rs, p) by {
            assert(fold_results(rs)->Ok_0[p] == acc[p] + rs.last()[p]);
            assert(acc[p] == phase_metrics(pre, p));
        }
    } else {
        assert forall|p: int| 0 <= p < rs[0].len() implies (#[trigger] fold_results(rs)->Ok_0[p])
            == phase_metrics(rs, p) by {
            assert(rs.drop_last().len() == 0);
            assert(phase_metrics(rs.drop_last(), p) == Seq::<MetricView>::empty());
            assert(rs.last() == rs[0]);
            assert(phase_metrics(rs, p) == Seq::<MetricView>::empty() + rs[0][p]);
            assert(Seq::<MetricView>::empty() + rs[0][p] =~= rs[0][p]);
        }
    }
}

} // verus!

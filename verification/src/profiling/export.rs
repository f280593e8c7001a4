//! Pairing the bounds of each phase with the metrics of every source before
//! a phase is exported.
//!
//! Metrics and phase bounds arrive in any order. A phase is exported once
//! all the sources have sent their metrics for it and its bounds are known.

use vstd::prelude::*;

use std::collections::HashMap;

use crate::profiling::aggregate::{MetricView, full_view};
use crate::types::{Metric, Phase, PhaseInfo};

verus! {

/// The metrics of a phase gathered so far, and how many sources sent them.
pub type PendingMetrics = (Vec<Metric>, usize);

/// Metrics seen whole.
pub open spec fn metrics_full(s: Seq<Metric>) -> Seq<MetricView> {
    s.map_values(|m: Metric| full_view(m))
}

/// The pending metrics of each phase, seen whole, with their batch count.
pub open spec fn pending_view(m: Map<usize, PendingMetrics>) -> Map<usize, (Seq<MetricView>, usize)> {
    m.map_values(|v: PendingMetrics| (metrics_full(v.0@), v.1))
}

/// The phases waiting to be exported.
pub struct ExportQueue {
    /// How many sources send metrics for each phase.
    pub nb_sources: usize,
    /// The metrics received for each phase not exported yet.
    pub pending_metrics: HashMap<usize, PendingMetrics>,
    /// The bounds received for each phase not exported yet.
    pub pending_info: HashMap<usize, PhaseInfo>,
}

/// A phase ready to be exported: its bounds and all its metrics.
pub type ReadyPhase = (PhaseInfo, Vec<Metric>);

impl ExportQueue {
    /// No phase is both complete and described while still waiting.
    pub open spec fn settled(&self) -> bool {
        forall|k: usize|
            #![trigger self.pending_info@.contains_key(k), self.pending_metrics@.contains_key(k)]
            self.pending_metrics@.contains_key(k) && self.pending_metrics@[k].1 == self.nb_sources
                ==> !self.pending_info@.contains_key(k)
    }

    /// A queue for `nb_sources` sources, with nothing pending.
    pub fn new(nb_sources: usize) -> (q: Self)
        ensures
            q.nb_sources == nb_sources,
            q.pending_metrics@ == Map::<usize, PendingMetrics>::empty(),
            q.pending_info@ == Map::<usize, PhaseInfo>::empty(),
            q.settled(),
    {
        ExportQueue { nb_sources, pending_metrics: HashMap::new(), pending_info: HashMap::new() }
    }

    /// Takes the metrics of one source for one phase. When every source has
    /// sent its metrics and the bounds of the phase are known, the phase is
    /// returned, its metrics in the order they arrived, and forgotten.
    pub fn on_metrics(&mut self, phase: Phase) -> (r: Option<ReadyPhase>)
        requires
            old(self).pending_metrics@.contains_key(phase.phase_index) ==> old(
                self,
            ).pending_metrics@[phase.phase_index].1 < usize::MAX,
        ensures
            ({
                let k = phase.phase_index;
                let prev = if old(self).pending_metrics@.contains_key(k) {
                    pending_view(old(self).pending_metrics@)[k]
                } else {
                    (Seq::<MetricView>::empty(), 0usize)
                };
                let merged = prev.0 + metrics_full(phase.metrics@);
                let count = prev.1 + 1;
                if count == old(self).nb_sources && old(self).pending_info@.contains_key(k) {
                    &&& r matches Some(ready) && ready.0 == old(self).pending_info@[k]
                        && metrics_full(ready.1@) == merged
                    &&& pending_view(final(self).pending_metrics@) == pending_view(
                        old(self).pending_metrics@,
                    ).remove(k)
                    &&& final(self).pending_info@ == old(self).pending_info@.remove(k)
                } else {
                    &&& r is None
                    &&& pending_view(final(self).pending_metrics@) == pending_view(
                        old(self).pending_metrics@,
                    ).insert(k, (merged, count as usize))
                    &&& final(self).pending_info@ == old(self).pending_info@
                }
            }),
            final(self).nb_sources == old(self).nb_sources,
            old(self).settled() ==> final(self).settled(),
    {
        let k = phase.phase_index;
        let ghost pm0 = self.pending_metrics@;
        let (mut metrics, count) = match self.pending_metrics.remove(&k) {
            Some(entry) => entry,
            None => (Vec::new(), 0),
        };
        let ghost before = metrics@;
        let mut incoming = phase.metrics;
        let ghost inc = incoming@;
        metrics.append(&mut incoming);
        let count = count + 1;
        proof {
            assert(metrics_full(metrics@) =~= metrics_full(before) + metrics_full(inc));
            if pm0.contains_key(k) {
                assert(pending_view(pm0)[k] == (metrics_full(before), pm0[k].1));
            } else {
                assert(metrics_full(before) =~= Seq::<MetricView>::empty());
            }
        }
        if count == self.nb_sources {
            if let Some(info) = self.pending_info.remove(&k) {
                proof {
                    assert(pending_view(self.pending_metrics@) =~= pending_view(pm0).remove(k));
                }
                return Some((info, metrics));
            }
        }
        let ghost entry = (metrics, count);
        self.pending_metrics.insert(k, (metrics, count));
        proof {
            assert(pending_view(self.pending_metrics@) =~= pending_view(pm0).insert(
                k,
                (metrics_full(entry.0@), count),
            ));
        }
        None
    }

    /// Takes the bounds of one phase. When every source has already sent
    /// its metrics for it, the phase is returned and forgotten; otherwise
    /// the bounds wait for the metrics.
    pub fn on_info(&mut self, info: PhaseInfo) -> (r: Option<ReadyPhase>)
        ensures
            ({
                let k = info.phase_index;
                if old(self).pending_metrics@.contains_key(k) && old(self).pending_metrics@[k].1
                    == old(self).nb_sources {
                    &&& r matches Some(ready) && ready.0 == info && metrics_full(ready.1@)
                        == pending_view(old(self).pending_metrics@)[k].0
                    &&& pending_view(final(self).pending_metrics@) == pending_view(
                        old(self).pending_metrics@,
                    ).remove(k)
                    &&& final(self).pending_info@ == old(self).pending_info@
                } else {
                    &&& r is None
                    &&& final(self).pending_metrics@ == old(self).pending_metrics@
                    &&& final(self).pending_info@ == old(self).pending_info@.insert(k, info)
                }
            }),
            final(self).nb_sources == old(self).nb_sources,
            old(self).settled() ==> final(self).settled(),
    {
        let k = info.phase_index;
        let ghost pm0 = self.pending_metrics@;
        let ready = match self.pending_metrics.get(&k) {
            Some(entry) => entry.1 == self.nb_sources,
            None => false,
        };
        if ready {
            if let Some(entry) = self.pending_metrics.remove(&k) {
                proof {
                    assert(pending_view(self.pending_metrics@) =~= pending_view(pm0).remove(k));
                }
                return Some((info, entry.0));
            }
        }
        self.pending_info.insert(k, info);
        None
    }
}

} // verus!

//! The bookkeeping of phases as the profiled program reports them: each
//! token starts a phase and ends the one before it.

use vstd::prelude::*;

use crate::types::PhaseInfo;

verus! {

/// A phase that started and has not ended yet.
#[derive(Debug)]
pub struct PendingPhase {
    pub phase_index: usize,
    pub start_token: String,
    pub start_timestamp: u128,
}

/// The phases of a run: the index of the next phase and the phase that is
/// running, if any.
#[derive(Debug)]
pub struct PhaseBook {
    pub current_phase_index: usize,
    pub pending_phase: Option<PendingPhase>,
}

/// The bounds of a phase: index, start token, end token, start and end
/// timestamps.
pub type InfoView = (usize, Seq<char>, Seq<char>, u128, u128);

/// A finished phase, seen as its bounds.
pub open spec fn info_view(i: PhaseInfo) -> InfoView {
    (i.phase_index, i.start_token@, i.end_token@, i.start_timestamp, i.end_timestamp)
}

/// The running phase, seen as its index, start token and start timestamp.
pub open spec fn pending_view(p: Option<PendingPhase>) -> Option<(usize, Seq<char>, u128)> {
    match p {
        Some(x) => Some((x.phase_index, x.start_token@, x.start_timestamp)),
        None => None,
    }
}

/// The state of the bookkeeping: the index of the next phase and the
/// running phase.
pub type BookView = (usize, Option<(usize, Seq<char>, u128)>);

/// One token at a time: the token ends the running phase, if any, and
/// starts the next one.
pub open spec fn step(s: BookView, token: Seq<char>, timestamp: u128) -> (BookView, Option<InfoView>) {
    let ended = match s.1 {
        Some((index, start, started)) => Some((index, start, token, started, timestamp)),
        None => None,
    };
    (((s.0 + 1) as usize, Some((s.0, token, timestamp))), ended)
}

/// The phases that a sequence of tokens ends, from the state `s`.
pub open spec fn run_tokens(s: BookView, tokens: Seq<(Seq<char>, u128)>) -> (BookView, Seq<InfoView>)
    decreases tokens.len(),
{
    if tokens.len() == 0 {
        (s, seq![])
    } else {
        let (mid, ended) = run_tokens(s, tokens.drop_last());
        let (next, last) = step(mid, tokens.last().0, tokens.last().1);
        (next, match last {
            Some(i) => ended.push(i),
            None => ended,
        })
    }
}

impl PhaseBook {
    /// The state, seen as the index of the next phase and the running one.
    pub open spec fn view_book(&self) -> BookView {
        (self.current_phase_index, pending_view(self.pending_phase))
    }

    /// No phase yet.
    pub fn new() -> (b: Self)
        ensures
            b.view_book() == (0usize, Option::<(usize, Seq<char>, u128)>::None),
    {
        PhaseBook { current_phase_index: 0, pending_phase: None }
    }

    /// A token reached at `timestamp`: it ends
    /// the running phase, which is returned with its bounds, and starts the
    /// next one.
    pub fn measure(&mut self, token: String, timestamp: u128) -> (r: Option<PhaseInfo>)
        requires
            old(self).current_phase_index < usize::MAX,
        ensures
            (final(self).view_book(), match r {
                Some(i) => Some(info_view(i)),
                None => None,
            }) == step(old(self).view_book(), token@, timestamp),
    {
        let ended = match self.pending_phase.take() {
            Some(p) => Some(
                PhaseInfo {
                    phase_index: p.phase_index,
                    start_token: p.start_token,
                    start_timestamp: p.start_timestamp,
                    end_token: token.clone(),
                    end_timestamp: timestamp,
                },
            ),
            None => None,
        };
        self.pending_phase = Some(
            PendingPhase {
                phase_index: self.current_phase_index,
                start_token: token,
                start_timestamp: timestamp,
            },
        );
        self.current_phase_index = self.current_phase_index + 1;
        ended
    }
}

/// The phases a run reports: after `n` tokens from the start, the run has
/// ended `n - 1` phases, numbered from zero, the phase `i` going from the
/// token `i` to the token `i + 1`, and the last token starts the running
/// phase `n - 1`.
pub proof fn law_phases_follow_tokens(tokens: Seq<(Seq<char>, u128)>)
    requires
        tokens.len() < usize::MAX,
    ensures
        ({
            let (s, ended) = run_tokens((0usize, None), tokens);
            &&& s.0 == tokens.len()
            &&& tokens.len() == 0 ==> s.1 is None && ended.len() == 0
            &&& tokens.len() > 0 ==> {
                &&& ended.len() == tokens.len() - 1
                &&& s.1 == Some(
                    (
                        (tokens.len() - 1) as usize,
                        tokens.last().0,
                        tokens.last().1,
                    ),
                )
                &&& forall|i: int|
                    0 <= i < ended.len() ==> #[trigger] ended[i] == (
                        i as usize,
                        tokens[i].0,
                        tokens[i + 1].0,
                        tokens[i].1,
                        tokens[i + 1].1,
                    )
            }
        }),
    decreases tokens.len(),
{
    if tokens.len() > 0 {
        let pre = tokens.drop_last();
        law_phases_follow_tokens(pre);
        let (mid, ended) = run_tokens((0usize, None), pre);
        if pre.len() > 0 {
            assert(pre.last() == tokens[pre.len() - 1]);
            let (s, all) = run_tokens((0usize, None), tokens);
            assert forall|i: int| 0 <= i < all.len() implies #[trigger] all[i] == (
                i as usize,
                tokens[i].0,
                tokens[i + 1].0,
                tokens[i].1,
                tokens[i + 1].1,
            ) by {
                if i < ended.len() {
                    assert(all[i] == ended[i]);
                    assert(pre[i] == tokens[i]);
                    assert(pre[i + 1] == tokens[i + 1]);
                }
            }
        }
    }
}

} // verus!

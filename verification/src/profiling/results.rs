//! The results of a profiling run: the phases between the detected tokens,
//! each with the metrics the sources gathered for it, sorted by name.

use vstd::prelude::*;

use crate::profiling::aggregate::{MetricView, SensorPhase, SensorResult, full_view, phase_view, result_view};
use crate::profiling::detect::{LineEvent, LineScanner, PhasePattern, regex_first_match, strip_line_ending};
use crate::text::chars_of;
use crate::types::Metric;

verus! {

/// What starts or ends a phase.
#[derive(Debug)]
pub enum PhaseToken {
    /// The start of the program.
    Start,
    /// The end of the program.
    End,
    /// A token the program wrote.
    Token(String),
}

/// A token seen as a tag and its text.
pub open spec fn token_view(t: PhaseToken) -> (u8, Seq<char>) {
    match t {
        PhaseToken::Start => (0u8, seq![]),
        PhaseToken::End => (1u8, seq![]),
        PhaseToken::Token(s) => (2u8, s@),
    }
}

impl PhaseToken {
    /// A copy of the token.
    pub fn duplicate(&self) -> (t: Self)
        ensures
            token_view(t) == token_view(*self),
    {
        match self {
            PhaseToken::Start => PhaseToken::Start,
            PhaseToken::End => PhaseToken::End,
            PhaseToken::Token(s) => PhaseToken::Token(s.clone()),
        }
    }
}

/// A phase boundary detected during the run: its token, when it was
/// reached, and the output line it was found on.
#[derive(Debug)]
pub struct DetectedPhase {
    pub token: PhaseToken,
    pub timestamp: u128,
    pub line_number: Option<usize>,
}

impl DetectedPhase {
    /// The start of the program at `timestamp`.
    pub fn start(timestamp: u128) -> (d: Self)
        ensures
            d.token is Start,
            d.timestamp == timestamp,
            d.line_number is None,
    {
        DetectedPhase { token: PhaseToken::Start, timestamp, line_number: None }
    }

    /// The end of the program at `timestamp`.
    pub fn end(timestamp: u128) -> (d: Self)
        ensures
            d.token is End,
            d.timestamp == timestamp,
            d.line_number is None,
    {
        DetectedPhase { token: PhaseToken::End, timestamp, line_number: None }
    }
}

/// A measured phase of the run.
#[derive(Debug)]
pub struct ProfiledPhase {
    pub index: usize,
    pub metrics: Vec<Metric>,
    pub start_token: PhaseToken,
    pub end_token: PhaseToken,
    pub timestamp: u128,
    pub duration_ms: u128,
    pub start_token_line: Option<usize>,
    pub end_token_line: Option<usize>,
}

/// The results of a run.
#[derive(Debug)]
pub struct ProfilerResults {
    pub timestamp: u128,
    pub duration_ms: u128,
    pub exit_code: i32,
    pub phases: Vec<ProfiledPhase>,
}

/// Whether the name `a` sorts strictly before `b`: lexicographic order of
/// their characters, a prefix first (the order of `String`).
pub open spec fn name_lt(a: Seq<char>, b: Seq<char>) -> bool
    decreases a.len(),
{
    if a.len() == 0 {
        b.len() > 0
    } else if b.len() == 0 {
        false
    } else if (a[0] as u32) < (b[0] as u32) {
        true
    } else if a[0] == b[0] {
        name_lt(a.drop_first(), b.drop_first())
    } else {
        false
    }
}

/// No name sorts before itself.
pub proof fn lemma_name_lt_irreflexive(a: Seq<char>)
    ensures
        !name_lt(a, a),
    decreases a.len(),
{
    if a.len() > 0 {
        lemma_name_lt_irreflexive(a.drop_first());
    }
}

/// The order of names is transitive.
pub proof fn lemma_name_lt_transitive(a: Seq<char>, b: Seq<char>, c: Seq<char>)
    requires
        name_lt(a, b),
        name_lt(b, c),
    ensures
        name_lt(a, c),
    decreases a.len(),
{
    if a.len() > 0 && b.len() > 0 && c.len() > 0 && a[0] == b[0] && b[0] == c[0] {
        lemma_name_lt_transitive(a.drop_first(), b.drop_first(), c.drop_first());
    }
}

/// Of two different names, one sorts before the other, and never both.
pub proof fn lemma_name_lt_total(a: Seq<char>, b: Seq<char>)
    ensures
        a != b ==> name_lt(a, b) || name_lt(b, a),
        !(name_lt(a, b) && name_lt(b, a)),
    decreases a.len(),
{
    if a.len() > 0 && b.len() > 0 {
        lemma_name_lt_total(a.drop_first(), b.drop_first());
        if a[0] == b[0] && a != b {
            assert(a.drop_first() != b.drop_first()) by {
                if a.drop_first() == b.drop_first() {
                    assert(a =~= seq![a[0]] + a.drop_first());
                    assert(b =~= seq![b[0]] + b.drop_first());
                }
            }
        }
        if a[0] != b[0] {
            vstd::utf8::char_u32_cast(a[0], a[0] as u32);
            vstd::utf8::char_u32_cast(b[0], b[0] as u32);
        }
    } else if a.len() == 0 && b.len() == 0 {
        assert(a =~= b);
    }
}

/// `x` inserted into `s` after every metric whose name does not sort after
/// its own.
pub open spec fn insert_by_name(s: Seq<MetricView>, x: MetricView) -> Seq<MetricView>
    decreases s.len(),
{
    if s.len() == 0 {
        seq![x]
    } else if name_lt(x.1, s.last().1) {
        insert_by_name(s.drop_last(), x).push(s.last())
    } else {
        s.push(x)
    }
}

/// The metrics sorted by name, metrics of equal names in their order (a
/// stable sort, `sort_by` on the names).
pub open spec fn sort_by_name(s: Seq<MetricView>) -> Seq<MetricView>
    decreases s.len(),
{
    if s.len() == 0 {
        seq![]
    } else {
        insert_by_name(sort_by_name(s.drop_last()), s.last())
    }
}

/// Whether no metric's name sorts before that of a metric ahead of it.
pub open spec fn sorted_by_name(s: Seq<MetricView>) -> bool {
    forall|i: int, j: int| 0 <= i < j < s.len() ==> !name_lt(#[trigger] s[j].1, #[trigger] s[i].1)
}

proof fn lemma_insert_by_name(s: Seq<MetricView>, x: MetricView)
    requires
        sorted_by_name(s),
    ensures
        sorted_by_name(insert_by_name(s, x)),
        insert_by_name(s, x).to_multiset() == s.to_multiset().insert(x),
    decreases s.len(),
{
    broadcast use vstd::seq_lib::group_to_multiset_ensures;

    if s.len() == 0 {
        assert(insert_by_name(s, x) =~= seq![x]);
        assert(seq![x] =~= Seq::<MetricView>::empty().push(x));
    } else {
        let t = s.drop_last();
        let last = s.last();
        assert(s =~= t.push(last));
        assert(sorted_by_name(t)) by {
            assert forall|i: int, j: int| 0 <= i < j < t.len() implies !name_lt(
                #[trigger] t[j].1,
                #[trigger] t[i].1,
            ) by {
                assert(t[i] == s[i] && t[j] == s[j]);
            }
        }
        if name_lt(x.1, last.1) {
            lemma_insert_by_name(t, x);
            let u = insert_by_name(t, x);
            assert(u.to_multiset().count(last) >= 0);
            assert forall|k: int| 0 <= k < u.len() implies !name_lt(last.1, #[trigger] u[k].1) by {
                assert(u.to_multiset().count(u[k]) > 0);
                assert(t.to_multiset().insert(x).count(u[k]) > 0);
                if u[k] == x {
                    lemma_name_lt_total(x.1, last.1);
                } else {
                    assert(t.to_multiset().count(u[k]) > 0);
                    assert(t.contains(u[k]));
                    let i = choose|i: int| 0 <= i < t.len() && t[i] == u[k];
                    assert(s[i] == t[i]);
                    assert(!name_lt(s[s.len() - 1].1, s[i].1));
                }
            }
            let r = u.push(last);
            assert forall|i: int, j: int| 0 <= i < j < r.len() implies !name_lt(
                #[trigger] r[j].1,
                #[trigger] r[i].1,
            ) by {
                if j == r.len() - 1 {
                    assert(r[j] == last);
                    assert(r[i] == u[i]);
                } else {
                    assert(r[i] == u[i] && r[j] == u[j]);
                }
            }
        } else {
            let r = s.push(x);
            assert forall|i: int, j: int| 0 <= i < j < r.len() implies !name_lt(
                #[trigger] r[j].1,
                #[trigger] r[i].1,
            ) by {
                if j == r.len() - 1 {
                    assert(r[i] == s[i]);
                    if name_lt(x.1, s[i].1) {
                        if i == s.len() - 1 {
                        } else {
                            assert(!name_lt(s[s.len() - 1].1, s[i].1));
                            lemma_name_lt_total(s[i].1, last.1);
                            if s[i].1 != last.1 {
                                lemma_name_lt_transitive(x.1, s[i].1, last.1);
                            }
                        }
                    }
                } else {
                    assert(r[i] == s[i] && r[j] == s[j]);
                }
            }
        }
    }
}

/// Sorting by name gives the metrics it was given, each as many times, in
/// an order where no name sorts before one ahead of it.
pub proof fn law_sort_by_name_sorts(s: Seq<MetricView>)
    ensures
        sorted_by_name(sort_by_name(s)),
        sort_by_name(s).to_multiset() == s.to_multiset(),
    decreases s.len(),
{
    broadcast use vstd::seq_lib::group_to_multiset_ensures;

    if s.len() == 0 {
        assert(sort_by_name(s) =~= s);
    } else {
        law_sort_by_name_sorts(s.drop_last());
        lemma_insert_by_name(sort_by_name(s.drop_last()), s.last());
        assert(s =~= s.drop_last().push(s.last()));
    }
}

/// Whether the name of `a` sorts strictly before that of `b`.
pub fn name_less(a: &Vec<char>, b: &Vec<char>) -> (r: bool)
    ensures
        r == name_lt(a@, b@),
{
    let mut i: usize = 0;
    proof {
        assert(a@.skip(0) =~= a@);
        assert(b@.skip(0) =~= b@);
    }
    while i < a.len() && i < b.len() && a[i] == b[i]
        invariant
            i <= a@.len(),
            i <= b@.len(),
            name_lt(a@, b@) == name_lt(a@.skip(i as int), b@.skip(i as int)),
        decreases a@.len() - i,
    {
        proof {
            let sa = a@.skip(i as int);
            let sb = b@.skip(i as int);
            assert(sa.drop_first() =~= a@.skip(i + 1));
            assert(sb.drop_first() =~= b@.skip(i + 1));
        }
        i = i + 1;
    }
    proof {
        let sa = a@.skip(i as int);
        let sb = b@.skip(i as int);
        if i < a@.len() && i < b@.len() {
            assert(sa[0] == a@[i as int]);
            assert(sb[0] == b@[i as int]);
        }
    }
    if i == a.len() {
        i < b.len()
    } else if i == b.len() {
        false
    } else {
        (a[i] as u32) < (b[i] as u32)
    }
}

/// Inserting after the metrics that do not sort after it, seen from the
/// end: everything past the position sorts after `x`.
proof fn lemma_insert_split(s: Seq<MetricView>, x: MetricView, j: int)
    requires
        0 <= j <= s.len(),
        forall|k: int| j <= k < s.len() ==> name_lt(x.1, #[trigger] s[k].1),
    ensures
        insert_by_name(s, x) == insert_by_name(s.take(j), x) + s.skip(j),
    decreases s.len() - j,
{
    if j < s.len() {
        let t = s.drop_last();
        lemma_insert_split(t, x, j);
        assert(t.take(j) =~= s.take(j));
        assert(s.skip(j) =~= t.skip(j).push(s.last()));
    } else {
        assert(s.take(j) =~= s);
        assert(s.skip(j) =~= Seq::<MetricView>::empty());
    }
}

/// Sorts metrics by name, keeping the order of metrics with equal names.
pub fn sort_metrics(metrics: Vec<Metric>) -> (r: Vec<Metric>)
    ensures
        r@.map_values(|m: Metric| full_view(m)) == sort_by_name(
            metrics@.map_values(|m: Metric| full_view(m)),
        ),
{
    let ghost input = metrics@.map_values(|m: Metric| full_view(m));
    let mut rest = metrics;
    let n = rest.len();
    let mut out: Vec<Metric> = Vec::new();
    let mut names: Vec<Vec<char>> = Vec::new();
    let mut k: usize = 0;
    while k < n
        invariant
            k <= n,
            rest@.len() == n,
            input.len() == n,
            forall|i: int| k <= i < n ==> full_view(#[trigger] rest@[i]) == input[i],
            out@.map_values(|m: Metric| full_view(m)) == sort_by_name(input.take(k as int)),
            names@.len() == out@.len(),
            forall|i: int| 0 <= i < out@.len() ==> (#[trigger] names@[i])@ == out@[i].name@,
        decreases n - k,
    {
        let mut x = Metric::new(String::new(), crate::types::MetricValue::U64(0), crate::types::MetricUnit {
            prefix: crate::types::UnitPrefix::Base,
            unit: crate::types::Unit::Count,
        }, String::new());
        rest.set_and_swap(k, &mut x);
        let xv = chars_of(x.name.as_str());
        let ghost sorted = out@.map_values(|m: Metric| full_view(m));
        let ghost xw = full_view(x);
        let mut j = out.len();
        while j > 0 && name_less(&xv, &names[j - 1])
            invariant
                j <= out@.len(),
                names@.len() == out@.len(),
                forall|i: int| 0 <= i < out@.len() ==> (#[trigger] names@[i])@ == out@[i].name@,
                sorted == out@.map_values(|m: Metric| full_view(m)),
                xv@ == xw.1,
                forall|i: int| j <= i < sorted.len() ==> name_lt(xw.1, #[trigger] sorted[i].1),
            decreases j,
        {
            j = j - 1;
        }
        proof {
            lemma_insert_split(sorted, xw, j as int);
            let front = sorted.take(j as int);
            if j > 0 {
                assert(front.drop_last() =~= sorted.take(j - 1));
                assert(!name_lt(xw.1, front.last().1));
                assert(insert_by_name(front, xw) == front.push(xw));
            } else {
                assert(insert_by_name(front, xw) == seq![xw]);
            }
            assert(input.take(k + 1).drop_last() =~= input.take(k as int));
            assert(input.take(k + 1).last() == xw);
        }
        out.insert(j, x);
        names.insert(j, xv);
        proof {
            assert(out@.map_values(|m: Metric| full_view(m)) =~= sorted.take(j as int).push(xw)
                + sorted.skip(j as int));
        }
        k = k + 1;
    }
    proof {
        assert(input.take(n as int) =~= input);
    }
    out
}

/// A measured phase seen whole: index, metrics, start and end tokens,
/// start time, duration and the lines of its tokens.
pub type ProfiledView = (
    usize,
    Seq<MetricView>,
    (u8, Seq<char>),
    (u8, Seq<char>),
    u128,
    u128,
    Option<usize>,
    Option<usize>,
);

/// A measured phase seen whole.
pub open spec fn profiled_view(p: ProfiledPhase) -> ProfiledView {
    (
        p.index,
        p.metrics@.map_values(|m: Metric| full_view(m)),
        token_view(p.start_token),
        token_view(p.end_token),
        p.timestamp,
        p.duration_ms,
        p.start_token_line,
        p.end_token_line,
    )
}

/// How many phases are measured: one between each two detected
/// boundaries, as far as the sources have results.
pub open spec fn measured_count(detected: int, results: int) -> int {
    let windows = if detected > 0 {
        detected - 1
    } else {
        0
    };
    if windows < results {
        windows
    } else {
        results
    }
}

/// The phases of a run: the phase `i` goes from
/// the boundary `i` to the boundary `i + 1` and holds the metrics of the
/// `i`-th result phase sorted by name; its duration is in milliseconds,
/// rounded down. When no such phase exists, the last result phase, if any,
/// becomes a single phase from the start to the end of the program.
pub open spec fn expected_phases(
    d: Seq<DetectedPhase>,
    r: Seq<Seq<MetricView>>,
    begin: u128,
    duration_ms: u128,
) -> Seq<ProfiledView> {
    let n = measured_count(d.len() as int, r.len() as int);
    if n > 0 {
        Seq::new(
            n as nat,
            |i: int|
                (
                    i as usize,
                    sort_by_name(r[i]),
                    token_view(d[i].token),
                    token_view(d[i + 1].token),
                    d[i].timestamp,
                    ((d[i + 1].timestamp - d[i].timestamp) / 1000) as u128,
                    d[i].line_number,
                    d[i + 1].line_number,
                ),
        )
    } else if r.len() > 0 {
        seq![
            (
                0usize,
                r.last(),
                (0u8, Seq::<char>::empty()),
                (1u8, Seq::<char>::empty()),
                begin,
                duration_ms,
                Option::<usize>::None,
                Option::<usize>::None,
            ),
        ]
    } else {
        seq![]
    }
}

/// Builds the phases of a run from the detected boundaries and the merged
/// results of the sources.
pub fn assemble_phases(
    detected: &Vec<DetectedPhase>,
    results: SensorResult,
    begin: u128,
    duration_ms: u128,
) -> (r: Vec<ProfiledPhase>)
    requires
        forall|i: int|
            0 <= i < detected@.len() - 1 ==> detected@[i].timestamp <= #[trigger] detected@[i
                + 1].timestamp,
    ensures
        r@.map_values(|p: ProfiledPhase| profiled_view(p)) == expected_phases(
            detected@,
            crate::profiling::aggregate::result_view(results),
            begin,
            duration_ms,
        ),
        measured_count(detected@.len() as int, results.phases@.len() as int) > 0 ==> {
            &&& r@.len() == measured_count(detected@.len() as int, results.phases@.len() as int)
            &&& forall|i: int|
                0 <= i < r@.len() ==> {
                    &&& (#[trigger] r@[i]).index == i
                    &&& r@[i].timestamp == detected@[i].timestamp
                    &&& r@[i].timestamp + r@[i].duration_ms * 1000 <= detected@[i + 1].timestamp
                    &&& detected@[i + 1].timestamp < r@[i].timestamp + (r@[i].duration_ms + 1) * 1000
                    &&& token_view(r@[i].start_token) == token_view(detected@[i].token)
                    &&& token_view(r@[i].end_token) == token_view(detected@[i + 1].token)
                    &&& r@[i].start_token_line == detected@[i].line_number
                    &&& r@[i].end_token_line == detected@[i + 1].line_number
                }
        },
{
    let ghost rv = crate::profiling::aggregate::result_view(results);
    let mut phases = results.phases;
    let rn = phases.len();
    let windows: usize = if detected.len() > 0 {
        detected.len() - 1
    } else {
        0
    };
    let n: usize = if windows < rn {
        windows
    } else {
        rn
    };
    let mut out: Vec<ProfiledPhase> = Vec::new();
    let mut k: usize = 0;
    while k < n
        invariant
            k <= n,
            n == measured_count(detected@.len() as int, rv.len() as int),
            n <= rn,
            n + 1 <= detected@.len() || n == 0,
            phases@.len() == rn,
            rv.len() == rn,
            forall|i: int|
                0 <= i < detected@.len() - 1 ==> detected@[i].timestamp <= #[trigger] detected@[i
                    + 1].timestamp,
            forall|i: int| k <= i < rn ==> phase_view(#[trigger] phases@[i]) == rv[i],
            out@.len() == k,
            forall|i: int|
                0 <= i < k ==> profiled_view(#[trigger] out@[i]) == (
                    i as usize,
                    sort_by_name(rv[i]),
                    token_view(detected@[i].token),
                    token_view(detected@[i + 1].token),
                    detected@[i].timestamp,
                    ((detected@[i + 1].timestamp - detected@[i].timestamp) / 1000) as u128,
                    detected@[i].line_number,
                    detected@[i + 1].line_number,
                ),
        decreases n - k,
    {
        let mut p = SensorPhase { metrics: Vec::new() };
        phases.set_and_swap(k, &mut p);
        let metrics = sort_metrics(p.metrics);
        let d1 = &detected[k];
        let d2 = &detected[k + 1];
        let phase = ProfiledPhase {
            index: k,
            metrics,
            start_token: d1.token.duplicate(),
            end_token: d2.token.duplicate(),
            timestamp: d1.timestamp,
            duration_ms: (d2.timestamp - d1.timestamp) / 1000,
            start_token_line: d1.line_number,
            end_token_line: d2.line_number,
        };
        out.push(phase);
        k = k + 1;
    }
    if n == 0 && rn > 0 {
        let mut last = SensorPhase { metrics: Vec::new() };
        phases.set_and_swap(rn - 1, &mut last);
        out.push(
            ProfiledPhase {
                index: 0,
                metrics: last.metrics,
                start_token: PhaseToken::Start,
                end_token: PhaseToken::End,
                timestamp: begin,
                duration_ms,
                start_token_line: None,
                end_token_line: None,
            },
        );
    }
    proof {
        assert(out@.map_values(|p: ProfiledPhase| profiled_view(p)) =~= expected_phases(
            detected@,
            rv,
            begin,
            duration_ms,
        ));
        if n > 0 {
            assert forall|i: int| 0 <= i < out@.len() implies detected@[i + 1].timestamp < out@[i].timestamp + (
            out@[i].duration_ms + 1) * 1000 && out@[i].timestamp + out@[i].duration_ms * 1000 <= detected@[i + 1].timestamp by {
                assert(profiled_view(out@[i]).4 == out@[i].timestamp);
                let gap = detected@[i + 1].timestamp - detected@[i].timestamp;
                assert(out@[i].duration_ms == gap / 1000);
                assert(gap / 1000 * 1000 <= gap < (gap / 1000 + 1) * 1000) by (nonlinear_arith)
                    requires gap >= 0;
            }
        }
    }
    out
}

/// A measured phase starts at the boundary that opens it and lasts, in
/// whole milliseconds, until the boundary that closes it: for every phase
/// `i` of a run with detected boundaries, its start time is the time of
/// boundary `i`, its tokens are those of boundaries `i` and `i + 1`, and
/// its duration is the time between the two, rounded down to a millisecond.
pub proof fn law_phase_spans_its_boundaries(
    d: Seq<DetectedPhase>,
    r: Seq<Seq<MetricView>>,
    begin: u128,
    duration_ms: u128,
)
    requires
        in_time_order(d),
        d.len() <= usize::MAX,
        measured_count(d.len() as int, r.len() as int) > 0,
    ensures
        ({
            let ps = expected_phases(d, r, begin, duration_ms);
            &&& ps.len() == measured_count(d.len() as int, r.len() as int)
            &&& ps.len() < d.len()
            &&& forall|i: int|
                0 <= i < ps.len() ==> {
                    &&& (#[trigger] ps[i]).0 == i
                    &&& ps[i].4 == d[i].timestamp
                    &&& ps[i].4 + ps[i].5 * 1000 <= d[i + 1].timestamp
                    &&& d[i + 1].timestamp < ps[i].4 + (ps[i].5 + 1) * 1000
                    &&& ps[i].2 == token_view(d[i].token)
                    &&& ps[i].3 == token_view(d[i + 1].token)
                }
        }),
{
    let ps = expected_phases(d, r, begin, duration_ms);
    assert forall|i: int| 0 <= i < ps.len() implies {
        &&& (#[trigger] ps[i]).0 == i
        &&& ps[i].4 == d[i].timestamp
        &&& ps[i].4 + ps[i].5 * 1000 <= d[i + 1].timestamp
        &&& d[i + 1].timestamp < ps[i].4 + (ps[i].5 + 1) * 1000
        &&& ps[i].2 == token_view(d[i].token)
        &&& ps[i].3 == token_view(d[i + 1].token)
    } by {
        assert(d[i].timestamp <= d[i + 1].timestamp);
        let gap = d[i + 1].timestamp - d[i].timestamp;
        assert(ps[i] == (
            i as usize,
            sort_by_name(r[i]),
            token_view(d[i].token),
            token_view(d[i + 1].token),
            d[i].timestamp,
            ((d[i + 1].timestamp - d[i].timestamp) / 1000) as u128,
            d[i].line_number,
            d[i + 1].line_number,
        ));
        assert(gap / 1000 * 1000 <= gap < (gap / 1000 + 1) * 1000) by (nonlinear_arith)
            requires gap >= 0;
    }
}

/// A detected boundary seen as its token, its time and its line.
pub type DetectedView = ((u8, Seq<char>), u128, Option<usize>);

/// The views of detected boundaries.
pub open spec fn detected_views(s: Seq<DetectedPhase>) -> Seq<DetectedView> {
    s.map_values(|d: DetectedPhase| (token_view(d.token), d.timestamp, d.line_number))
}

/// What the run does with a line of the program's output.
#[derive(Debug)]
pub enum LineAction {
    /// Nothing: the line was not valid text.
    Skip,
    /// Echo the line.
    Echo(String),
    /// Echo the line; a phase ends on it, so every source measures.
    Boundary(String),
}

/// The boundaries of a run, found line by line in the program's output.
pub struct PhaseDetector {
    pub scanner: LineScanner,
    pub detected: Vec<DetectedPhase>,
}

impl PhaseDetector {
    /// The detector of a run that began at `begin`: the start boundary, at
    /// the first line.
    pub fn start(begin: u128) -> (d: Self)
        ensures
            d.scanner.line_number == 0,
            detected_views(d.detected@) == seq![((0u8, Seq::<char>::empty()), begin, None::<usize>)],
    {
        let mut detected: Vec<DetectedPhase> = Vec::new();
        detected.push(DetectedPhase::start(begin));
        proof {
            assert(detected_views(detected@) =~= seq![((0u8, Seq::<char>::empty()), begin, None::<usize>)]);
        }
        PhaseDetector { scanner: LineScanner::new(), detected }
    }

    /// A line read at `now`, `None` when it is not valid UTF-8 and is
    /// skipped. Any other line is echoed without its line ending; one in
    /// which the pattern matches ends a phase at `now`, named by the match,
    /// on the number of the line. Every line counts.
    pub fn on_line(&mut self, pattern: &PhasePattern, line: Option<&str>, now: u128) -> (r: LineAction)
        requires
            old(self).scanner.line_number < usize::MAX,
        ensures
            final(self).scanner.line_number == old(self).scanner.line_number + 1,
            match line {
                None => r is Skip && detected_views(final(self).detected@) == detected_views(
                    old(self).detected@,
                ),
                Some(raw) => match regex_first_match(pattern.text(), strip_line_ending(raw@)) {
                    None => r matches LineAction::Echo(l) && l@ == strip_line_ending(raw@)
                        && detected_views(final(self).detected@) == detected_views(old(self).detected@),
                    Some(t) => r matches LineAction::Boundary(l) && l@ == strip_line_ending(raw@)
                        && detected_views(final(self).detected@) == detected_views(old(self).detected@).push(
                        ((2u8, t), now, Some(old(self).scanner.line_number)),
                    ),
                },
            },
    {
        let ghost before = self.detected@;
        match self.scanner.scan(pattern, line) {
            LineEvent::Skip => LineAction::Skip,
            LineEvent::Echo(l) => LineAction::Echo(l),
            LineEvent::Token { line, token, line_number } => {
                self.detected.push(
                    DetectedPhase { token: PhaseToken::Token(token), timestamp: now, line_number: Some(line_number) },
                );
                proof {
                    assert(detected_views(self.detected@) =~= detected_views(before).push(
                        (token_view(self.detected@.last().token), now, Some(line_number)),
                    ));
                }
                LineAction::Boundary(line)
            },
        }
    }

    /// The end of the run at `end`: the boundaries found, then the end.
    pub fn finish(self, end: u128) -> (r: Vec<DetectedPhase>)
        ensures
            detected_views(r@) == detected_views(self.detected@).push(
                ((1u8, Seq::<char>::empty()), end, None::<usize>),
            ),
    {
        let mut detected = self.detected;
        let ghost before = detected@;
        detected.push(DetectedPhase::end(end));
        proof {
            assert(detected_views(detected@) =~= detected_views(before).push(
                ((1u8, Seq::<char>::empty()), end, None::<usize>),
            ));
        }
        detected
    }
}

/// Whether the boundaries come in time order.
pub open spec fn in_time_order(d: Seq<DetectedPhase>) -> bool {
    forall|i: int| 0 <= i < d.len() - 1 ==> d[i].timestamp <= #[trigger] d[i + 1].timestamp
}

/// The results of a run: `None` when the clock
/// went back during it (a boundary before the one before it, or the end
/// before the beginning); otherwise the run from `begin`, its duration in
/// whole milliseconds to `end`, its exit code and its phases.
pub fn profiler_results(
    detected: &Vec<DetectedPhase>,
    results: SensorResult,
    begin: u128,
    end: u128,
    exit_code: i32,
) -> (r: Option<ProfilerResults>)
    ensures
        r is Some <==> in_time_order(detected@) && begin <= end,
        r matches Some(p) ==> p.timestamp == begin && p.duration_ms == (end - begin) / 1000 && p.exit_code
            == exit_code && p.phases@.map_values(|q: ProfiledPhase| profiled_view(q)) == expected_phases(
            detected@,
            result_view(results),
            begin,
            ((end - begin) / 1000) as u128,
        ),
{
    if end < begin {
        return None;
    }
    let last: usize = if detected.len() > 0 {
        detected.len() - 1
    } else {
        0
    };
    let mut k: usize = 0;
    while k < last
        invariant
            k <= last,
            last == if detected@.len() > 0 {
                detected@.len() - 1
            } else {
                0
            },
            forall|i: int| 0 <= i < k ==> detected@[i].timestamp <= #[trigger] detected@[i + 1].timestamp,
        decreases last - k,
    {
        if detected[k].timestamp > detected[k + 1].timestamp {
            proof {
                assert(!in_time_order(detected@)) by {
                    assert(detected@[k as int].timestamp > detected@[k + 1].timestamp);
                }
            }
            return None;
        }
        k = k + 1;
    }
    let duration_ms = (end - begin) / 1000;
    let phases = assemble_phases(detected, results, begin, duration_ms);
    Some(ProfilerResults { timestamp: begin, duration_ms, exit_code, phases })
}

} // verus!

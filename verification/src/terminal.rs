//! The terminal exporter: the text it prints for a phase, its metrics
//! grouped by source, and the list of available sensors.

use vstd::prelude::*;

use crate::profiling::results::{lemma_name_lt_total, lemma_name_lt_transitive, name_less, name_lt};
use crate::text::{chars_of, decimal, decimal_chars, push_all, signed_decimal, string_of};
use crate::types::{AvailableSensor, Metric, MetricUnit, MetricValue, PhaseInfo, Unit, UnitPrefix};

verus! {

/// The width of the boxes around titles, in characters.
pub const BOX_WIDTH: usize = 50;

/// `n` times the character `c`.
pub open spec fn repeat(c: char, n: nat) -> Seq<char> {
    Seq::new(n, |_i: int| c)
}

/// `s` followed by spaces up to `width` characters (`{:<width}`).
pub open spec fn pad_right(s: Seq<char>, width: nat) -> Seq<char> {
    if s.len() < width {
        s + repeat(' ', (width - s.len()) as nat)
    } else {
        s
    }
}

/// `s` after spaces up to `width` characters (`{:>width}`).
pub open spec fn pad_left(s: Seq<char>, width: nat) -> Seq<char> {
    if s.len() < width {
        repeat(' ', (width - s.len()) as nat) + s
    } else {
        s
    }
}

/// A title in a double-lined box.
pub open spec fn header_lines(title: Seq<char>) -> Seq<Seq<char>> {
    seq![
        seq!['╔'] + repeat('═', (BOX_WIDTH - 2) as nat) + seq!['╗'],
        seq!['║', ' ', ' '] + pad_right(title, (BOX_WIDTH - 5) as nat) + seq![' ', '║'],
        seq!['╚'] + repeat('═', (BOX_WIDTH - 2) as nat) + seq!['╝'],
    ]
}

/// A title in a single-lined box.
pub open spec fn subheader_lines(title: Seq<char>) -> Seq<Seq<char>> {
    seq![
        seq!['┌'] + repeat('─', (BOX_WIDTH - 2) as nat) + seq!['┐'],
        seq!['│', ' '] + pad_right(title, (BOX_WIDTH - 3) as nat) + seq!['│'],
        seq!['└'] + repeat('─', (BOX_WIDTH - 2) as nat) + seq!['┘'],
    ]
}

/// A labelled field of the phase header: `  {label:<20}: {value:>10}`.
pub open spec fn field_line(label: Seq<char>, value: Seq<char>) -> Seq<char> {
    seq![' ', ' '] + pad_right(label, 20) + seq![':', ' '] + pad_left(value, 10)
}

/// The header of a phase: its tokens in a box, then its duration in
/// microseconds and its two tokens.
pub open spec fn phase_header_lines(info: PhaseInfo) -> Seq<Seq<char>> {
    header_lines(info.start_token@ + " -> "@ + info.end_token@) + seq![
        field_line("Duration"@, decimal((info.end_timestamp - info.start_timestamp) as nat))
            + seq![' ', 'μ', 's'],
        field_line("Start token"@, info.start_token@),
        field_line("End token"@, info.end_token@),
    ]
}

/// The text of a metric value.
pub open spec fn value_text(v: MetricValue) -> Seq<char> {
    match v {
        MetricValue::I64(x) => signed_decimal(x as int),
        MetricValue::U64(x) => decimal(x as nat),
    }
}

/// The line of a metric: its name, its value, and how long after the
/// start of the phase it was taken.
pub open spec fn metric_line(m: Metric, start: u128) -> Seq<char> {
    seq![' ', ' '] + pad_right(m.name@, 20) + seq![':', ' '] + pad_left(value_text(m.value), 20)
        + " (delay="@ + decimal((m.timestamp - start) as nat) + seq!['μ', 's', ')']
}

/// `x` placed among sorted names, unless it is there already.
pub open spec fn insert_source(s: Seq<Seq<char>>, x: Seq<char>) -> Seq<Seq<char>>
    decreases s.len(),
{
    if s.len() == 0 {
        seq![x]
    } else if name_lt(x, s.last()) {
        insert_source(s.drop_last(), x).push(s.last())
    } else if x == s.last() {
        s
    } else {
        s.push(x)
    }
}

/// The names of `s` in ascending order, each once.
pub open spec fn sorted_sources(s: Seq<Seq<char>>) -> Seq<Seq<char>>
    decreases s.len(),
{
    if s.len() == 0 {
        seq![]
    } else {
        insert_source(sorted_sources(s.drop_last()), s.last())
    }
}

/// Whether every name sorts strictly before the ones after it.
pub open spec fn strictly_sorted(s: Seq<Seq<char>>) -> bool {
    forall|i: int, j: int| 0 <= i < j < s.len() ==> name_lt(#[trigger] s[i], #[trigger] s[j])
}

proof fn lemma_insert_source(s: Seq<Seq<char>>, x: Seq<char>)
    requires
        strictly_sorted(s),
    ensures
        strictly_sorted(insert_source(s, x)),
        forall|y: Seq<char>| #[trigger] insert_source(s, x).contains(y) <==> s.contains(y) || y == x,
    decreases s.len(),
{
    if s.len() == 0 {
        assert(insert_source(s, x) =~= seq![x]);
        assert(seq![x][0] == x);
    } else {
        let t = s.drop_last();
        let last = s.last();
        assert(s =~= t.push(last));
        assert(strictly_sorted(t)) by {
            assert forall|i: int, j: int| 0 <= i < j < t.len() implies name_lt(
                #[trigger] t[i],
                #[trigger] t[j],
            ) by {
                assert(t[i] == s[i] && t[j] == s[j]);
            }
        }
        if name_lt(x, last) {
            lemma_insert_source(t, x);
            let u = insert_source(t, x);
            let r = u.push(last);
            assert forall|k: int| 0 <= k < u.len() implies name_lt(#[trigger] u[k], last) by {
                assert(u.contains(u[k]));
                if u[k] != x {
                    let i = choose|i: int| 0 <= i < t.len() && t[i] == u[k];
                    assert(s[i] == t[i]);
                    assert(name_lt(s[i], s[s.len() - 1]));
                }
            }
            assert forall|i: int, j: int| 0 <= i < j < r.len() implies name_lt(
                #[trigger] r[i],
                #[trigger] r[j],
            ) by {
                if j == r.len() - 1 {
                    assert(r[i] == u[i]);
                } else {
                    assert(r[i] == u[i] && r[j] == u[j]);
                }
            }
            assert forall|y: Seq<char>| #[trigger] r.contains(y) <==> s.contains(y) || y == x by {
                if r.contains(y) {
                    let k = choose|k: int| 0 <= k < r.len() && r[k] == y;
                    if k < u.len() {
                        assert(u[k] == y);
                        assert(u.contains(y));
                    }
                }
                if s.contains(y) {
                    let k = choose|k: int| 0 <= k < s.len() && s[k] == y;
                    if k == s.len() - 1 {
                        assert(r[r.len() - 1] == y);
                    } else {
                        assert(t[k] == y);
                        assert(t.contains(y));
                        assert(u.contains(y));
                        let m = choose|m: int| 0 <= m < u.len() && u[m] == y;
                        assert(r[m] == y);
                    }
                }
                if y == x {
                    assert(u.contains(y));
                    let m = choose|m: int| 0 <= m < u.len() && u[m] == y;
                    assert(r[m] == y);
                }
            }
        } else if x == last {
            assert(s[s.len() - 1] == x);
        } else {
            let r = s.push(x);
            lemma_name_lt_total(x, last);
            assert forall|i: int, j: int| 0 <= i < j < r.len() implies name_lt(
                #[trigger] r[i],
                #[trigger] r[j],
            ) by {
                if j == r.len() - 1 {
                    assert(r[i] == s[i]);
                    if i < s.len() - 1 {
                        assert(name_lt(s[i], s[s.len() - 1]));
                        lemma_name_lt_transitive(s[i], last, x);
                    }
                } else {
                    assert(r[i] == s[i] && r[j] == s[j]);
                }
            }
            assert forall|y: Seq<char>| #[trigger] r.contains(y) <==> s.contains(y) || y == x by {
                if r.contains(y) {
                    let k = choose|k: int| 0 <= k < r.len() && r[k] == y;
                    if k < s.len() {
                        assert(s[k] == y);
                    }
                }
                if s.contains(y) {
                    let k = choose|k: int| 0 <= k < s.len() && s[k] == y;
                    assert(r[k] == y);
                }
                if y == x {
                    assert(r[r.len() - 1] == y);
                }
            }
        }
    }
}

/// The sources are listed in ascending order, each once: exactly the
/// sources of the items, and nothing else.
pub proof fn law_sorted_sources(s: Seq<Seq<char>>)
    ensures
        strictly_sorted(sorted_sources(s)),
        forall|y: Seq<char>| #[trigger] sorted_sources(s).contains(y) <==> s.contains(y),
    decreases s.len(),
{
    if s.len() > 0 {
        law_sorted_sources(s.drop_last());
        lemma_insert_source(sorted_sources(s.drop_last()), s.last());
        assert forall|y: Seq<char>| #[trigger] sorted_sources(s).contains(y) <==> s.contains(y) by {
            if s.drop_last().contains(y) {
                let k = choose|k: int| 0 <= k < s.drop_last().len() && s.drop_last()[k] == y;
                assert(s[k] == y);
            }
            if s.contains(y) {
                let k = choose|k: int| 0 <= k < s.len() && s[k] == y;
                if k < s.len() - 1 {
                    assert(s.drop_last()[k] == y);
                }
            }
        }
    }
}

proof fn lemma_insert_source_split(s: Seq<Seq<char>>, x: Seq<char>, j: int)
    requires
        0 <= j <= s.len(),
        forall|k: int| j <= k < s.len() ==> name_lt(x, #[trigger] s[k]),
    ensures
        insert_source(s, x) == insert_source(s.take(j), x) + s.skip(j),
    decreases s.len() - j,
{
    if j < s.len() {
        let t = s.drop_last();
        lemma_insert_source_split(t, x, j);
        assert(t.take(j) =~= s.take(j));
        assert(s.skip(j) =~= t.skip(j).push(s.last()));
    } else {
        assert(s.take(j) =~= s);
        assert(s.skip(j) =~= Seq::<Seq<char>>::empty());
    }
}

/// The views of character vectors.
pub open spec fn char_views(v: Seq<Vec<char>>) -> Seq<Seq<char>> {
    v.map_values(|c: Vec<char>| c@)
}

/// The given names in ascending order, each once.
pub fn sort_sources(names: &Vec<Vec<char>>) -> (r: Vec<Vec<char>>)
    ensures
        char_views(r@) == sorted_sources(char_views(names@)),
{
    let ghost input = char_views(names@);
    let mut out: Vec<Vec<char>> = Vec::new();
    let mut k: usize = 0;
    while k < names.len()
        invariant
            k <= names@.len(),
            input == char_views(names@),
            char_views(out@) == sorted_sources(input.take(k as int)),
        decreases names@.len() - k,
    {
        let x = names[k].clone();
        let ghost sorted = char_views(out@);
        let mut j = out.len();
        while j > 0 && name_less(&x, &out[j - 1])
            invariant
                j <= out@.len(),
                sorted == char_views(out@),
                x@ == input[k as int],
                forall|i: int| j <= i < sorted.len() ==> name_lt(x@, #[trigger] sorted[i]),
            decreases j,
        {
            j = j - 1;
        }
        proof {
            lemma_insert_source_split(sorted, x@, j as int);
            assert(input.take(k + 1) =~= input.take(k as int).push(x@));
            assert(input.take(k + 1).drop_last() =~= input.take(k as int));
        }
        let same = j > 0 && crate::text::chars_equal(&x, &out[j - 1]);
        proof {
            let front = sorted.take(j as int);
            if j > 0 {
                assert(front.drop_last() =~= sorted.take(j - 1));
                assert(front.last() == sorted[j - 1]);
                assert(!name_lt(x@, front.last()));
            }
        }
        if same {
            proof {
                let front = sorted.take(j as int);
                assert(insert_source(front, x@) == front);
                assert(front + sorted.skip(j as int) =~= sorted);
            }
        } else {
            let ghost before = out@;
            out.insert(j, x);
            proof {
                let front = sorted.take(j as int);
                if j > 0 {
                    assert(insert_source(front, x@) == front.push(x@));
                } else {
                    assert(insert_source(front, x@) == seq![x@]);
                }
                assert(char_views(out@) =~= front.push(x@) + sorted.skip(j as int));
            }
        }
        k = k + 1;
    }
    proof {
        assert(input.take(names@.len() as int) =~= input);
    }
    out
}

fn push_str(v: &mut Vec<char>, s: &str)
    ensures
        final(v)@ == old(v)@ + s@,
{
    push_all(v, &chars_of(s));
}

fn push_repeat(v: &mut Vec<char>, c: char, n: usize)
    ensures
        final(v)@ == old(v)@ + repeat(c, n as nat),
{
    let ghost start = v@;
    let mut i: usize = 0;
    while i < n
        invariant
            i <= n,
            v@ == start + repeat(c, i as nat),
        decreases n - i,
    {
        v.push(c);
        i = i + 1;
        proof {
            assert(v@ =~= start + repeat(c, i as nat));
        }
    }
}

fn push_padded_right(v: &mut Vec<char>, s: &Vec<char>, width: usize)
    ensures
        final(v)@ == old(v)@ + pad_right(s@, width as nat),
{
    let ghost start = v@;
    push_all(v, s);
    if s.len() < width {
        push_repeat(v, ' ', width - s.len());
        proof {
            assert(v@ =~= start + pad_right(s@, width as nat));
        }
    }
}

fn push_padded_left(v: &mut Vec<char>, s: &Vec<char>, width: usize)
    ensures
        final(v)@ == old(v)@ + pad_left(s@, width as nat),
{
    let ghost start = v@;
    if s.len() < width {
        push_repeat(v, ' ', width - s.len());
    }
    push_all(v, s);
    proof {
        assert(v@ =~= start + pad_left(s@, width as nat));
    }
}

fn line_of(v: Vec<char>) -> (s: String)
    ensures
        s@ == v@,
{
    string_of(v)
}

fn value_chars(v: MetricValue) -> (r: Vec<char>)
    ensures
        r@ == value_text(v),
{
    match v {
        MetricValue::U64(x) => decimal_chars(x as u128),
        MetricValue::I64(x) => {
            if x < 0 {
                let m: u128 = (0i128 - x as i128) as u128;
                let mut out = vec!['-'];
                push_all(&mut out, &decimal_chars(m));
                out
            } else {
                decimal_chars(x as u128)
            }
        },
    }
}

/// The views of lines.
pub open spec fn lines_view(v: Seq<String>) -> Seq<Seq<char>> {
    v.map_values(|s: String| s@)
}

fn push_lines(out: &mut Vec<String>, lines: Vec<String>)
    ensures
        lines_view(final(out)@) == lines_view(old(out)@) + lines_view(lines@),
{
    let ghost start = lines_view(out@);
    let mut lines = lines;
    let n = lines.len();
    let mut k: usize = 0;
    let ghost all = lines_view(lines@);
    while k < n
        invariant
            k <= n,
            n == lines@.len(),
            all.len() == n,
            forall|i: int| k <= i < n ==> (#[trigger] lines@[i])@ == all[i],
            lines_view(out@) == start + all.take(k as int),
        decreases n - k,
    {
        let mut line = String::new();
        lines.set_and_swap(k, &mut line);
        let ghost prev = out@;
        assert(line@ == all[k as int]);
        out.push(line);
        proof {
            assert(out@ == prev.push(line));
            assert(lines_view(out@) =~= lines_view(prev).push(line@));
            assert(all.take(k + 1) =~= all.take(k as int).push(all[k as int]));
        }
        k = k + 1;
    }
    proof {
        assert(all.take(n as int) =~= all);
    }
}

/// A sensor's line in the list: its name and unit.
pub open spec fn sensor_line(name: Seq<char>, unit: Seq<char>) -> Seq<char> {
    seq![' ', ' '] + pad_right(name, 20) + " | "@ + pad_right(unit, 5)
}

/// The symbol of a unit prefix.
pub open spec fn prefix_symbol(p: UnitPrefix) -> Seq<char> {
    match p {
        UnitPrefix::Base => seq![],
        UnitPrefix::Milli => seq!['m'],
        UnitPrefix::Micro => seq!['μ'],
    }
}

/// The symbol of a base unit.
pub open spec fn base_symbol(u: Unit) -> Seq<char> {
    match u {
        Unit::Joule => seq!['J'],
        Unit::Watt => seq!['W'],
        Unit::Byte => seq!['B'],
        Unit::Second => seq!['s'],
        Unit::Count => seq![],
        Unit::Percent => seq!['%'],
    }
}

/// The symbol of a unit: its prefix, then its base unit.
pub open spec fn unit_symbol(u: MetricUnit) -> Seq<char> {
    prefix_symbol(u.prefix) + base_symbol(u.unit)
}

/// The symbol of a unit.
pub fn unit_chars(u: MetricUnit) -> (r: Vec<char>)
    ensures
        r@ == unit_symbol(u),
{
    let mut out: Vec<char> = Vec::new();
    match u.prefix {
        UnitPrefix::Base => {},
        UnitPrefix::Milli => out.push('m'),
        UnitPrefix::Micro => out.push('μ'),
    }
    match u.unit {
        Unit::Joule => out.push('J'),
        Unit::Watt => out.push('W'),
        Unit::Byte => out.push('B'),
        Unit::Second => out.push('s'),
        Unit::Count => {},
        Unit::Percent => out.push('%'),
    }
    proof {
        assert(out@ =~= unit_symbol(u));
    }
    out
}

/// The lines of the metrics of one source, in their order.
pub open spec fn source_metric_lines(ms: Seq<Metric>, source: Seq<char>, start: u128) -> Seq<Seq<char>>
    decreases ms.len(),
{
    if ms.len() == 0 {
        seq![]
    } else {
        source_metric_lines(ms.drop_last(), source, start) + (if ms.last().source@ == source {
            seq![metric_line(ms.last(), start)]
        } else {
            seq![]
        })
    }
}

/// For each source of the list, its name in a box, then its metrics.
pub open spec fn grouped_metric_lines(ms: Seq<Metric>, sources: Seq<Seq<char>>, start: u128) -> Seq<
    Seq<char>,
>
    decreases sources.len(),
{
    if sources.len() == 0 {
        seq![]
    } else {
        grouped_metric_lines(ms, sources.drop_last(), start) + subheader_lines(sources.last())
            + source_metric_lines(ms, sources.last(), start)
    }
}

/// The sources of the metrics.
pub open spec fn metric_sources(ms: Seq<Metric>) -> Seq<Seq<char>> {
    ms.map_values(|m: Metric| m.source@)
}

/// The text of a phase's metrics: an empty line, then the metrics of each
/// source, the sources in ascending order.
pub open spec fn metrics_lines(ms: Seq<Metric>, start: u128) -> Seq<Seq<char>> {
    seq![seq![]] + grouped_metric_lines(ms, sorted_sources(metric_sources(ms)), start)
}

/// The lines of the sensors of one source, in their order.
pub open spec fn source_sensor_lines(ss: Seq<AvailableSensor>, source: Seq<char>) -> Seq<Seq<char>>
    decreases ss.len(),
{
    if ss.len() == 0 {
        seq![]
    } else {
        source_sensor_lines(ss.drop_last(), source) + (if ss.last().source@ == source {
            seq![sensor_line(ss.last().name@, unit_symbol(ss.last().unit))]
        } else {
            seq![]
        })
    }
}

/// For each source of the list: an empty line, its name in a box, the
/// column titles, a rule, then its sensors.
pub open spec fn grouped_sensor_lines(ss: Seq<AvailableSensor>, sources: Seq<Seq<char>>) -> Seq<
    Seq<char>,
>
    decreases sources.len(),
{
    if sources.len() == 0 {
        seq![]
    } else {
        grouped_sensor_lines(ss, sources.drop_last()) + seq![seq![]] + subheader_lines(sources.last())
            + seq![sensor_line("Name"@, "Unit"@), seq![' '] + repeat('─', (BOX_WIDTH - 2) as nat)]
            + source_sensor_lines(ss, sources.last())
    }
}

/// The sources of the sensors.
pub open spec fn sensor_sources(ss: Seq<AvailableSensor>) -> Seq<Seq<char>> {
    ss.map_values(|s: AvailableSensor| s.source@)
}

/// The text of the sensor list: a message when there is none, else a
/// title and the sensors of each source, the sources in ascending order.
pub open spec fn sensors_lines(ss: Seq<AvailableSensor>) -> Seq<Seq<char>> {
    if ss.len() == 0 {
        seq!["No sensors available."@]
    } else {
        header_lines("Available Sensors"@) + grouped_sensor_lines(ss, sorted_sources(sensor_sources(ss)))
    }
}

/// The exporter that prints each phase to the terminal.
pub struct TerminalExporter;

impl TerminalExporter {
    /// The lines of a title in a double-lined box.
    pub fn print_header(title: &Vec<char>) -> (r: Vec<String>)
        ensures
            lines_view(r@) == header_lines(title@),
    {
        let mut top: Vec<char> = vec!['╔'];
        push_repeat(&mut top, '═', BOX_WIDTH - 2);
        top.push('╗');
        let mut middle: Vec<char> = vec!['║', ' ', ' '];
        push_padded_right(&mut middle, title, BOX_WIDTH - 5);
        middle.push(' ');
        middle.push('║');
        let mut bottom: Vec<char> = vec!['╚'];
        push_repeat(&mut bottom, '═', BOX_WIDTH - 2);
        bottom.push('╝');
        proof {
            assert(top@ =~= seq!['╔'] + repeat('═', (BOX_WIDTH - 2) as nat) + seq!['╗']);
            assert(middle@ =~= seq!['║', ' ', ' '] + pad_right(title@, (BOX_WIDTH - 5) as nat) + seq![' ', '║']);
            assert(bottom@ =~= seq!['╚'] + repeat('═', (BOX_WIDTH - 2) as nat) + seq!['╝']);
        }
        let r = vec![line_of(top), line_of(middle), line_of(bottom)];
        proof {
            assert(lines_view(r@) =~= header_lines(title@));
        }
        r
    }

    /// The lines of a title in a single-lined box.
    pub fn print_subheader(title: &Vec<char>) -> (r: Vec<String>)
        ensures
            lines_view(r@) == subheader_lines(title@),
    {
        let mut top: Vec<char> = vec!['┌'];
        push_repeat(&mut top, '─', BOX_WIDTH - 2);
        top.push('┐');
        let mut middle: Vec<char> = vec!['│', ' '];
        push_padded_right(&mut middle, title, BOX_WIDTH - 3);
        middle.push('│');
        let mut bottom: Vec<char> = vec!['└'];
        push_repeat(&mut bottom, '─', BOX_WIDTH - 2);
        bottom.push('┘');
        proof {
            assert(top@ =~= seq!['┌'] + repeat('─', (BOX_WIDTH - 2) as nat) + seq!['┐']);
            assert(middle@ =~= seq!['│', ' '] + pad_right(title@, (BOX_WIDTH - 3) as nat) + seq!['│']);
            assert(bottom@ =~= seq!['└'] + repeat('─', (BOX_WIDTH - 2) as nat) + seq!['┘']);
        }
        let r = vec![line_of(top), line_of(middle), line_of(bottom)];
        proof {
            assert(lines_view(r@) =~= subheader_lines(title@));
        }
        r
    }

    fn field(label: &str, value: &Vec<char>) -> (r: Vec<char>)
        ensures
            r@ == field_line(label@, value@),
    {
        let mut v: Vec<char> = vec![' ', ' '];
        push_padded_right(&mut v, &chars_of(label), 20);
        v.push(':');
        v.push(' ');
        push_padded_left(&mut v, value, 10);
        proof {
            assert(v@ =~= field_line(label@, value@));
        }
        v
    }

    /// The lines of a phase's header: its tokens in a box, its duration
    /// and its tokens.
    pub fn display_phase_header(info: &PhaseInfo) -> (r: Vec<String>)
        requires
            info.start_timestamp <= info.end_timestamp,
        ensures
            lines_view(r@) == phase_header_lines(*info),
    {
        let start = chars_of(info.start_token.as_str());
        let end = chars_of(info.end_token.as_str());
        let mut title = start.clone();
        push_str(&mut title, " -> ");
        push_all(&mut title, &end);
        let mut out = Self::print_header(&title);
        let mut duration = Self::field("Duration", &decimal_chars(info.end_timestamp - info.start_timestamp));
        let ghost d0 = duration@;
        duration.push(' ');
        duration.push('μ');
        duration.push('s');
        proof {
            assert(duration@ =~= d0 + seq![' ', 'μ', 's']);
            assert(title@ =~= info.start_token@ + " -> "@ + info.end_token@);
        }
        let l1 = line_of(duration);
        let l2 = line_of(Self::field("Start token", &start));
        let l3 = line_of(Self::field("End token", &end));
        let ghost h = out@;
        out.push(l1);
        out.push(l2);
        out.push(l3);
        proof {
            assert(out@ == h.push(l1).push(l2).push(l3));
            assert(lines_view(out@) =~= lines_view(h) + seq![l1@, l2@, l3@]);
            assert(lines_view(out@) =~= phase_header_lines(*info));
        }
        out
    }

    fn metric_text(m: &Metric, start: u128) -> (r: String)
        requires
            start <= m.timestamp,
        ensures
            r@ == metric_line(*m, start),
    {
        let mut v: Vec<char> = vec![' ', ' '];
        push_padded_right(&mut v, &chars_of(m.name.as_str()), 20);
        v.push(':');
        v.push(' ');
        push_padded_left(&mut v, &value_chars(m.value), 20);
        push_str(&mut v, " (delay=");
        push_all(&mut v, &decimal_chars(m.timestamp - start));
        v.push('μ');
        v.push('s');
        v.push(')');
        proof {
            assert(v@ =~= metric_line(*m, start));
        }
        line_of(v)
    }

    /// The lines of a phase's metrics: an empty line, then, source by
    /// source in ascending order, the source in a box and its metrics with
    /// their value and delay since the start of the phase.
    pub fn display_metrics(metrics: &Vec<Metric>, info: &PhaseInfo) -> (r: Vec<String>)
        requires
            forall|i: int| 0 <= i < metrics@.len() ==> info.start_timestamp <= (#[trigger] metrics@[i]).timestamp,
        ensures
            lines_view(r@) == metrics_lines(metrics@, info.start_timestamp),
    {
        let start = info.start_timestamp;
        let mut names: Vec<Vec<char>> = Vec::new();
        let mut k: usize = 0;
        while k < metrics.len()
            invariant
                k <= metrics@.len(),
                char_views(names@) == metric_sources(metrics@).take(k as int),
            decreases metrics@.len() - k,
        {
            let v = chars_of(metrics[k].source.as_str());
            let ghost prev = names@;
            names.push(v);
            proof {
                assert(v@ == metrics@[k as int].source@);
                assert(names@ == prev.push(v));
                assert(char_views(names@) =~= char_views(prev).push(v@));
                assert(metric_sources(metrics@).take(k + 1) =~= metric_sources(metrics@).take(k as int).push(v@));
            }
            k = k + 1;
        }
        proof {
            assert(metric_sources(metrics@).take(metrics@.len() as int) =~= metric_sources(metrics@));
        }
        let sources = sort_sources(&names);
        let mut out: Vec<String> = vec![String::new()];
        proof {
            assert(lines_view(out@) =~= seq![seq![]] + grouped_metric_lines(
                metrics@,
                char_views(sources@).take(0),
                start,
            ));
        }
        let mut s: usize = 0;
        while s < sources.len()
            invariant
                s <= sources@.len(),
                start == info.start_timestamp,
                forall|i: int| 0 <= i < metrics@.len() ==> start <= (#[trigger] metrics@[i]).timestamp,
                lines_view(out@) == seq![seq![]] + grouped_metric_lines(
                    metrics@,
                    char_views(sources@).take(s as int),
                    start,
                ),
            decreases sources@.len() - s,
        {
            let ghost src = sources@[s as int]@;
            let ghost before = lines_view(out@);
            push_lines(&mut out, Self::print_subheader(&sources[s]));
            let mut k: usize = 0;
            while k < metrics.len()
                invariant
                    k <= metrics@.len(),
                    s < sources@.len(),
                    src == sources@[s as int]@,
                    forall|i: int| 0 <= i < metrics@.len() ==> start <= (#[trigger] metrics@[i]).timestamp,
                    lines_view(out@) == before + subheader_lines(src) + source_metric_lines(
                        metrics@.take(k as int),
                        src,
                        start,
                    ),
                decreases metrics@.len() - k,
            {
                proof {
                    assert(metrics@.take(k + 1).drop_last() =~= metrics@.take(k as int));
                    assert(metrics@.take(k + 1).last() == metrics@[k as int]);
                }
                let m_src = chars_of(metrics[k].source.as_str());
                let ghost prev = out@;
                if crate::text::chars_equal(&m_src, &sources[s]) {
                    let text = Self::metric_text(&metrics[k], start);
                    out.push(text);
                    proof {
                        assert(lines_view(out@) =~= lines_view(prev).push(text@));
                    }
                }
                k = k + 1;
                proof {
                    assert(lines_view(out@) =~= before + subheader_lines(src) + source_metric_lines(
                        metrics@.take(k as int),
                        src,
                        start,
                    ));
                }
            }
            s = s + 1;
            proof {
                let taken = char_views(sources@).take(s as int);
                assert(taken.drop_last() =~= char_views(sources@).take(s - 1));
                assert(taken.last() == src);
                assert(metrics@.take(metrics@.len() as int) =~= metrics@);
                assert(lines_view(out@) =~= seq![seq![]] + grouped_metric_lines(metrics@, taken, start));
            }
        }
        proof {
            assert(char_views(sources@).take(sources@.len() as int) =~= char_views(sources@));
        }
        out
    }

    /// The lines that list the sensors: a message when there is none, else
    /// a title, then, source by source in ascending order, the source in a
    /// box and the name and unit of each of its sensors.
    pub fn print_sensors(sensors: &Vec<AvailableSensor>) -> (r: Vec<String>)
        ensures
            lines_view(r@) == sensors_lines(sensors@),
    {
        if sensors.len() == 0 {
            let r = vec!["No sensors available.".to_owned()];
            proof {
                assert(lines_view(r@) =~= sensors_lines(sensors@));
            }
            return r;
        }
        let mut names: Vec<Vec<char>> = Vec::new();
        let mut k: usize = 0;
        while k < sensors.len()
            invariant
                k <= sensors@.len(),
                char_views(names@) == sensor_sources(sensors@).take(k as int),
            decreases sensors@.len() - k,
        {
            let v = chars_of(sensors[k].source.as_str());
            let ghost prev = names@;
            names.push(v);
            proof {
                assert(v@ == sensors@[k as int].source@);
                assert(names@ == prev.push(v));
                assert(char_views(names@) =~= char_views(prev).push(v@));
                assert(sensor_sources(sensors@).take(k + 1) =~= sensor_sources(sensors@).take(k as int).push(v@));
            }
            k = k + 1;
        }
        proof {
            assert(sensor_sources(sensors@).take(sensors@.len() as int) =~= sensor_sources(sensors@));
        }
        let sources = sort_sources(&names);
        let mut out = Self::print_header(&chars_of("Available Sensors"));
        proof {
            assert(lines_view(out@) =~= header_lines("Available Sensors"@) + grouped_sensor_lines(
                sensors@,
                char_views(sources@).take(0),
            ));
        }
        let mut titles: Vec<char> = vec![' ', ' '];
        push_padded_right(&mut titles, &chars_of("Name"), 20);
        push_str(&mut titles, " | ");
        push_padded_right(&mut titles, &chars_of("Unit"), 5);
        let mut rule: Vec<char> = vec![' '];
        push_repeat(&mut rule, '─', BOX_WIDTH - 2);
        proof {
            assert(titles@ =~= sensor_line("Name"@, "Unit"@));
        }
        let mut s: usize = 0;
        while s < sources.len()
            invariant
                s <= sources@.len(),
                titles@ == sensor_line("Name"@, "Unit"@),
                rule@ == seq![' '] + repeat('─', (BOX_WIDTH - 2) as nat),
                lines_view(out@) == header_lines("Available Sensors"@) + grouped_sensor_lines(
                    sensors@,
                    char_views(sources@).take(s as int),
                ),
            decreases sources@.len() - s,
        {
            let ghost src = sources@[s as int]@;
            let ghost before = lines_view(out@);
            let ghost b0 = out@;
            out.push(String::new());
            proof {
                assert(lines_view(out@) =~= before + seq![seq![]]);
            }
            push_lines(&mut out, Self::print_subheader(&sources[s]));
            let t1 = line_of(titles.clone());
            let t2 = line_of(rule.clone());
            let ghost b1 = out@;
            out.push(t1);
            out.push(t2);
            proof {
                assert(out@ == b1.push(t1).push(t2));
                assert(lines_view(out@) =~= lines_view(b1) + seq![t1@, t2@]);
            }
            let ghost mid = lines_view(out@);
            let mut k: usize = 0;
            while k < sensors.len()
                invariant
                    k <= sensors@.len(),
                    s < sources@.len(),
                    src == sources@[s as int]@,
                    lines_view(out@) == mid + source_sensor_lines(sensors@.take(k as int), src),
                decreases sensors@.len() - k,
            {
                proof {
                    assert(sensors@.take(k + 1).drop_last() =~= sensors@.take(k as int));
                    assert(sensors@.take(k + 1).last() == sensors@[k as int]);
                }
                let sensor = &sensors[k];
                let s_src = chars_of(sensor.source.as_str());
                if crate::text::chars_equal(&s_src, &sources[s]) {
                    let mut v: Vec<char> = vec![' ', ' '];
                    push_padded_right(&mut v, &chars_of(sensor.name.as_str()), 20);
                    push_str(&mut v, " | ");
                    push_padded_right(&mut v, &unit_chars(sensor.unit), 5);
                    proof {
                        assert(v@ =~= sensor_line(sensor.name@, unit_symbol(sensor.unit)));
                    }
                    let ghost prev = out@;
                    let text = line_of(v);
                    out.push(text);
                    proof {
                        assert(lines_view(out@) =~= lines_view(prev).push(text@));
                    }
                }
                k = k + 1;
                proof {
                    assert(lines_view(out@) =~= mid + source_sensor_lines(sensors@.take(k as int), src));
                }
            }
            s = s + 1;
            proof {
                let taken = char_views(sources@).take(s as int);
                assert(taken.drop_last() =~= char_views(sources@).take(s - 1));
                assert(taken.last() == src);
                assert(sensors@.take(sensors@.len() as int) =~= sensors@);
                assert(lines_view(out@) =~= header_lines("Available Sensors"@) + grouped_sensor_lines(
                    sensors@,
                    taken,
                ));
            }
        }
        proof {
            assert(char_views(sources@).take(sources@.len() as int) =~= char_views(sources@));
        }
        out
    }
}

} // verus!

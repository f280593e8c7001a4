//! The metric sources, output formats and RAPL backends a user can name.

use vstd::prelude::*;

use crate::text::{chars_equal, chars_of, concat3};

verus! {

/// A metric source that can be enabled.
#[derive(Debug, Clone, Copy, PartialEq, Eq, Structural)]
pub enum Source {
    Rapl,
    Perf,
    Nvml,
    AmdSmi,
    Procfs,
    Cgroup,
}

/// The name of a source (its `Display` text, and its id).
pub open spec fn source_name(s: Source) -> Seq<char> {
    match s {
        Source::Rapl => "rapl"@,
        Source::Perf => "perf"@,
        Source::Nvml => "nvml"@,
        Source::AmdSmi => "amdsmi"@,
        Source::Procfs => "procfs"@,
        Source::Cgroup => "cgroup"@,
    }
}

/// The source a command-line name names: its name, or `perf_event` for
/// the `perf_event` source.
pub open spec fn source_of_name(n: Seq<char>) -> Option<Source> {
    if n == "rapl"@ {
        Some(Source::Rapl)
    } else if n == "perf"@ || n == "perf_event"@ {
        Some(Source::Perf)
    } else if n == "nvml"@ {
        Some(Source::Nvml)
    } else if n == "amdsmi"@ {
        Some(Source::AmdSmi)
    } else if n == "procfs"@ {
        Some(Source::Procfs)
    } else if n == "cgroup"@ {
        Some(Source::Cgroup)
    } else {
        None
    }
}

/// Every source, in order.
pub open spec fn all_sources() -> Seq<Source> {
    seq![Source::Rapl, Source::Perf, Source::Nvml, Source::AmdSmi, Source::Procfs, Source::Cgroup]
}

impl Source {
    /// The name of the source.
    pub fn name(self) -> (s: &'static str)
        ensures
            s@ == source_name(self),
    {
        match self {
            Source::Rapl => "rapl",
            Source::Perf => "perf",
            Source::Nvml => "nvml",
            Source::AmdSmi => "amdsmi",
            Source::Procfs => "procfs",
            Source::Cgroup => "cgroup",
        }
    }

    /// The source named on the command line, if any.
    pub fn from_name(name: &str) -> (r: Option<Source>)
        ensures
            r == source_of_name(name@),
    {
        let v = chars_of(name);
        if chars_equal(&v, &chars_of("rapl")) {
            Some(Source::Rapl)
        } else if chars_equal(&v, &chars_of("perf")) || chars_equal(&v, &chars_of("perf_event")) {
            Some(Source::Perf)
        } else if chars_equal(&v, &chars_of("nvml")) {
            Some(Source::Nvml)
        } else if chars_equal(&v, &chars_of("amdsmi")) {
            Some(Source::AmdSmi)
        } else if chars_equal(&v, &chars_of("procfs")) {
            Some(Source::Procfs)
        } else if chars_equal(&v, &chars_of("cgroup")) {
            Some(Source::Cgroup)
        } else {
            None
        }
    }

    /// Every source.
    pub fn value_variants() -> (v: Vec<Source>)
        ensures
            v@ == all_sources(),
    {
        vec![Source::Rapl, Source::Perf, Source::Nvml, Source::AmdSmi, Source::Procfs, Source::Cgroup]
    }
}

/// The name of every source reads back as that source.
pub proof fn law_source_name_round_trip(s: Source)
    ensures
        source_of_name(source_name(s)) == Some(s),
{
    reveal_strlit("rapl");
    reveal_strlit("perf");
    reveal_strlit("perf_event");
    reveal_strlit("nvml");
    reveal_strlit("amdsmi");
    reveal_strlit("procfs");
    reveal_strlit("cgroup");
    let (a, b, c, d, e, f) = ("rapl"@, "perf"@, "nvml"@, "amdsmi"@, "procfs"@, "cgroup"@);
    assert(a[0] == 'r' && b[0] == 'p' && c[0] == 'n' && d[0] == 'a' && e[0] == 'p' && f[0] == 'c');
    assert(b.len() == 4 && e.len() == 6 && d.len() == 6 && f.len() == 6);
    assert(a != b && a != c && b != c);
    assert("perf_event"@.len() == 10);
}

/// The message for a source given twice on the command line.
pub open spec fn duplicate_message(s: Source) -> Seq<char> {
    "Duplicate source specified: "@ + source_name(s) + ""@
}

/// The first source that repeats an earlier one, if any.
pub open spec fn first_repeat(s: Seq<Source>) -> Option<Source>
    decreases s.len(),
{
    if s.len() == 0 {
        None
    } else {
        match first_repeat(s.drop_last()) {
            Some(x) => Some(x),
            None => if s.drop_last().contains(s.last()) {
                Some(s.last())
            } else {
                None
            },
        }
    }
}

/// Checks that no source is given twice; the error
/// names the first source that repeats an earlier one.
pub fn validate(sources: &Vec<Source>) -> (r: Result<(), String>)
    ensures
        match first_repeat(sources@) {
            None => r is Ok,
            Some(s) => r matches Err(m) && m@ == duplicate_message(s),
        },
{
    let mut k: usize = 0;
    while k < sources.len()
        invariant
            k <= sources@.len(),
            first_repeat(sources@.take(k as int)) is None,
        decreases sources@.len() - k,
    {
        let mut j: usize = 0;
        while j < k
            invariant
                j <= k < sources@.len(),
                first_repeat(sources@.take(k as int)) is None,
                forall|i: int| 0 <= i < j ==> sources@[i] != sources@[k as int],
            decreases k - j,
        {
            if sources[j] == sources[k] {
                proof {
                    let pre = sources@.take(k as int);
                    assert(sources@.take(k + 1).drop_last() =~= pre);
                    assert(pre[j as int] == sources@[k as int]);
                    assert(pre.contains(sources@[k as int]));
                    assert(sources@.take(k + 1).last() == sources@[k as int]);
                    assert(first_repeat(sources@.take(k + 1)) == Some(sources@[k as int]));
                    lemma_first_repeat_prefix(sources@, k + 1);
                }
                return Err(concat3("Duplicate source specified: ", sources[k].name(), ""));
            }
            j = j + 1;
        }
        proof {
            let pre = sources@.take(k as int);
            assert(sources@.take(k + 1).drop_last() =~= pre);
            assert(!pre.contains(sources@[k as int])) by {
                if pre.contains(sources@[k as int]) {
                    let i = choose|i: int| 0 <= i < pre.len() && pre[i] == sources@[k as int];
                    assert(sources@[i] != sources@[k as int]);
                }
            }
        }
        k = k + 1;
    }
    proof {
        assert(sources@.take(sources@.len() as int) =~= sources@);
    }
    Ok(())
}

/// A repeat in a prefix is the first repeat of the whole sequence.
proof fn lemma_first_repeat_prefix(s: Seq<Source>, n: int)
    requires
        0 <= n <= s.len(),
        first_repeat(s.take(n)) is Some,
    ensures
        first_repeat(s) == first_repeat(s.take(n)),
    decreases s.len() - n,
{
    if n < s.len() {
        assert(s.take(n + 1).drop_last() =~= s.take(n));
        lemma_first_repeat_prefix(s, n + 1);
    } else {
        assert(s.take(n) =~= s);
    }
}

/// An output format of the results.
#[derive(Debug, Clone, Copy, PartialEq, Eq, Structural)]
pub enum OutputFormat {
    Terminal,
    Json,
    Csv,
}

/// The display name of an output format.
pub open spec fn format_display(f: OutputFormat) -> Seq<char> {
    match f {
        OutputFormat::Terminal => "Terminal"@,
        OutputFormat::Json => "Json"@,
        OutputFormat::Csv => "CSV"@,
    }
}

/// The output format a name names, in a configuration file or on the
/// command line.
pub open spec fn format_of_name(n: Seq<char>) -> Option<OutputFormat> {
    if n == "Terminal"@ || n == "terminal"@ || n == "term"@ || n == "TERM"@ {
        Some(OutputFormat::Terminal)
    } else if n == "Json"@ || n == "json"@ || n == "JSON"@ {
        Some(OutputFormat::Json)
    } else if n == "Csv"@ || n == "csv"@ || n == "CSV"@ {
        Some(OutputFormat::Csv)
    } else {
        None
    }
}

fn is_one_of(v: &Vec<char>, a: &str, b: &str, c: &str) -> (r: bool)
    ensures
        r == (v@ == a@ || v@ == b@ || v@ == c@),
{
    chars_equal(v, &chars_of(a)) || chars_equal(v, &chars_of(b)) || chars_equal(v, &chars_of(c))
}

/// The display name of every output format reads back as that format.
pub proof fn law_output_format_round_trip(f: OutputFormat)
    ensures
        format_of_name(format_display(f)) == Some(f),
{
    reveal_strlit("Terminal");
    reveal_strlit("terminal");
    reveal_strlit("term");
    reveal_strlit("TERM");
    reveal_strlit("Json");
    reveal_strlit("json");
    reveal_strlit("JSON");
    reveal_strlit("Csv");
    reveal_strlit("csv");
    reveal_strlit("CSV");
    let (j, c) = ("Json"@, "CSV"@);
    let (t1, t2, t3, t4) = ("Terminal"@, "terminal"@, "term"@, "TERM"@);
    let (j2, j3) = ("json"@, "JSON"@);
    assert(j[0] == 'J' && c[0] == 'C' && j2[0] == 'j' && j3[0] == 'J');
    assert(t1[0] == 'T' && t2[0] == 't' && t3[0] == 't' && t4[0] == 'T');
    assert(j != t1 && j != t2 && j != t3 && j != t4);
    assert(c != t1 && c != t2 && c != t3 && c != t4 && c != j && c != j2 && c != j3);
}

impl OutputFormat {
    /// The display name of the format (its `Display` text).
    pub fn display_name(self) -> (s: &'static str)
        ensures
            s@ == format_display(self),
    {
        match self {
            OutputFormat::Terminal => "Terminal",
            OutputFormat::Json => "Json",
            OutputFormat::Csv => "CSV",
        }
    }

    /// The format a name names, if any.
    pub fn from_name(name: &str) -> (r: Option<OutputFormat>)
        ensures
            r == format_of_name(name@),
    {
        let v = chars_of(name);
        if is_one_of(&v, "Terminal", "terminal", "term") || chars_equal(&v, &chars_of("TERM")) {
            Some(OutputFormat::Terminal)
        } else if is_one_of(&v, "Json", "json", "JSON") {
            Some(OutputFormat::Json)
        } else if is_one_of(&v, "Csv", "csv", "CSV") {
            Some(OutputFormat::Csv)
        } else {
            None
        }
    }
}

impl Default for OutputFormat {
    fn default() -> (f: Self)
        ensures
            f == OutputFormat::Terminal,
    {
        OutputFormat::Terminal
    }
}

/// The backend of the RAPL source.
#[derive(Debug, Clone, Copy, PartialEq, Eq, Structural)]
pub enum RaplBackend {
    Perf,
    Powercap,
}

impl Default for RaplBackend {
    fn default() -> (b: Self)
        ensures
            b == RaplBackend::Perf,
    {
        RaplBackend::Perf
    }
}

} // verus!

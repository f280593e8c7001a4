//! The profiler configuration, the command line that overrides it, and the
//! table of source configurations the sources are built from.

use vstd::prelude::*;

use crate::cli::options::{
    OutputFormat, RaplBackend, Source, all_sources, source_name,
};
use crate::cli::overrides::ConfigOverride;
use crate::profiling::results::name_lt;
use crate::text::{chars_equal, chars_of, push_all, string_of};
use crate::time::Duration;

verus! {

/// The default phase token pattern.
pub const DEFAULT_TOKEN_PATTERN: &'static str = "__[A-Z0-9_]+__";

/// The default time allowed to initialize the sources, in seconds.
pub const DEFAULT_INIT_TIMEOUT_S: u64 = 1;

/// The default time allowed to initialize the sources.
pub fn default_timeout() -> (d: Duration)
    ensures
        d.nanos == DEFAULT_INIT_TIMEOUT_S * 1_000_000_000,
{
    Duration::from_secs(DEFAULT_INIT_TIMEOUT_S)
}

/// The default phase token pattern.
pub fn default_token_pattern() -> (s: String)
    ensures
        s@ == DEFAULT_TOKEN_PATTERN@,
{
    DEFAULT_TOKEN_PATTERN.to_owned()
}

/// The configuration of the profiler.
#[derive(Debug)]
pub struct ProfilerConfig {
    /// A file to write the profiled program's output to.
    pub stdout_file: Option<String>,
    /// The pattern of the phase tokens in the program's output.
    pub token_pattern: String,
    /// Whether the program runs with root privileges when the profiler has
    /// them.
    pub use_root: bool,
    /// The file of CSV or JSON results.
    pub output_file: Option<String>,
    /// The format of the results.
    pub output_format: OutputFormat,
    /// The time allowed to initialize the sources.
    pub init_timeout: Duration,
    /// The backend of the RAPL source.
    pub rapl_backend: RaplBackend,
}

impl Default for ProfilerConfig {
    fn default() -> (c: Self)
        ensures
            c.stdout_file is None,
            c.token_pattern@ == DEFAULT_TOKEN_PATTERN@,
            !c.use_root,
            c.output_file is None,
            c.output_format == OutputFormat::Terminal,
            c.init_timeout.nanos == DEFAULT_INIT_TIMEOUT_S * 1_000_000_000,
            c.rapl_backend == RaplBackend::Perf,
    {
        ProfilerConfig {
            token_pattern: default_token_pattern(),
            init_timeout: default_timeout(),
            output_format: OutputFormat::Terminal,
            rapl_backend: RaplBackend::Perf,
            use_root: false,
            stdout_file: None,
            output_file: None,
        }
    }
}

/// The arguments of the `profile` command.
#[derive(Debug)]
pub struct ProfileArgs {
    pub token_pattern: Option<String>,
    pub stdout_file: Option<String>,
    pub cmd: Vec<String>,
    pub rapl_polling: Option<Duration>,
    pub use_root: bool,
    pub init_timeout: Option<Duration>,
}

impl Default for ProfileArgs {
    fn default() -> (a: Self)
        ensures
            a.token_pattern is None,
            a.stdout_file is None,
            a.cmd@.len() == 0,
            a.rapl_polling is None,
            !a.use_root,
            a.init_timeout is None,
    {
        ProfileArgs {
            token_pattern: None,
            stdout_file: None,
            cmd: Vec::new(),
            rapl_polling: None,
            use_root: false,
            init_timeout: None,
        }
    }
}

/// A command of the profiler.
#[derive(Debug)]
pub enum ProfilerCommand {
    /// Runs a command and profiles it.
    Profile(ProfileArgs),
    /// Lists the available sensors.
    ListSensors,
    /// Writes the completion script of a shell.
    Completions { shell: String },
}

/// The command line of the profiler.
pub struct CliArgs {
    pub verbose: u8,
    pub output_format: Option<OutputFormat>,
    pub output_file: Option<String>,
    pub sources: Vec<Source>,
    pub overrides: Vec<ConfigOverride>,
    pub config_file: Option<String>,
    pub command: ProfilerCommand,
}

/// What the profiler needs to profile a command.
#[derive(Debug)]
pub struct ProfileConfig {
    /// The command and its arguments.
    pub cmd: Vec<String>,
    /// A file to write the profiled program's output to.
    pub stdout_file: Option<String>,
    /// The pattern of the phase tokens in the program's output.
    pub token_pattern: String,
    /// Whether the program runs with root privileges when the profiler has
    /// them.
    pub use_root: bool,
    /// The time allowed to initialize the sources.
    pub init_timeout: Duration,
}

/// What the profiler is to do.
#[derive(Debug)]
pub enum Command {
    /// Profile a command.
    Profile(ProfileConfig),
    /// List the available sensors.
    ListSensors,
    /// Write the completion script of a shell.
    Completions { shell: String },
}

/// The resolved configuration of a run.
#[derive(Debug)]
pub struct Config {
    pub command: Command,
}

/// The configuration of a source, and whether a failure to build it is
/// skipped.
#[derive(Debug, Default)]
pub struct MetricSourceConfig<T> {
    pub inner: T,
    pub ignore_on_failure: bool,
}

/// The outcome of building a source: the
/// source, or its error, unless the error is skipped.
pub fn settle_build<R, E>(built: Result<R, E>, ignore_on_failure: bool) -> (r: Result<Option<R>, E>)
    ensures
        match built {
            Ok(x) => r == Ok::<Option<R>, E>(Some(x)),
            Err(e) => if ignore_on_failure {
                r == Ok::<Option<R>, E>(None)
            } else {
                r == Err::<Option<R>, E>(e)
            },
        },
{
    match built {
        Ok(x) => Ok(Some(x)),
        Err(e) => if ignore_on_failure {
            Ok(None)
        } else {
            Err(e)
        },
    }
}

/// The configuration loaded from the file and the overrides.
pub struct GlobalConfig {
    pub profiler: ProfilerConfig,
    /// The section of each source, by source id, each id once.
    pub sources: Vec<(String, toml::Value)>,
}

/// The ids of sections.
pub open spec fn section_ids(s: Seq<(String, toml::Value)>) -> Seq<Seq<char>> {
    s.map_values(|x: (String, toml::Value)| x.0@)
}

/// The names of sources.
pub open spec fn source_names(s: Seq<Source>) -> Seq<Seq<char>> {
    s.map_values(|x: Source| source_name(x))
}

/// The table the sources are built from.
pub struct ConfigTable {
    pub profiler_config: ProfilerConfig,
    /// The sections not taken yet, by source id.
    pub sources_config: Vec<(String, toml::Value)>,
    /// The ids of the enabled sources.
    pub enabled_sources: Vec<String>,
}

/// The ids of strings.
pub open spec fn ids(s: Seq<String>) -> Seq<Seq<char>> {
    s.map_values(|x: String| x@)
}

/// The text of the list `s`, separated by `sep`.
pub open spec fn join(s: Seq<Seq<char>>, sep: Seq<char>) -> Seq<char>
    decreases s.len(),
{
    if s.len() == 0 {
        seq![]
    } else if s.len() == 1 {
        s[0]
    } else {
        join(s.drop_last(), sep) + sep + s.last()
    }
}

/// `x` inserted after the names that do not sort after it.
pub open spec fn insert_name(s: Seq<Seq<char>>, x: Seq<char>) -> Seq<Seq<char>>
    decreases s.len(),
{
    if s.len() == 0 {
        seq![x]
    } else if name_lt(x, s.last()) {
        insert_name(s.drop_last(), x).push(s.last())
    } else {
        s.push(x)
    }
}

/// The names in sorted order.
pub open spec fn sort_names(s: Seq<Seq<char>>) -> Seq<Seq<char>>
    decreases s.len(),
{
    if s.len() == 0 {
        seq![]
    } else {
        insert_name(sort_names(s.drop_last()), s.last())
    }
}

/// The message for sections no source claimed.
pub open spec fn unknown_sources_message(unknown: Seq<Seq<char>>) -> Seq<char> {
    "unknown metric source `"@ + join(sort_names(unknown), "`, `"@) + "`. Available sources: "@ + join(
        source_names(all_sources()),
        ", "@,
    ) + "."@
}

pub(crate) fn join_exec(s: &Vec<Vec<char>>, sep: &str) -> (r: Vec<char>)
    ensures
        r@ == join(s@.map_values(|x: Vec<char>| x@), sep@),
{
    let ghost view = s@.map_values(|x: Vec<char>| x@);
    let sv = chars_of(sep);
    let mut out: Vec<char> = Vec::new();
    let mut k: usize = 0;
    while k < s.len()
        invariant
            k <= s@.len(),
            view == s@.map_values(|x: Vec<char>| x@),
            sv@ == sep@,
            out@ == join(view.take(k as int), sep@),
        decreases s@.len() - k,
    {
        proof {
            assert(view.take(k + 1).drop_last() =~= view.take(k as int));
            assert(view.take(k + 1).last() == s@[k as int]@);
        }
        if k > 0 {
            push_all(&mut out, &sv);
        } else {
            assert(view.take(1)[0] == s@[0]@);
        }
        push_all(&mut out, &s[k]);
        k = k + 1;
    }
    proof {
        assert(view.take(s@.len() as int) =~= view);
    }
    out
}

/// Inserting after the names that do not sort after it, seen from the end.
proof fn lemma_insert_name_split(s: Seq<Seq<char>>, x: Seq<char>, j: int)
    requires
        0 <= j <= s.len(),
        forall|k: int| j <= k < s.len() ==> name_lt(x, #[trigger] s[k]),
    ensures
        insert_name(s, x) == insert_name(s.take(j), x) + s.skip(j),
    decreases s.len() - j,
{
    if j < s.len() {
        let t = s.drop_last();
        lemma_insert_name_split(t, x, j);
        assert(t.take(j) =~= s.take(j));
        assert(s.skip(j) =~= t.skip(j).push(s.last()));
    } else {
        assert(s.take(j) =~= s);
        assert(s.skip(j) =~= Seq::<Seq<char>>::empty());
    }
}

/// Sorts names.
fn sort_names_exec(names: &Vec<Vec<char>>) -> (r: Vec<Vec<char>>)
    ensures
        r@.map_values(|x: Vec<char>| x@) == sort_names(names@.map_values(|x: Vec<char>| x@)),
{
    let ghost input = names@.map_values(|x: Vec<char>| x@);
    let mut out: Vec<Vec<char>> = Vec::new();
    let mut k: usize = 0;
    while k < names.len()
        invariant
            k <= names@.len(),
            input == names@.map_values(|x: Vec<char>| x@),
            out@.map_values(|x: Vec<char>| x@) == sort_names(input.take(k as int)),
        decreases names@.len() - k,
    {
        let x = names[k].clone();
        let ghost sorted = out@.map_values(|y: Vec<char>| y@);
        let mut j = out.len();
        while j > 0 && crate::profiling::results::name_less(&x, &out[j - 1])
            invariant
                j <= out@.len(),
                sorted == out@.map_values(|y: Vec<char>| y@),
                x@ == input[k as int],
                forall|i: int| j <= i < sorted.len() ==> name_lt(x@, #[trigger] sorted[i]),
            decreases j,
        {
            j = j - 1;
        }
        proof {
            lemma_insert_name_split(sorted, x@, j as int);
            let front = sorted.take(j as int);
            if j > 0 {
                assert(front.drop_last() =~= sorted.take(j - 1));
                assert(insert_name(front, x@) == front.push(x@));
            } else {
                assert(insert_name(front, x@) == seq![x@]);
            }
            assert(input.take(k + 1).drop_last() =~= input.take(k as int));
            assert(input.take(k + 1).last() == x@);
        }
        out.insert(j, x);
        proof {
            assert(out@.map_values(|y: Vec<char>| y@) =~= sorted.take(j as int).push(x@) + sorted.skip(
                j as int,
            ));
        }
        k = k + 1;
    }
    proof {
        assert(input.take(names@.len() as int) =~= input);
    }
    out
}

fn contains_id(v: &Vec<String>, id: &Vec<char>) -> (b: bool)
    ensures
        b == ids(v@).contains(id@),
{
    let mut k: usize = 0;
    while k < v.len()
        invariant
            k <= v@.len(),
            forall|i: int| 0 <= i < k ==> v@[i]@ != id@,
        decreases v@.len() - k,
    {
        if chars_equal(&chars_of(v[k].as_str()), id) {
            assert(ids(v@)[k as int] == id@);
            return true;
        }
        k = k + 1;
    }
    proof {
        if ids(v@).contains(id@) {
            let i = choose|i: int| 0 <= i < ids(v@).len() && ids(v@)[i] == id@;
            assert(v@[i]@ == id@);
        }
    }
    false
}

fn section_index(v: &Vec<(String, toml::Value)>, id: &Vec<char>) -> (r: Option<usize>)
    ensures
        match r {
            Some(i) => i < v@.len() && v@[i as int].0@ == id@,
            None => !section_ids(v@).contains(id@),
        },
{
    let mut k: usize = 0;
    while k < v.len()
        invariant
            k <= v@.len(),
            forall|i: int| 0 <= i < k ==> v@[i].0@ != id@,
        decreases v@.len() - k,
    {
        if chars_equal(&chars_of(v[k].0.as_str()), id) {
            return Some(k);
        }
        k = k + 1;
    }
    proof {
        if section_ids(v@).contains(id@) {
            let i = choose|i: int| 0 <= i < section_ids(v@).len() && section_ids(v@)[i] == id@;
            assert(v@[i].0@ == id@);
        }
    }
    None
}

impl ConfigTable {
    /// The table of a configuration: the enabled
    /// sources are those with a section and those given on the command line.
    pub fn new(global_config: GlobalConfig, sources: &Vec<Source>) -> (t: Self)
        ensures
            ids(t.enabled_sources@).to_set() == section_ids(global_config.sources@).to_set().union(
                source_names(sources@).to_set(),
            ),
            section_ids(t.sources_config@) == section_ids(global_config.sources@),
    {
        let mut enabled: Vec<String> = Vec::new();
        let ghost sec = section_ids(global_config.sources@);
        let mut k: usize = 0;
        while k < global_config.sources.len()
            invariant
                k <= global_config.sources@.len(),
                sec == section_ids(global_config.sources@),
                ids(enabled@) == sec.take(k as int),
            decreases global_config.sources@.len() - k,
        {
            let ghost before = enabled@;
            let id = global_config.sources[k].0.clone();
            assert(id@ == sec[k as int]);
            enabled.push(id);
            proof {
                assert(ids(enabled@) =~= ids(before).push(sec[k as int]));
                assert(ids(enabled@) =~= sec.take(k + 1));
            }
            k = k + 1;
        }
        proof {
            assert(sec.take(sec.len() as int) =~= sec);
        }
        let ghost names = source_names(sources@);
        let mut j: usize = 0;
        while j < sources.len()
            invariant
                j <= sources@.len(),
                names == source_names(sources@),
                ids(enabled@) == sec + names.take(j as int),
            decreases sources@.len() - j,
        {
            let ghost before = enabled@;
            let n = sources[j].name().to_owned();
            assert(n@ == names[j as int]);
            enabled.push(n);
            proof {
                assert(ids(enabled@) =~= ids(before).push(names[j as int]));
                assert(ids(enabled@) =~= sec + names.take(j + 1));
            }
            j = j + 1;
        }
        proof {
            assert(names.take(names.len() as int) =~= names);
            assert(ids(enabled@).to_set() =~= sec.to_set().union(names.to_set())) by {
                assert forall|x: Seq<char>| ids(enabled@).to_set().contains(x) <==> (sec.to_set().contains(x)
                    || names.to_set().contains(x)) by {
                    let all = sec + names;
                    if all.contains(x) {
                        let i = choose|i: int| 0 <= i < all.len() && all[i] == x;
                        if i < sec.len() {
                            assert(sec[i] == x);
                        } else {
                            assert(names[i - sec.len()] == x);
                        }
                    }
                    if sec.contains(x) {
                        let i = choose|i: int| 0 <= i < sec.len() && sec[i] == x;
                        assert(all[i] == x);
                    }
                    if names.contains(x) {
                        let i = choose|i: int| 0 <= i < names.len() && names[i] == x;
                        assert(all[sec.len() + i] == x);
                    }
                }
            }
        }
        ConfigTable {
            profiler_config: global_config.profiler,
            sources_config: global_config.sources,
            enabled_sources: enabled,
        }
    }

    /// Whether the source `id` is enabled.
    pub fn is_enabled(&self, id: &str) -> (b: bool)
        ensures
            b == ids(self.enabled_sources@).contains(id@),
    {
        contains_id(&self.enabled_sources, &chars_of(id))
    }

    /// Takes the section of an enabled source out of the table:
    /// `None` when the source is not
    /// enabled; otherwise its section, if it has one. A taken section is no
    /// longer in the table.
    pub fn take_section(&mut self, id: &str) -> (r: Option<Option<toml::Value>>)
        ensures
            !ids(old(self).enabled_sources@).contains(id@) ==> r is None && final(self).sources_config@
                == old(self).sources_config@,
            ids(old(self).enabled_sources@).contains(id@) ==> r is Some,
            r matches Some(None) ==> !section_ids(old(self).sources_config@).contains(id@)
                && final(self).sources_config@ == old(self).sources_config@,
            r matches Some(Some(_)) ==> exists|i: int|
                0 <= i < old(self).sources_config@.len() && (#[trigger] old(self).sources_config@[i]).0@
                    == id@ && final(self).sources_config@ == old(self).sources_config@.remove(i),
            final(self).enabled_sources@ == old(self).enabled_sources@,
    {
        let v = chars_of(id);
        if !contains_id(&self.enabled_sources, &v) {
            return None;
        }
        match section_index(&self.sources_config, &v) {
            None => Some(None),
            Some(i) => {
                let (_, value) = self.sources_config.remove(i);
                Some(Some(value))
            },
        }
    }

    /// Applies the command-line options that have no configuration key:
    /// each option given replaces the
    /// configured value and is taken out of the command line; `use_root`
    /// can only be turned on.
    pub fn apply_cli(&mut self, cli: &mut CliArgs)
        ensures
            final(self).profiler_config.output_format == match old(cli).output_format {
                Some(f) => f,
                None => old(self).profiler_config.output_format,
            },
            final(cli).output_format is None,
            match old(cli).output_file {
                Some(f) => final(self).profiler_config.output_file matches Some(g) && g@ == f@,
                None => final(self).profiler_config.output_file == old(self).profiler_config.output_file,
            },
            final(cli).output_file is None,
            match old(cli).command {
                ProfilerCommand::Profile(a) => {
                    &&& match a.stdout_file {
                        Some(f) => final(self).profiler_config.stdout_file matches Some(g) && g@ == f@,
                        None => final(self).profiler_config.stdout_file
                            == old(self).profiler_config.stdout_file,
                    }
                    &&& match a.token_pattern {
                        Some(p) => final(self).profiler_config.token_pattern@ == p@,
                        None => final(self).profiler_config.token_pattern@
                            == old(self).profiler_config.token_pattern@,
                    }
                    &&& final(self).profiler_config.init_timeout == match a.init_timeout {
                        Some(t) => t,
                        None => old(self).profiler_config.init_timeout,
                    }
                    &&& final(self).profiler_config.use_root == (old(
                        self,
                    ).profiler_config.use_root || a.use_root)
                    &&& final(cli).command matches ProfilerCommand::Profile(b) && b.stdout_file is None
                        && b.token_pattern is None && b.init_timeout is None && b.cmd@ == a.cmd@
                        && b.use_root == a.use_root && b.rapl_polling == a.rapl_polling
                },
                _ => {
                    &&& final(cli).command == old(cli).command
                    &&& final(self).profiler_config.stdout_file == old(self).profiler_config.stdout_file
                    &&& final(self).profiler_config.token_pattern == old(
                        self,
                    ).profiler_config.token_pattern
                    &&& final(self).profiler_config.init_timeout == old(
                        self,
                    ).profiler_config.init_timeout
                    &&& final(self).profiler_config.use_root == old(self).profiler_config.use_root
                },
            },
            final(self).profiler_config.rapl_backend == old(self).profiler_config.rapl_backend,
            final(self).sources_config@ == old(self).sources_config@,
            final(self).enabled_sources@ == old(self).enabled_sources@,
            final(cli).sources@ == old(cli).sources@,
            final(cli).verbose == old(cli).verbose,
            final(cli).overrides@ == old(cli).overrides@,
            final(cli).config_file == old(cli).config_file,
    {
        if let Some(output_format) = cli.output_format.take() {
            self.profiler_config.output_format = output_format;
        }
        if let Some(output_file) = cli.output_file.take() {
            self.profiler_config.output_file = Some(output_file);
        }
        match &mut cli.command {
            ProfilerCommand::Profile(profile_args) => {
                if let Some(stdout_file) = profile_args.stdout_file.take() {
                    self.profiler_config.stdout_file = Some(stdout_file);
                }
                if let Some(token_pattern) = profile_args.token_pattern.take() {
                    self.profiler_config.token_pattern = token_pattern;
                }
                if let Some(init_timeout) = profile_args.init_timeout.take() {
                    self.profiler_config.init_timeout = init_timeout;
                }
                self.profiler_config.use_root = self.profiler_config.use_root
                    || profile_args.use_root;
            },
            _ => {},
        }
    }

    /// Fails on the sections no source claimed;
    /// the message lists them,
    /// sorted, with the sources that exist.
    pub fn ensure_sources_are_known(&self) -> (r: Result<(), String>)
        ensures
            self.sources_config@.len() == 0 <==> r is Ok,
            r matches Err(m) ==> m@ == unknown_sources_message(section_ids(self.sources_config@)),
    {
        if self.sources_config.len() == 0 {
            return Ok(());
        }
        let mut unknown: Vec<Vec<char>> = Vec::new();
        let mut k: usize = 0;
        while k < self.sources_config.len()
            invariant
                k <= self.sources_config@.len(),
                unknown@.map_values(|x: Vec<char>| x@) == section_ids(self.sources_config@).take(
                    k as int,
                ),
            decreases self.sources_config@.len() - k,
        {
            let ghost before = unknown@;
            let u = chars_of(self.sources_config[k].0.as_str());
            assert(u@ == section_ids(self.sources_config@)[k as int]);
            unknown.push(u);
            proof {
                assert(unknown@.map_values(|x: Vec<char>| x@) =~= before.map_values(|x: Vec<char>| x@).push(u@));
                assert(unknown@.map_values(|x: Vec<char>| x@) =~= section_ids(
                    self.sources_config@,
                ).take(k + 1));
            }
            k = k + 1;
        }
        proof {
            assert(section_ids(self.sources_config@).take(self.sources_config@.len() as int)
                =~= section_ids(self.sources_config@));
        }
        let sorted = sort_names_exec(&unknown);
        let all = Source::value_variants();
        let mut known: Vec<Vec<char>> = Vec::new();
        let mut j: usize = 0;
        while j < all.len()
            invariant
                j <= all@.len(),
                all@ == all_sources(),
                known@.map_values(|x: Vec<char>| x@) == source_names(all@).take(j as int),
            decreases all@.len() - j,
        {
            let ghost before = known@;
            let n = chars_of(all[j].name());
            assert(n@ == source_names(all@)[j as int]);
            known.push(n);
            proof {
                assert(known@.map_values(|x: Vec<char>| x@) =~= before.map_values(|x: Vec<char>| x@).push(n@));
                assert(known@.map_values(|x: Vec<char>| x@) =~= source_names(all@).take(j + 1));
            }
            j = j + 1;
        }
        proof {
            assert(source_names(all@).take(all@.len() as int) =~= source_names(all@));
        }
        let mut msg = chars_of("unknown metric source `");
        push_all(&mut msg, &join_exec(&sorted, "`, `"));
        push_all(&mut msg, &chars_of("`. Available sources: "));
        push_all(&mut msg, &join_exec(&known, ", "));
        push_all(&mut msg, &chars_of("."));
        Err(string_of(msg))
    }
}

impl ConfigTable {
    /// The configuration of the run: for the
    /// `profile` command, its command line with the output file, token
    /// pattern, privileges and initialization timeout resolved in the
    /// profiler configuration; the other commands as they are.
    pub fn to_config(self, cli: CliArgs) -> (r: Config)
        ensures
            match (cli.command, r.command) {
                (ProfilerCommand::Profile(args), Command::Profile(p)) => {
                    &&& p.cmd@ == args.cmd@
                    &&& p.stdout_file == self.profiler_config.stdout_file
                    &&& p.token_pattern@ == self.profiler_config.token_pattern@
                    &&& p.use_root == self.profiler_config.use_root
                    &&& p.init_timeout == self.profiler_config.init_timeout
                },
                (ProfilerCommand::ListSensors, Command::ListSensors) => true,
                (ProfilerCommand::Completions { shell: a }, Command::Completions { shell: b }) => a@ == b@,
                _ => false,
            },
    {
        let command = match cli.command {
            ProfilerCommand::Profile(args) => Command::Profile(
                ProfileConfig {
                    cmd: args.cmd,
                    stdout_file: self.profiler_config.stdout_file,
                    token_pattern: self.profiler_config.token_pattern,
                    use_root: self.profiler_config.use_root,
                    init_timeout: self.profiler_config.init_timeout,
                },
            ),
            ProfilerCommand::ListSensors => Command::ListSensors,
            ProfilerCommand::Completions { shell } => Command::Completions { shell },
        };
        Config { command }
    }
}

} // verus!

use joule_profiler::cli::options::{validate, OutputFormat, RaplBackend, Source};
use joule_profiler::cli::overrides::{load_global_config, ConfigOverride};
use joule_profiler::cli::tree::ConfigNode;
use joule_profiler::cli::settings::{
    settle_build, CliArgs, Command, ConfigTable, GlobalConfig, ProfileArgs, ProfilerCommand, ProfilerConfig,
};
use joule_profiler::time::Duration;

fn config_table_with(profiler_config: ProfilerConfig) -> ConfigTable {
    ConfigTable { profiler_config, sources_config: Vec::new(), enabled_sources: Vec::new() }
}

fn cli_args(command: ProfilerCommand) -> CliArgs {
    CliArgs {
        verbose: 0,
        output_format: None,
        output_file: None,
        sources: Vec::new(),
        overrides: Vec::new(),
        config_file: None,
        command,
    }
}

fn cli_args_with_sources(sources: Vec<Source>) -> CliArgs {
    let mut cli = cli_args(ProfilerCommand::ListSensors);
    cli.sources = sources;
    cli
}

fn configured_profiler_config() -> ProfilerConfig {
    ProfilerConfig {
        stdout_file: Some("configured_stdout.txt".to_owned()),
        token_pattern: "__CONFIGURED__".to_owned(),
        use_root: false,
        output_file: Some("configured_output.json".to_owned()),
        output_format: OutputFormat::Json,
        init_timeout: Duration::from_secs(5),
        rapl_backend: RaplBackend::default(),
    }
}

fn table_value(s: &str) -> toml::Value {
    s.parse::<toml::Table>().map(toml::Value::Table).unwrap()
}

#[test]
fn profiler_config_uses_default_config_when_not_override() {
    let config = ProfilerConfig::default();

    assert_eq!(config.stdout_file, None);
    assert_eq!(config.output_file, None);
    assert_eq!(config.token_pattern, "__[A-Z0-9_]+__");
    assert_eq!(config.init_timeout, Duration::from_secs(1));
    assert!(!config.use_root);
    assert!(matches!(config.output_format, OutputFormat::Terminal));
}

#[test]
fn source_value_enum_accepts_perf_event_alias() {
    let parsed = Source::from_name("perf_event").unwrap();
    assert_eq!(parsed, Source::Perf);
}

#[test]
fn source_value_enum_accepts_canonical_names() {
    for source in Source::value_variants() {
        let parsed = Source::from_name(source.name()).unwrap();
        assert_eq!(parsed, source);
    }
}

#[test]
fn validate_rejects_duplicate_sources() {
    let source = Source::value_variants()[0];
    let cli = cli_args_with_sources(vec![source, source]);
    assert!(validate(&cli.sources).is_err());
}

#[test]
fn validate_accepts_distinct_sources() {
    let cli = cli_args_with_sources(Source::value_variants());
    assert!(validate(&cli.sources).is_ok());
}

#[test]
fn validate_names_the_repeated_source() {
    let err = validate(&vec![Source::Nvml, Source::Rapl, Source::Nvml]).unwrap_err();
    assert_eq!(err, "Duplicate source specified: nvml");
}

#[test]
fn output_formats_read_their_aliases() {
    assert_eq!(OutputFormat::from_name("term"), Some(OutputFormat::Terminal));
    assert_eq!(OutputFormat::from_name("JSON"), Some(OutputFormat::Json));
    assert_eq!(OutputFormat::from_name("csv"), Some(OutputFormat::Csv));
    assert_eq!(OutputFormat::from_name("xml"), None);
    assert_eq!(OutputFormat::Csv.display_name(), "CSV");
}

#[test]
fn new_enabled_sources_is_union_of_config_file_and_cli() {
    let from_cli = Source::value_variants()[0];
    let global = GlobalConfig {
        profiler: ProfilerConfig::default(),
        sources: vec![("from_file".to_owned(), table_value(""))],
    };

    let table = ConfigTable::new(global, &vec![from_cli]);

    assert!(table.is_enabled("from_file"));
    assert!(table.is_enabled(from_cli.name()));
    assert!(!table.is_enabled("not_configured"));
}

#[test]
fn new_enabled_sources_empty_by_default() {
    let global = GlobalConfig { profiler: ProfilerConfig::default(), sources: Vec::new() };
    let table = ConfigTable::new(global, &vec![]);
    assert!(table.enabled_sources.is_empty());
}

#[test]
fn apply_cli_with_no_overrides_keeps_the_base_config() {
    let mut table = config_table_with(configured_profiler_config());
    let mut cli = cli_args(ProfilerCommand::Profile(ProfileArgs {
        cmd: vec!["echo".to_owned()],
        ..Default::default()
    }));

    table.apply_cli(&mut cli);

    assert_eq!(table.profiler_config.stdout_file.as_deref(), Some("configured_stdout.txt"));
    assert_eq!(table.profiler_config.token_pattern, "__CONFIGURED__");
    assert_eq!(table.profiler_config.output_file.as_deref(), Some("configured_output.json"));
    assert!(matches!(table.profiler_config.output_format, OutputFormat::Json));
    assert_eq!(table.profiler_config.init_timeout, Duration::from_secs(5));
    assert!(!table.profiler_config.use_root);
}

#[test]
fn apply_cli_overrides_output_format_and_consumes_it() {
    let mut table = config_table_with(ProfilerConfig::default());
    let mut cli = cli_args(ProfilerCommand::ListSensors);
    cli.output_format = Some(OutputFormat::Csv);

    table.apply_cli(&mut cli);

    assert!(matches!(table.profiler_config.output_format, OutputFormat::Csv));
    assert!(cli.output_format.is_none());
}

#[test]
fn apply_cli_overrides_output_file_and_consumes_it() {
    let mut table = config_table_with(ProfilerConfig::default());
    let mut cli = cli_args(ProfilerCommand::ListSensors);
    cli.output_file = Some("cli_output.csv".to_owned());

    table.apply_cli(&mut cli);

    assert_eq!(table.profiler_config.output_file.as_deref(), Some("cli_output.csv"));
    assert!(cli.output_file.is_none());
}

#[test]
fn apply_cli_overrides_profile_only_fields_and_consumes_them() {
    let mut table = config_table_with(ProfilerConfig::default());
    let mut cli = cli_args(ProfilerCommand::Profile(ProfileArgs {
        cmd: vec!["sleep".to_owned(), "1".to_owned()],
        stdout_file: Some("cli_stdout.txt".to_owned()),
        token_pattern: Some("__CLI__".to_owned()),
        init_timeout: Some(Duration::from_secs(9)),
        use_root: true,
        rapl_polling: None,
    }));

    table.apply_cli(&mut cli);

    assert_eq!(table.profiler_config.stdout_file.as_deref(), Some("cli_stdout.txt"));
    assert_eq!(table.profiler_config.token_pattern, "__CLI__");
    assert_eq!(table.profiler_config.init_timeout, Duration::from_secs(9));
    assert!(table.profiler_config.use_root);

    let ProfilerCommand::Profile(args) = &cli.command else {
        panic!("expected a Profile command");
    };
    assert!(args.stdout_file.is_none());
    assert!(args.token_pattern.is_none());
    assert!(args.init_timeout.is_none());
}

#[test]
fn apply_cli_use_root_not_overwritten() {
    let mut table = config_table_with(ProfilerConfig { use_root: true, ..ProfilerConfig::default() });
    let mut cli = cli_args(ProfilerCommand::Profile(ProfileArgs {
        cmd: vec!["true".to_owned()],
        use_root: false,
        ..Default::default()
    }));

    table.apply_cli(&mut cli);

    assert!(table.profiler_config.use_root);
}

#[test]
fn build_source_returns_none_when_not_enabled() {
    let mut table = config_table_with(ProfilerConfig::default());
    assert!(table.take_section("mock").is_none());
}

#[test]
fn build_source_uses_default_config_when_no_section_present() {
    let mut table = config_table_with(ProfilerConfig::default());
    table.enabled_sources.push("mock".to_owned());
    assert!(matches!(table.take_section("mock"), Some(None)));
}

#[test]
fn build_source_uses_the_matching_config_section() {
    let mut table = config_table_with(ProfilerConfig::default());
    table.enabled_sources.push("mock".to_owned());
    table.sources_config.push(("mock".to_owned(), table_value("value = 42")));

    let section = table.take_section("mock").unwrap().unwrap();
    assert_eq!(section["value"], toml::Value::Integer(42));
    assert!(table.sources_config.is_empty());
}

#[test]
fn build_source_ignore_on_failure_ignores_the_error() {
    let built: Result<u32, &str> = Err("mock source failure");
    assert_eq!(settle_build(built, true), Ok(None));
}

#[test]
fn build_source_without_ignore_on_failure_propagates_the_error() {
    let built: Result<u32, &str> = Err("mock source failure");
    assert_eq!(settle_build(built, false), Err("mock source failure"));
    assert_eq!(settle_build::<u32, &str>(Ok(7), false), Ok(Some(7)));
}

#[test]
fn ensure_sources_are_known_accepts_a_fully_consumed_table() {
    let mut table = config_table_with(ProfilerConfig::default());
    table.enabled_sources.push("mock".to_owned());
    table.sources_config.push(("mock".to_owned(), table_value("value = 1")));

    table.take_section("mock");

    table.ensure_sources_are_known().unwrap();
}

#[test]
fn ensure_sources_are_known_rejects_an_unclaimed_source() {
    let mut table = config_table_with(ProfilerConfig::default());
    table.sources_config.push(("nope".to_owned(), table_value("value = 1")));
    table.sources_config.push(("anop".to_owned(), table_value("value = 1")));

    let err = table.ensure_sources_are_known().unwrap_err();

    assert!(err.contains("nope"));
    assert!(err.contains(Source::value_variants()[0].name()));
    assert_eq!(
        err,
        "unknown metric source `anop`, `nope`. Available sources: rapl, perf, nvml, amdsmi, procfs, cgroup."
    );
}

fn parse(s: &str) -> ConfigOverride {
    ConfigOverride::parse(s).unwrap()
}

/// The value of a leaf.
fn value(n: &ConfigNode) -> &toml::Value {
    match n {
        ConfigNode::Leaf(_, v) => v,
        ConfigNode::Table(_) => panic!("a table, not a value"),
    }
}

/// The node at `key` of a table.
fn at<'a>(n: &'a ConfigNode, key: &str) -> &'a ConfigNode {
    match n {
        ConfigNode::Table(es) => &es.iter().find(|(k, _)| k == key).expect("missing key").1,
        ConfigNode::Leaf(..) => panic!("a value, not a table"),
    }
}

fn applied(overrides: &[&str]) -> ConfigNode {
    let mut root = ConfigNode::Table(Vec::new());
    for raw in overrides {
        parse(raw).apply(&mut root).unwrap();
    }
    root
}

fn overrides(raw: &[&str]) -> Vec<ConfigOverride> {
    raw.iter().map(|s| parse(s)).collect()
}

#[test]
fn parses_a_dotted_key_path() {
    let parsed = parse("sources.rapl.rapl_path=/sys/class/powercap");

    assert_eq!(parsed.path, ["sources", "rapl", "rapl_path"]);
    assert_eq!(value(&parsed.value), &toml::Value::String("/sys/class/powercap".to_owned()));
}

#[test]
fn parses_toml_typed_values() {
    assert_eq!(value(&parse("a=42").value), &toml::Value::Integer(42));
    assert_eq!(value(&parse("a=false").value), &toml::Value::Boolean(false));
    assert_eq!(
        value(&parse("a=[0, 1]").value),
        &toml::Value::Array(vec![toml::Value::Integer(0), toml::Value::Integer(1)])
    );
}

#[test]
fn falls_back_to_a_string_value() {
    assert_eq!(value(&parse("a=10ms").value), &toml::Value::String("10ms".to_owned()));
    assert_eq!(value(&parse("a=__[A-Z]+__").value), &toml::Value::String("__[A-Z]+__".to_owned()));
}

#[test]
fn quoting_forces_a_string_value() {
    assert_eq!(value(&parse("a=\"42\"").value), &toml::Value::String("42".to_owned()));
}

#[test]
fn keeps_equal_signs_of_the_value() {
    assert_eq!(value(&parse("a=b=c").value), &toml::Value::String("b=c".to_owned()));
}

#[test]
fn rejects_a_value_less_override() {
    assert!(ConfigOverride::parse("profiler.use_root").is_err());
}

#[test]
fn rejects_an_empty_key_segment() {
    assert!(ConfigOverride::parse("sources..rapl=1").is_err());
    assert!(ConfigOverride::parse("=1").is_err());
}

#[test]
fn override_errors_name_the_override() {
    assert_eq!(
        ConfigOverride::parse("profiler.use_root").err().unwrap(),
        "expected KEY=VALUE, got `profiler.use_root`."
    );
    assert_eq!(
        ConfigOverride::parse("profiler..use_root=true").err().unwrap(),
        "`profiler..use_root` is not a valid configuration key."
    );
}

#[test]
fn parses_a_key_with_blanks_around_its_segments() {
    let o = parse(" sources . cgroup.create_cgroup =false");
    assert_eq!(o.path, vec!["sources", "cgroup", "create_cgroup"]);
    assert_eq!(value(&o.value), &toml::Value::Boolean(false));
}

#[test]
fn apply_creates_the_intermediate_tables() {
    let root = applied(&["sources.cgroup.create_cgroup=false"]);

    assert_eq!(value(at(at(at(&root, "sources"), "cgroup"), "create_cgroup")), &toml::Value::Boolean(false));
}

#[test]
fn apply_keeps_the_neighbouring_keys() {
    let root = applied(&[
        "sources.cgroup.cgroup_name=first",
        "sources.cgroup.create_cgroup=false",
        "sources.rapl.sockets_spec=[0]",
        "profiler.use_root=true",
    ]);

    let cgroup = at(at(&root, "sources"), "cgroup");
    assert_eq!(value(at(cgroup, "cgroup_name")), &toml::Value::String("first".to_owned()));
    assert_eq!(value(at(cgroup, "create_cgroup")), &toml::Value::Boolean(false));
    assert_eq!(value(at(at(at(&root, "sources"), "rapl"), "sockets_spec"))[0], toml::Value::Integer(0));
    assert_eq!(value(at(at(&root, "profiler"), "use_root")), &toml::Value::Boolean(true));
}

#[test]
fn apply_replaces_an_existing_value() {
    let root = applied(&["profiler.output_format=csv", "profiler.output_format=json"]);

    assert_eq!(value(at(at(&root, "profiler"), "output_format")), &toml::Value::String("json".to_owned()));
}

#[test]
fn apply_rejects_a_path_through_a_non_table() {
    let mut root = ConfigNode::Table(Vec::new());
    parse("profiler.use_root=true").apply(&mut root).unwrap();

    let err = parse("profiler.use_root.nested=1").apply(&mut root).unwrap_err();

    assert!(err.contains("profiler.use_root"));
    assert_eq!(
        err,
        "cannot override `profiler.use_root.nested`: `profiler.use_root` is a boolean, not a table."
    );
}

#[test]
fn apply_into_a_value_is_an_error() {
    let mut root = parse("a=1").value;
    let err = parse("b=2").apply(&mut root).unwrap_err();
    assert_eq!(err, "cannot override `b`: the configuration is not a table.");
}

#[test]
fn load_applies_overrides_without_a_config_file() {
    let tree = load_global_config(
        None,
        &overrides(&["profiler.token_pattern=__CLI__", "sources.cgroup.create_cgroup=false"]),
    )
    .unwrap();

    assert_eq!(value(at(at(&tree, "profiler"), "token_pattern")), &toml::Value::String("__CLI__".to_owned()));
    assert_eq!(value(at(at(at(&tree, "sources"), "cgroup"), "create_cgroup")), &toml::Value::Boolean(false));
}

#[test]
fn load_overrides_take_precedence_over_the_file() {
    let file = "[profiler]\ntoken_pattern = \"__FILE__\"\nuse_root = true\n\
                [sources.cgroup]\ncgroup_name = \"from-file\"\n";

    let tree = load_global_config(Some(file), &overrides(&["profiler.token_pattern=__CLI__"])).unwrap();

    assert_eq!(value(at(at(&tree, "profiler"), "token_pattern")), &toml::Value::String("__CLI__".to_owned()));
    assert_eq!(value(at(at(&tree, "profiler"), "use_root")), &toml::Value::Boolean(true));
    assert_eq!(
        value(at(at(at(&tree, "sources"), "cgroup"), "cgroup_name")),
        &toml::Value::String("from-file".to_owned())
    );
}

#[test]
fn load_overrides_a_source_absent_from_the_file() {
    let file = "[sources.rapl]\nsockets_spec = [0]\n";

    let tree = load_global_config(Some(file), &overrides(&["sources.cgroup.poll_interval=20ms"])).unwrap();

    assert_eq!(
        value(at(at(at(&tree, "sources"), "cgroup"), "poll_interval")),
        &toml::Value::String("20ms".to_owned())
    );
    assert_eq!(value(at(at(at(&tree, "sources"), "rapl"), "sockets_spec"))[0], toml::Value::Integer(0));
}

#[test]
fn load_reports_a_file_that_is_not_toml() {
    let err = load_global_config(Some("[profiler"), &Vec::new()).err().unwrap();
    assert_eq!(err, "error parsing configuration file");
}

#[test]
fn to_config_profile_reads_resolved_fields_from_profiler_config() {
    let table = config_table_with(configured_profiler_config());
    let cli = cli_args(ProfilerCommand::Profile(ProfileArgs {
        cmd: vec!["sleep".to_owned(), "1".to_owned()],
        ..Default::default()
    }));

    let config = table.to_config(cli);

    let Command::Profile(profile_config) = config.command else {
        panic!("expected a Profile command");
    };
    assert_eq!(profile_config.cmd, vec!["sleep".to_owned(), "1".to_owned()]);
    assert_eq!(profile_config.stdout_file.as_deref(), Some("configured_stdout.txt"));
    assert_eq!(profile_config.token_pattern, "__CONFIGURED__");
    assert_eq!(profile_config.init_timeout, Duration::from_secs(5));
    assert!(!profile_config.use_root);
}

#[test]
fn to_config_keeps_the_list_sensors_command() {
    let table = config_table_with(ProfilerConfig::default());
    assert!(matches!(table.to_config(cli_args(ProfilerCommand::ListSensors)).command, Command::ListSensors));
}

#[test]
fn output_format_display_names_read_back() {
    for f in [OutputFormat::Terminal, OutputFormat::Json, OutputFormat::Csv] {
        assert_eq!(OutputFormat::from_name(f.display_name()), Some(f));
    }
}

#[test]
fn a_rejected_override_leaves_the_tree_as_it_was() {
    let mut root = ConfigNode::Table(Vec::new());
    parse("profiler.use_root=true").apply(&mut root).unwrap();
    parse("profiler.depth.inner=1").apply(&mut root).unwrap();
    let before = format!("{:?}", root);
    assert!(parse("profiler.use_root.nested=1").apply(&mut root).is_err());
    assert_eq!(format!("{:?}", root), before);
    assert!(parse("profiler.depth.inner.deeper=2").apply(&mut root).is_err());
    assert_eq!(format!("{:?}", root), before);
}

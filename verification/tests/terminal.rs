use joule_profiler::terminal::TerminalExporter;
use joule_profiler::types::{AvailableSensor, Metric, MetricUnit, MetricValue, PhaseInfo, Unit, UnitPrefix};

fn chars(s: &str) -> Vec<char> {
    s.chars().collect()
}

fn info() -> PhaseInfo {
    PhaseInfo {
        phase_index: 0,
        start_token: "START".to_owned(),
        end_token: "__PHASE__".to_owned(),
        start_timestamp: 1_000,
        end_timestamp: 4_500,
    }
}

fn metric(source: &str, name: &str, value: MetricValue, timestamp: u128) -> Metric {
    Metric::at(
        name.to_owned(),
        value,
        MetricUnit { prefix: UnitPrefix::Micro, unit: Unit::Joule },
        source.to_owned(),
        timestamp,
    )
}

#[test]
fn header_is_a_double_lined_box_fifty_wide() {
    let lines = TerminalExporter::print_header(&chars("Title"));
    assert_eq!(lines.len(), 3);
    assert_eq!(lines[0], format!("╔{}╗", "═".repeat(48)));
    assert_eq!(lines[1], format!("║  {:<45} ║", "Title"));
    assert_eq!(lines[2], format!("╚{}╝", "═".repeat(48)));
    assert!(lines.iter().all(|l| l.chars().count() == 50));
}

#[test]
fn subheader_is_a_single_lined_box() {
    let lines = TerminalExporter::print_subheader(&chars("RAPL"));
    assert_eq!(lines[0], format!("┌{}┐", "─".repeat(48)));
    assert_eq!(lines[1], format!("│ {:<47}│", "RAPL"));
    assert_eq!(lines[2], format!("└{}┘", "─".repeat(48)));
}

#[test]
fn phase_header_shows_duration_and_tokens() {
    let lines = TerminalExporter::display_phase_header(&info());
    assert_eq!(lines.len(), 6);
    assert_eq!(lines[1], format!("║  {:<45} ║", "START -> __PHASE__"));
    assert_eq!(lines[3], "  Duration            :       3500 μs");
    assert_eq!(lines[4], format!("  {:<20}: {:>10}", "Start token", "START"));
    assert_eq!(lines[5], format!("  {:<20}: {:>10}", "End token", "__PHASE__"));
}

#[test]
fn metrics_are_grouped_by_source_in_ascending_order() {
    let metrics = vec![
        metric("RAPL", "PACKAGE-0", MetricValue::U64(42), 1_010),
        metric("NVML", "GPU-0", MetricValue::U64(7), 1_000),
        metric("RAPL", "DRAM-0", MetricValue::I64(-3), 1_020),
    ];
    let lines = TerminalExporter::display_metrics(&metrics, &info());
    assert_eq!(lines.len(), 1 + 3 + 1 + 3 + 2);
    assert_eq!(lines[0], "");
    assert_eq!(lines[2], format!("│ {:<47}│", "NVML"));
    assert_eq!(lines[4], format!("  {:<20}: {:>20} (delay={}μs)", "GPU-0", 7, 0));
    assert_eq!(lines[6], format!("│ {:<47}│", "RAPL"));
    assert_eq!(lines[8], format!("  {:<20}: {:>20} (delay={}μs)", "PACKAGE-0", 42, 10));
    assert_eq!(lines[9], format!("  {:<20}: {:>20} (delay={}μs)", "DRAM-0", -3, 20));
}

#[test]
fn print_sensors_without_sensors() {
    assert_eq!(TerminalExporter::print_sensors(&vec![]), vec!["No sensors available.".to_owned()]);
}

#[test]
fn print_sensors_lists_each_source_once() {
    let sensor = |name: &str, source: &str, prefix, unit| {
        AvailableSensor::new(name.to_owned(), MetricUnit { prefix, unit }, source.to_owned())
    };
    let sensors = vec![
        sensor("PACKAGE-0", "RAPL", UnitPrefix::Micro, Unit::Joule),
        sensor("GPU-0", "NVML", UnitPrefix::Milli, Unit::Joule),
        sensor("DRAM-0", "RAPL", UnitPrefix::Micro, Unit::Joule),
    ];
    let lines = TerminalExporter::print_sensors(&sensors);
    assert_eq!(lines.len(), 18);
    assert_eq!(lines[3], "");
    assert_eq!(lines[5], format!("│ {:<47}│", "NVML"));
    assert_eq!(lines[7], format!("  {:<20} | {:<5}", "Name", "Unit"));
    assert_eq!(lines[8], format!(" {}", "─".repeat(48)));
    assert_eq!(lines[9], format!("  {:<20} | {:<5}", "GPU-0", "mJ"));
    assert_eq!(lines[12], format!("│ {:<47}│", "RAPL"));
    assert_eq!(lines[16], format!("  {:<20} | {:<5}", "PACKAGE-0", "μJ"));
    assert_eq!(lines[17], format!("  {:<20} | {:<5}", "DRAM-0", "μJ"));
}

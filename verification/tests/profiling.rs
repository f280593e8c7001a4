use std::io::{BufRead, BufReader, Cursor};

use joule_profiler::profiling::detect::{strip_newline, LineEvent, LineScanner, PhasePattern};
use joule_profiler::profiling::export::ExportQueue;
use joule_profiler::profiling::files::default_results_filename;
use joule_profiler::profiling::inject::{trim_newlines, StdOutInjector};
use joule_profiler::profiling::phases::PhaseBook;
use joule_profiler::profiling::aggregate::{SensorPhase, SensorResult};
use joule_profiler::profiling::results::{
    assemble_phases, profiler_results, sort_metrics, DetectedPhase, LineAction, PhaseDetector, PhaseToken,
};
use joule_profiler::types::{Metric, MetricUnit, MetricValue, Phase, PhaseInfo, Unit, UnitPrefix};

/// Reads the output line by line as the profiler does, and collects the
/// detected tokens with their line numbers and the echoed lines.
fn collect_phases(output: &[u8], pattern: &str) -> (Vec<(String, usize)>, Vec<String>) {
    let pattern = PhasePattern::new(pattern).unwrap();
    let mut reader = BufReader::new(Cursor::new(output.to_vec()));
    let mut scanner = LineScanner::new();
    let mut phases = Vec::new();
    let mut echoed = Vec::new();
    loop {
        let mut raw = Vec::new();
        let n = reader.read_until(b'\n', &mut raw).unwrap();
        if n == 0 {
            break;
        }
        let line = String::from_utf8(raw).ok();
        match scanner.scan(&pattern, line.as_deref()) {
            LineEvent::Skip => {}
            LineEvent::Echo(l) => echoed.push(l),
            LineEvent::Token { line, token, line_number } => {
                echoed.push(line);
                phases.push((token, line_number));
            }
        }
    }
    (phases, echoed)
}

fn token_in_line(pattern: &str, line: &str) -> Option<String> {
    PhasePattern::new(pattern).unwrap().token_in_line(line)
}

#[test]
fn detect_multiple_phases() {
    let (phases, _) = collect_phases(b"__PHASE1__\n__PHASE2__\n__PHASE3__", "__[A-Z0-9_]+__");
    assert_eq!(3, phases.len());
    assert_eq!(phases[0].0, "__PHASE1__");
    assert_eq!(phases[1].0, "__PHASE2__");
    assert_eq!(phases[2].0, "__PHASE3__");
}

#[test]
fn detect_no_phases() {
    let (phases, _) = collect_phases(b"hello\nworld\nno phases here", "__[A-Z0-9_]+__");
    assert!(phases.is_empty());
}

#[test]
fn detect_empty_output() {
    let (phases, _) = collect_phases(b"", "__PHASE__");
    assert_eq!(phases.len(), 0);
}

#[test]
fn detect_phase_in_middle_of_line() {
    let (phases, _) = collect_phases(b"start __PHASE1__ end", "__PHASE[0-9]+__");
    assert_eq!(phases.len(), 1);
    assert_eq!(phases[0].0, "__PHASE1__");
    assert_eq!(phases[0].1, 0);
}

#[test]
fn detect_correct_line_numbers() {
    let (phases, _) = collect_phases(b"a\nb\n__PHASE1__\nc\n__PHASE2__", "__PHASE[0-9]+__");
    assert_eq!(phases.len(), 2);
    assert_eq!(phases[0].1, 2);
    assert_eq!(phases[1].1, 4);
}

#[test]
fn skips_invalid_utf8_lines() {
    let bytes = vec![0xff, 0xfe, b'\n', b'_', b'_', b'P', b'H', b'A', b'S', b'E', b'_', b'_'];
    let (phases, echoed) = collect_phases(&bytes, "__PHASE__");
    assert_eq!(phases.len(), 1);
    assert_eq!(phases[0].1, 1);
    assert_eq!(echoed, vec!["__PHASE__"]);
}

#[test]
fn echoed_lines_lose_their_line_ending() {
    let (_, echoed) = collect_phases(b"hello\r\n__PHASE__\nworld\r", "__PHASE__");
    assert_eq!(echoed, vec!["hello", "__PHASE__", "world\r"]);
    assert_eq!(strip_newline("a\r\r\n"), "a\r");
}

#[test]
fn phase_token_in_line_returns_none_when_no_match() {
    assert_eq!(token_in_line("X", "abc"), None);
}

#[test]
fn phase_token_in_line_returns_some_when_match_exists() {
    assert_eq!(token_in_line("X", "aXc").as_deref(), Some("X"));
}

#[test]
fn phase_token_in_line_returns_first_match_only() {
    assert_eq!(token_in_line("X", "XX").as_deref(), Some("X"));
}

#[test]
fn phase_token_in_line_does_not_trim_or_modify_input() {
    assert_eq!(token_in_line("X", "  X  ").as_deref(), Some("X"));
}

#[test]
fn phase_token_in_line_returns_slice_from_input() {
    let line = String::from("aXc");
    let token = token_in_line("X", &line).unwrap();
    assert!(line.contains(token.as_str()));
}

#[test]
fn phase_token_in_line_empty_line_returns_none() {
    assert_eq!(token_in_line("X", ""), None);
}

#[test]
fn phase_token_in_line_full_line_match() {
    assert_eq!(token_in_line(".*", "abc").as_deref(), Some("abc"));
}

#[test]
fn invalid_patterns_are_refused() {
    assert!(PhasePattern::new("__(").is_err());
}

fn info(index: usize, start: &str, end: &str) -> PhaseInfo {
    PhaseInfo {
        phase_index: index,
        start_token: start.to_owned(),
        end_token: end.to_owned(),
        start_timestamp: 0,
        end_timestamp: 1,
    }
}

fn metric(name: &str, value: u64) -> Metric {
    let unit = MetricUnit { prefix: UnitPrefix::Base, unit: Unit::Count };
    Metric::new(name.to_owned(), MetricValue::U64(value), unit, "test".to_owned())
}

#[test]
fn a_phase_is_exported_once_its_bounds_and_all_metrics_arrived() {
    let mut queue = ExportQueue::new(2);
    assert!(queue.on_metrics(Phase { phase_index: 0, metrics: vec![metric("a", 1)] }).is_none());
    assert!(queue.on_info(info(0, "S", "E")).is_none());
    let (bounds, metrics) = queue.on_metrics(Phase { phase_index: 0, metrics: vec![metric("b", 2)] }).unwrap();
    assert_eq!(bounds.phase_index, 0);
    assert_eq!(metrics.len(), 2);
    assert_eq!(metrics[1].name, "b");
    assert!(queue.pending_info.is_empty());
    assert!(queue.pending_metrics.is_empty());
}

#[test]
fn bounds_arriving_last_release_the_phase() {
    let mut queue = ExportQueue::new(1);
    assert!(queue.on_metrics(Phase { phase_index: 3, metrics: vec![metric("a", 1)] }).is_none());
    let (bounds, metrics) = queue.on_info(info(3, "X", "Y")).unwrap();
    assert_eq!(bounds.start_token, "X");
    assert_eq!(metrics.len(), 1);
    assert!(queue.on_info(info(4, "Y", "Z")).is_none());
    assert_eq!(queue.pending_info.len(), 1);
}

#[test]
fn each_token_ends_the_phase_before_it() {
    let mut book = PhaseBook::new();
    assert!(book.measure("__A__".to_owned(), 10).is_none());
    let first = book.measure("__B__".to_owned(), 25).unwrap();
    assert_eq!(first.phase_index, 0);
    assert_eq!(first.start_token, "__A__");
    assert_eq!(first.end_token, "__B__");
    assert_eq!((first.start_timestamp, first.end_timestamp), (10, 25));
    let second = book.measure("__C__".to_owned(), 40).unwrap();
    assert_eq!(second.phase_index, 1);
    assert_eq!(second.start_token, "__B__");
    assert_eq!(book.current_phase_index, 3);
}

#[test]
fn metrics_are_sorted_by_name_keeping_ties_in_order() {
    let sorted = sort_metrics(vec![metric("b", 1), metric("a", 2), metric("b", 3), metric("ab", 4)]);
    let view: Vec<(String, MetricValue)> = sorted.into_iter().map(|m| (m.name, m.value)).collect();
    assert_eq!(
        view,
        vec![
            ("a".to_owned(), MetricValue::U64(2)),
            ("ab".to_owned(), MetricValue::U64(4)),
            ("b".to_owned(), MetricValue::U64(1)),
            ("b".to_owned(), MetricValue::U64(3)),
        ]
    );
}

fn detected(token: PhaseToken, timestamp: u128, line: Option<usize>) -> DetectedPhase {
    DetectedPhase { token, timestamp, line_number: line }
}

#[test]
fn phases_go_from_one_boundary_to_the_next() {
    let boundaries = vec![
        DetectedPhase::start(1_000),
        detected(PhaseToken::Token("__P__".to_owned()), 4_500, Some(3)),
        DetectedPhase::end(10_000),
    ];
    let results = SensorResult {
        phases: vec![
            SensorPhase { metrics: vec![metric("z", 1), metric("a", 2)] },
            SensorPhase { metrics: vec![metric("m", 3)] },
        ],
    };
    let phases = assemble_phases(&boundaries, results, 1_000, 9);
    assert_eq!(phases.len(), 2);
    assert_eq!(phases[0].index, 0);
    assert_eq!(phases[0].metrics[0].name, "a");
    assert_eq!(phases[0].duration_ms, 3);
    assert!(matches!(phases[0].start_token, PhaseToken::Start));
    assert_eq!(phases[0].end_token_line, Some(3));
    assert_eq!(phases[1].duration_ms, 5);
    assert!(matches!(phases[1].end_token, PhaseToken::End));
}

#[test]
fn without_boundaries_the_last_result_is_the_whole_run() {
    let results = SensorResult {
        phases: vec![SensorPhase { metrics: vec![metric("x", 1)] }, SensorPhase { metrics: vec![metric("y", 2)] }],
    };
    let phases = assemble_phases(&vec![], results, 77, 12);
    assert_eq!(phases.len(), 1);
    assert_eq!(phases[0].metrics[0].name, "y");
    assert_eq!(phases[0].timestamp, 77);
    assert_eq!(phases[0].duration_ms, 12);
    assert!(matches!(phases[0].start_token, PhaseToken::Start));
}

#[test]
fn results_file_is_named_after_the_time() {
    assert_eq!(default_results_filename("csv", 1234), "data1234.csv");
}

#[test]
fn injector_numbers_the_phases_of_matching_lines() {
    let mut injector = StdOutInjector::new(vec!["prog".to_owned()], "__[A-Z]+__").unwrap();
    assert!(injector.on_line("nothing\n", 1).is_none());
    let p = injector.on_line("x __GO__ y\r\n\r", 2).unwrap();
    assert_eq!(p.phase_index, 0);
    assert_eq!(p.token, "x __GO__ y");
    assert_eq!(p.timestamp, 2);
    assert_eq!(injector.on_line("__NEXT__\n", 3).unwrap().phase_index, 1);
    assert_eq!(trim_newlines("a\n\r\n"), "a");
    assert!(StdOutInjector::new(vec![], "(").is_err());
}

#[test]
fn detector_records_a_boundary_on_each_token_line() {
    let pattern = PhasePattern::new("__[A-Z]+__").unwrap();
    let mut detector = PhaseDetector::start(100);
    assert!(matches!(detector.on_line(&pattern, Some("hello\n"), 150), LineAction::Echo(l) if l == "hello"));
    assert!(matches!(detector.on_line(&pattern, None, 160), LineAction::Skip));
    assert!(matches!(detector.on_line(&pattern, Some("a __MID__ b\r\n"), 200), LineAction::Boundary(l) if l == "a __MID__ b"));
    assert_eq!(detector.scanner.line_number, 3);
    let detected = detector.finish(900);
    assert_eq!(detected.len(), 3);
    assert!(matches!(detected[0].token, PhaseToken::Start));
    assert_eq!(detected[0].timestamp, 100);
    assert!(matches!(&detected[1].token, PhaseToken::Token(t) if t == "__MID__"));
    assert_eq!(detected[1].timestamp, 200);
    assert_eq!(detected[1].line_number, Some(2));
    assert!(matches!(detected[2].token, PhaseToken::End));
    assert_eq!(detected[2].timestamp, 900);
}

#[test]
fn run_results_hold_the_exit_code_and_whole_milliseconds() {
    let boundaries = vec![DetectedPhase::start(1_000), DetectedPhase::end(8_999)];
    let results = SensorResult { phases: vec![SensorPhase { metrics: vec![metric("e", 5)] }] };
    let r = profiler_results(&boundaries, results, 1_000, 8_999, 3).unwrap();
    assert_eq!(r.timestamp, 1_000);
    assert_eq!(r.duration_ms, 7);
    assert_eq!(r.exit_code, 3);
    assert_eq!(r.phases.len(), 1);
    assert_eq!(r.phases[0].duration_ms, 7);
}

#[test]
fn run_results_refuse_a_clock_that_went_back() {
    let boundaries = vec![DetectedPhase::start(5_000), detected(PhaseToken::Token("__T__".to_owned()), 4_000, Some(0))];
    let results = SensorResult { phases: vec![] };
    assert!(profiler_results(&boundaries, results, 5_000, 6_000, 0).is_none());
    let results = SensorResult { phases: vec![] };
    assert!(profiler_results(&vec![], results, 6_000, 5_000, 0).is_none());
}

use joule_profiler::profiling::aggregate::{OrchestratorError, SensorPhase, SensorResult};
use joule_profiler::types::{Metric, MetricUnit, MetricValue, Unit, UnitPrefix};

fn metric(value: u64) -> Metric {
    let unit = MetricUnit { unit: Unit::Joule, prefix: UnitPrefix::Micro };
    Metric::new("energy_pkg".to_owned(), MetricValue::U64(value), unit, "rapl".to_owned())
}

fn phase(metrics: Vec<Metric>) -> SensorPhase {
    SensorPhase { metrics }
}

fn result(phases: Vec<SensorPhase>) -> SensorResult {
    SensorResult { phases }
}

#[test]
fn merge_empty_vec_returns_error() {
    assert!(matches!(SensorResult::merge(vec![]), Err(OrchestratorError::NoSensorResults)));
}

#[test]
fn merge_single_result_returns_it() {
    let r = result(vec![phase(vec![metric(100)])]);
    let merged = SensorResult::merge(vec![r]).unwrap();
    assert_eq!(merged.phases.len(), 1);
    assert_eq!(merged.phases[0].metrics[0].value, MetricValue::U64(100));
}

#[test]
fn merge_multiple_results_accumulates_metrics() {
    let r1 = result(vec![phase(vec![metric(100)])]);
    let r2 = result(vec![phase(vec![metric(200)])]);
    let merged = SensorResult::merge(vec![r1, r2]).unwrap();
    assert_eq!(merged.phases[0].metrics.len(), 2);
    assert_eq!(merged.phases[0].metrics[0].value, MetricValue::U64(100));
    assert_eq!(merged.phases[0].metrics[1].value, MetricValue::U64(200));
}

#[test]
fn merge_skips_empty_sources_and_warns() {
    let r1 = result(vec![phase(vec![metric(100)])]);
    let r2 = result(vec![]);
    let merged = SensorResult::merge(vec![r1, r2]).unwrap();
    assert_eq!(merged.phases.len(), 1);
    assert_eq!(merged.phases[0].metrics[0].value, MetricValue::U64(100));
}

#[test]
fn merge_all_empty_sources_returns_error() {
    assert!(matches!(
        SensorResult::merge(vec![result(vec![]), result(vec![])]),
        Err(OrchestratorError::AllSourcesEmpty)
    ));
}

#[test]
fn merge_returns_error_on_phase_mismatch() {
    let r1 = result(vec![phase(vec![metric(100)]), phase(vec![metric(200)])]);
    let r2 = result(vec![phase(vec![metric(300)])]);
    assert!(matches!(
        SensorResult::merge(vec![r1, r2]),
        Err(OrchestratorError::PhaseMismatch { lhs: 2, rhs: 1 })
    ));
}

#[test]
fn merge_keeps_the_phase_count_and_the_order_of_sources() {
    let r1 = result(vec![phase(vec![metric(1)]), phase(vec![])]);
    let r2 = result(vec![]);
    let r3 = result(vec![phase(vec![metric(2), metric(3)]), phase(vec![metric(4)])]);
    let merged = SensorResult::merge(vec![r1, r2, r3]).unwrap();
    assert_eq!(merged.phases.len(), 2);
    let first: Vec<MetricValue> = merged.phases[0].metrics.iter().map(|m| m.value).collect();
    assert_eq!(first, vec![MetricValue::U64(1), MetricValue::U64(2), MetricValue::U64(3)]);
    let second: Vec<MetricValue> = merged.phases[1].metrics.iter().map(|m| m.value).collect();
    assert_eq!(second, vec![MetricValue::U64(4)]);
}

#[test]
fn try_add_concatenates_each_phase() {
    let l = result(vec![phase(vec![metric(5)])]);
    let r = result(vec![phase(vec![metric(6)])]);
    let sum = l.try_add(r).unwrap();
    assert_eq!(sum.phases[0].metrics[1].value, MetricValue::U64(6));
    let l = result(vec![]);
    let r = result(vec![phase(vec![])]);
    assert!(matches!(l.try_add(r), Err(OrchestratorError::PhaseMismatch { lhs: 0, rhs: 1 })));
}

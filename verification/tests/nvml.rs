use joule_profiler::nvml::config::NvmlConfig;
use joule_profiler::nvml::source::{NvmlProcessor, NvmlSnapshot, NVML_SOURCE_NAME};
use joule_profiler::types::MetricValue;

#[test]
fn nvml_first_reading_ends_no_phase() {
    let mut processor = NvmlProcessor::new();
    let r = processor.consume(NvmlSnapshot { timestamp: 10, energy: vec![(0, 100), (1, 200)] });
    assert!(r.is_none());
    assert!(processor.baseline.is_some());
}

#[test]
fn nvml_energy_of_a_phase_per_gpu() {
    let mut processor = NvmlProcessor::new();
    processor.consume(NvmlSnapshot { timestamp: 10, energy: vec![(0, 100), (1, 200)] });
    let metrics = processor
        .consume(NvmlSnapshot { timestamp: 20, energy: vec![(0, 150), (1, 260)] })
        .unwrap();
    assert_eq!(metrics.len(), 2);
    assert_eq!(metrics[0].name, "GPU-0");
    assert_eq!(metrics[0].value, MetricValue::U64(50));
    assert_eq!(metrics[1].name, "GPU-1");
    assert_eq!(metrics[1].value, MetricValue::U64(60));
    assert!(metrics.iter().all(|m| m.timestamp == 10 && m.source == NVML_SOURCE_NAME));
    assert_eq!(processor.baseline.as_ref().unwrap().timestamp, 20);
}

#[test]
fn nvml_energy_wraps_and_skips_new_gpus() {
    let mut processor = NvmlProcessor::new();
    processor.consume(NvmlSnapshot { timestamp: 1, energy: vec![(0, u64::MAX)] });
    let metrics = processor
        .consume(NvmlSnapshot { timestamp: 2, energy: vec![(0, 4), (1, 9)] })
        .unwrap();
    assert_eq!(metrics.len(), 1);
    assert_eq!(metrics[0].value, MetricValue::U64(5));
}
use joule_profiler::nvml::hardware::select_device;

#[test]
fn nvml_default_poll_interval_is_fifty_milliseconds() {
    assert_eq!(NvmlConfig::default().poll_interval.as_millis(), 50);
}

#[test]
fn select_device_prefers_energy_over_power() {
    let d = select_device(3, None, true, true, false, true).unwrap();
    assert_eq!(d.index, 3);
    assert_eq!(d.support.bits, 1 | 8);
    let d = select_device(1, None, false, true, true, false).unwrap();
    assert_eq!(d.support.bits, 2 | 4);
}

#[test]
fn select_device_skips_filtered_and_unsupported_gpus() {
    let filter = vec![0, 2];
    assert!(select_device(1, Some(&filter), true, false, false, false).is_none());
    assert!(select_device(2, Some(&filter), false, false, false, false).is_none());
    assert!(select_device(2, Some(&filter), false, false, true, false).is_some());
}

#[test]
fn nvml_source_is_named_nvml() {
    assert_eq!(joule_profiler::nvml::source::NvmlSource::get_name(), "NVML");
}

use joule_profiler::nvml::source::{source_error, NvmlErrorKind, NvmlSourceError};

#[test]
fn nvml_errors_are_told_apart_by_kind() {
    assert!(matches!(source_error(NvmlErrorKind::DriverNotLoaded, "m".to_owned()), NvmlSourceError::NoDriverLoaded));
    assert!(matches!(source_error(NvmlErrorKind::NoPermission, "m".to_owned()), NvmlSourceError::NoPermission));
    match source_error(NvmlErrorKind::Other, "Unknown".to_owned()) {
        NvmlSourceError::Nvml(m) => assert_eq!(m, "Unknown"),
        _ => panic!("expected the message"),
    }
}

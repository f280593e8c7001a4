use joule_profiler::amdsmi::config::AmdSmiConfig;
use joule_profiler::amdsmi::counters::{Counter, EnergyCounter, PowerCounter, PowerMeasurement, UtilizationCounter, VramCounter};
use joule_profiler::amdsmi::error::AmdSmiError;
use joule_profiler::amdsmi::source::{Processor, ProcessorSupport};
use joule_profiler::amdsmi::state::{select_processor, AmdSmi, AmdSmiHardware};
use joule_profiler::types::MetricValue;

fn make_processor(uuid: &str, support: u8) -> Processor {
    Processor { uuid: uuid.to_owned(), support: ProcessorSupport::from_bits(support) }
}

fn build_amdsmi(processors: Vec<Processor>) -> AmdSmi {
    AmdSmi::from_config(AmdSmiConfig::default(), processors)
}

/// A GPU backend that answers every reading with fixed values, or fails.
struct FixedHardware {
    energy: u64,
    power: u32,
    vram: u64,
    activity: u32,
    fail_vram: bool,
}

impl FixedHardware {
    fn new() -> Self {
        FixedHardware { energy: 1_000, power: 150, vram: 4096, activity: 40, fail_vram: false }
    }
}

impl AmdSmiHardware for FixedHardware {
    fn get_energy_count(&self, _processor: &Processor) -> Result<u64, AmdSmiError> {
        Ok(self.energy)
    }

    fn get_power(&self, _processor: &Processor) -> Result<PowerMeasurement, AmdSmiError> {
        Ok(PowerMeasurement { timestamp: 0, power: self.power })
    }

    fn get_vram_usage(&self, _processor: &Processor) -> Result<u64, AmdSmiError> {
        if self.fail_vram {
            Err(AmdSmiError::Library("vram".to_owned()))
        } else {
            Ok(self.vram)
        }
    }

    fn get_gpu_activity(&self, _processor: &Processor) -> Result<u32, AmdSmiError> {
        Ok(self.activity)
    }
}

#[test]
fn get_sensors_energy_support_emits_energy_sensor() {
    let amdsmi = build_amdsmi(vec![make_processor("UUID_0", ProcessorSupport::ENERGY)]);
    let sensors = amdsmi.get_sensors();
    assert!(sensors.iter().any(|s| s.name == "GPU-UUID_0-energy"));
}

#[test]
fn get_sensors_power_support_emits_energy_sensor() {
    let amdsmi = build_amdsmi(vec![make_processor("UUID_0", ProcessorSupport::POWER)]);
    let sensors = amdsmi.get_sensors();
    assert!(sensors.iter().any(|s| s.name == "GPU-UUID_0-energy"));
}

#[test]
fn get_sensors_vram_support_emits_vram_sensors() {
    let amdsmi = build_amdsmi(vec![make_processor("UUID_0", ProcessorSupport::VRAM)]);
    let sensors = amdsmi.get_sensors();
    assert!(sensors.iter().any(|s| s.name == "GPU-UUID_0-vram_min"));
    assert!(sensors.iter().any(|s| s.name == "GPU-UUID_0-vram_max"));
}

#[test]
fn get_sensors_utilization_support_emits_utilization_sensors() {
    let amdsmi = build_amdsmi(vec![make_processor("UUID_0", ProcessorSupport::UTILIZATION)]);
    let sensors = amdsmi.get_sensors();
    assert!(sensors.iter().any(|s| s.name == "GPU-UUID_0-utilization_min"));
    assert!(sensors.iter().any(|s| s.name == "GPU-UUID_0-utilization_max"));
}

#[test]
fn get_sensors_empty_when_no_processors() {
    let amdsmi = build_amdsmi(vec![]);
    assert!(amdsmi.get_sensors().is_empty());
}

#[test]
fn get_sensors_counts_all_sensors_for_full_support() {
    let amdsmi = build_amdsmi(vec![make_processor(
        "UUID_0",
        ProcessorSupport::ENERGY | ProcessorSupport::VRAM | ProcessorSupport::UTILIZATION,
    )]);
    assert_eq!(amdsmi.get_sensors().len(), 5);
}

#[test]
fn measure_then_retrieve_gives_the_phase_and_resets_it() {
    let mut amdsmi = build_amdsmi(vec![
        make_processor("A", ProcessorSupport::ENERGY | ProcessorSupport::VRAM),
        make_processor("B", ProcessorSupport::POWER | ProcessorSupport::UTILIZATION),
    ]);
    let mut hw = FixedHardware::new();
    amdsmi.measure(&hw).unwrap();
    hw.energy = 1_500;
    hw.vram = 1024;
    hw.activity = 90;
    amdsmi.measure(&hw).unwrap();

    let counters = amdsmi.retrieve();
    assert_eq!(counters.len(), 2);
    assert_eq!(counters[0].0, 0);
    assert_eq!(counters[0].1.energy.unwrap().diff(), Some(500));
    let vram = counters[0].1.vram.unwrap();
    assert_eq!((vram.min, vram.max), (Some(1024), Some(4096)));
    assert!(counters[0].1.power.is_none());
    let util = counters[1].1.utilization.unwrap();
    assert_eq!((util.min, util.max), (Some(40), Some(90)));
    assert_eq!(counters[1].1.power.as_ref().unwrap().0.len(), 2);

    // The next phase starts where this one ended.
    assert_eq!(amdsmi.energy_counters[0], Some(EnergyCounter { begin: Some(1_500), end: Some(1_500) }));
    assert_eq!(amdsmi.vram_counters[0].unwrap().min, None);
    assert_eq!(amdsmi.power_counters[1].as_ref().unwrap().0.len(), 0);
}

#[test]
fn a_failed_reading_changes_no_counter() {
    let mut amdsmi = build_amdsmi(vec![make_processor("A", ProcessorSupport::VRAM | ProcessorSupport::POWER)]);
    let mut hw = FixedHardware::new();
    hw.fail_vram = true;
    assert!(amdsmi.read_polled_counters(&hw).is_err());
    assert!(amdsmi.vram_counters[0].is_none());
    assert!(amdsmi.power_counters[0].is_none());
}

#[test]
fn to_metrics_reports_energy_vram_and_utilization() {
    let amdsmi = build_amdsmi(vec![make_processor("UUID_0", ProcessorSupport::ENERGY)]);
    let counter = Counter {
        energy: Some(EnergyCounter { begin: Some(100), end: Some(350) }),
        vram: Some(VramCounter { min: Some(10), max: Some(20) }),
        power: None,
        utilization: Some(UtilizationCounter { min: Some(1), max: None }),
    };
    let metrics = amdsmi.to_metrics(vec![(0, counter), (7, Counter::default())]);
    let names: Vec<&str> = metrics.iter().map(|m| m.name.as_str()).collect();
    assert_eq!(names, vec!["GPU-UUID_0-energy", "GPU-UUID_0-vram_min", "GPU-UUID_0-vram_max"]);
    assert_eq!(metrics[0].value, MetricValue::U64(250));
    assert!(metrics.iter().all(|m| m.source == "amdsmi"));
}

#[test]
fn energy_falls_back_to_the_power_samples() {
    let amdsmi = build_amdsmi(vec![make_processor("G", ProcessorSupport::POWER)]);
    let power = PowerCounter(vec![
        PowerMeasurement { timestamp: 0, power: 100 },
        PowerMeasurement { timestamp: 10, power: 200 },
        PowerMeasurement { timestamp: 30, power: 201 },
    ]);
    assert!(power.can_compute_energy());
    assert_eq!(power.compute_energy(), 150 * 10 + 200 * 20);
    let counter = Counter { energy: None, vram: None, power: Some(power), utilization: None };
    let metrics = amdsmi.to_metrics(vec![(0, counter)]);
    assert_eq!(metrics[0].value, MetricValue::U64(5_500));
}

#[test]
fn power_samples_going_back_in_time_cannot_be_integrated() {
    let power = PowerCounter(vec![
        PowerMeasurement { timestamp: 10, power: 1 },
        PowerMeasurement { timestamp: 5, power: 1 },
    ]);
    assert!(!power.can_compute_energy());
}

#[test]
fn processors_without_support_are_ignored() {
    let spec = Some(vec!["A".to_owned()]);
    let p = select_processor("A".to_owned(), &spec, true, true, false, true).unwrap();
    assert_eq!(p.support.bits, ProcessorSupport::ENERGY | ProcessorSupport::UTILIZATION);
    assert!(select_processor("B".to_owned(), &spec, true, true, true, true).is_none());
    assert!(select_processor("A".to_owned(), &None, false, false, false, false).is_none());
    let p = select_processor("C".to_owned(), &None, false, true, false, false).unwrap();
    assert_eq!(p.support.bits, ProcessorSupport::POWER);
}

/// A GPU backend that counts the readings asked of it and fails the kinds
/// of readings it is told to.
#[derive(Default)]
struct CountingHardware {
    energy_calls: std::cell::Cell<usize>,
    power_calls: std::cell::Cell<usize>,
    vram_calls: std::cell::Cell<usize>,
    activity_calls: std::cell::Cell<usize>,
    energy: u64,
    power: u32,
    vram: u64,
    activity: u32,
    fail_energy: bool,
    fail_power: bool,
    fail_vram: bool,
    fail_activity: bool,
}

fn not_supported() -> AmdSmiError {
    AmdSmiError::Library("Operation not supported".to_owned())
}

impl AmdSmiHardware for CountingHardware {
    fn get_energy_count(&self, _processor: &Processor) -> Result<u64, AmdSmiError> {
        self.energy_calls.set(self.energy_calls.get() + 1);
        if self.fail_energy { Err(not_supported()) } else { Ok(self.energy) }
    }

    fn get_power(&self, _processor: &Processor) -> Result<PowerMeasurement, AmdSmiError> {
        self.power_calls.set(self.power_calls.get() + 1);
        if self.fail_power { Err(not_supported()) } else { Ok(PowerMeasurement { timestamp: 0, power: self.power }) }
    }

    fn get_vram_usage(&self, _processor: &Processor) -> Result<u64, AmdSmiError> {
        self.vram_calls.set(self.vram_calls.get() + 1);
        if self.fail_vram { Err(not_supported()) } else { Ok(self.vram) }
    }

    fn get_gpu_activity(&self, _processor: &Processor) -> Result<u32, AmdSmiError> {
        self.activity_calls.set(self.activity_calls.get() + 1);
        if self.fail_activity { Err(not_supported()) } else { Ok(self.activity) }
    }
}

#[test]
fn measure_reads_energy_for_energy_capable_processor() {
    let mut amdsmi = build_amdsmi(vec![make_processor("UUID_0", ProcessorSupport::ENERGY)]);
    let hw = CountingHardware { energy: 1_000_000, ..Default::default() };
    amdsmi.measure(&hw).unwrap();
    assert_eq!(hw.energy_calls.get(), 1);
    assert!(amdsmi.energy_counters[0].is_some());
}

#[test]
fn measure_reads_power_for_power_capable_processor() {
    let mut amdsmi = build_amdsmi(vec![make_processor("UUID_0", ProcessorSupport::POWER)]);
    let hw = CountingHardware { power: 150_000, ..Default::default() };
    amdsmi.measure(&hw).unwrap();
    assert_eq!(hw.power_calls.get(), 1);
    assert!(amdsmi.power_counters[0].is_some());
}

#[test]
fn measure_reads_vram_for_vram_capable_processor() {
    let mut amdsmi = build_amdsmi(vec![make_processor("UUID_0", ProcessorSupport::VRAM)]);
    let hw = CountingHardware { vram: 8_000_000_000, ..Default::default() };
    amdsmi.measure(&hw).unwrap();
    assert_eq!(hw.vram_calls.get(), 1);
    assert!(amdsmi.vram_counters[0].is_some());
}

#[test]
fn measure_reads_utilization_for_utilization_capable_processor() {
    let mut amdsmi = build_amdsmi(vec![make_processor("UUID_0", ProcessorSupport::UTILIZATION)]);
    let hw = CountingHardware { activity: 75, ..Default::default() };
    amdsmi.measure(&hw).unwrap();
    assert_eq!(hw.activity_calls.get(), 1);
    assert!(amdsmi.utilization_counters[0].is_some());
}

#[test]
fn measure_skips_energy_and_power_for_vram_only_processor() {
    let mut amdsmi = build_amdsmi(vec![make_processor("UUID_0", ProcessorSupport::VRAM)]);
    let hw = CountingHardware { vram: 1_000_000, ..Default::default() };
    amdsmi.measure(&hw).unwrap();
    assert_eq!(hw.energy_calls.get(), 0);
    assert_eq!(hw.power_calls.get(), 0);
    assert_eq!(hw.vram_calls.get(), 1);
    assert!(amdsmi.energy_counters[0].is_none());
    assert!(amdsmi.power_counters[0].is_none());
}

#[test]
fn measure_propagates_energy_error() {
    let mut amdsmi = build_amdsmi(vec![make_processor("UUID_0", ProcessorSupport::ENERGY)]);
    let hw = CountingHardware { fail_energy: true, ..Default::default() };
    assert!(amdsmi.measure(&hw).is_err());
}

#[test]
fn measure_propagates_power_error() {
    let mut amdsmi = build_amdsmi(vec![make_processor("UUID_0", ProcessorSupport::POWER)]);
    let hw = CountingHardware { fail_power: true, ..Default::default() };
    assert!(amdsmi.measure(&hw).is_err());
}

#[test]
fn measure_propagates_vram_error() {
    let mut amdsmi = build_amdsmi(vec![make_processor("UUID_0", ProcessorSupport::VRAM)]);
    let hw = CountingHardware { fail_vram: true, ..Default::default() };
    assert!(amdsmi.measure(&hw).is_err());
}

#[test]
fn measure_propagates_utilization_error() {
    let mut amdsmi = build_amdsmi(vec![make_processor("UUID_0", ProcessorSupport::UTILIZATION)]);
    let hw = CountingHardware { fail_activity: true, ..Default::default() };
    assert!(amdsmi.measure(&hw).is_err());
}

#[test]
fn retrieve_returns_counters_and_resets_them() {
    let mut amdsmi = build_amdsmi(vec![make_processor("UUID_0", ProcessorSupport::ENERGY | ProcessorSupport::VRAM)]);
    let hw = CountingHardware { energy: 10_000, vram: 1_000_000, ..Default::default() };
    amdsmi.measure(&hw).unwrap();
    amdsmi.measure(&hw).unwrap();

    let result = amdsmi.retrieve();
    assert!(result.iter().any(|(i, _)| *i == 0));

    let result2 = amdsmi.retrieve();
    let counter: &Counter = &result2.iter().find(|(i, _)| *i == 0).unwrap().1;
    assert!(counter.energy.as_ref().and_then(|e| e.diff()).is_none_or(|v| v == 0));
}

#[test]
fn retrieve_includes_entry_for_every_processor() {
    let mut amdsmi = build_amdsmi(vec![
        make_processor("UUID_0", ProcessorSupport::ENERGY),
        make_processor("UUID_1", ProcessorSupport::POWER),
        make_processor("UUID_2", ProcessorSupport::VRAM),
    ]);
    let hw = CountingHardware { energy: 1_000, power: 5_000, vram: 1_000_000, ..Default::default() };
    amdsmi.measure(&hw).unwrap();

    let result = amdsmi.retrieve();
    assert_eq!(result.len(), 3);
    for index in [0, 1, 2] {
        assert!(result.iter().any(|(i, _)| *i == index));
    }
}

#[test]
fn amdsmi_source_is_named_amdsmi() {
    assert_eq!(AmdSmi::get_name(), "amdsmi");
}

#[test]
fn a_failed_power_read_leaves_the_vram_readings_applied() {
    let mut amdsmi = build_amdsmi(vec![make_processor(
        "UUID_0",
        ProcessorSupport::VRAM | ProcessorSupport::POWER | ProcessorSupport::UTILIZATION,
    )]);
    let hw = CountingHardware { vram: 4096, activity: 30, fail_power: true, ..Default::default() };
    assert!(amdsmi.read_polled_counters(&hw).is_err());
    assert_eq!(hw.vram_calls.get(), 1);
    assert_eq!(hw.power_calls.get(), 1);
    assert_eq!(hw.activity_calls.get(), 1);
    assert_eq!(hw.energy_calls.get(), 0);
    assert!(amdsmi.vram_counters[0].is_some());
    assert!(amdsmi.power_counters[0].is_none());
    assert!(amdsmi.utilization_counters[0].is_none());
}

#[test]
fn a_failed_vram_read_leaves_every_counter_unchanged() {
    let mut amdsmi = build_amdsmi(vec![make_processor(
        "UUID_0",
        ProcessorSupport::VRAM | ProcessorSupport::POWER,
    )]);
    let hw = CountingHardware { power: 100, fail_vram: true, ..Default::default() };
    assert!(amdsmi.read_polled_counters(&hw).is_err());
    assert!(amdsmi.vram_counters[0].is_none());
    assert!(amdsmi.power_counters[0].is_none());
}

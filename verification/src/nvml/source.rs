//! Reading the GPUs through `nvml-wrapper`, the sensors they offer, and the
//! energy of each over a phase.

use vstd::prelude::*;

use crate::amdsmi::source::sensors_view;
use crate::nvml::device::{EnergyReading, nvml_device_by_index, nvml_total_energy};
use crate::text::{concat3, decimal, decimal_string};
use crate::types::{AvailableSensor, Metric, MetricUnit, MetricValue, Unit, UnitPrefix, metrics_view};

verus! {

#[verifier::external_type_specification]
#[verifier::external_body]
pub struct ExNvml(nvml_wrapper::Nvml);

#[verifier::external_type_specification]
#[verifier::external_body]
pub struct ExNvmlDevice<'a>(nvml_wrapper::Device<'a>);

#[verifier::external_type_specification]
#[verifier::external_body]
pub struct ExNvmlError(nvml_wrapper::error::NvmlError);

/// The name of the source.
pub const NVML_SOURCE_NAME: &'static str = "NVML";

/// What can go wrong while reading the GPUs.
#[derive(Debug)]
pub enum NvmlSourceError {
    /// No NVIDIA driver could be found or loaded.
    NoDriverLoaded,
    /// The process may not use NVML.
    NoPermission,
    /// NVML reported another error, with its message.
    Nvml(String),
    /// A background task could not be joined, with the reason.
    JoinError(String),
}

/// The kinds of NVML errors the source tells apart.
pub enum NvmlErrorKind {
    DriverNotLoaded,
    NoPermission,
    Other,
}

/// Initializes NVML (`nvml_wrapper::Nvml::init`). Nothing is claimed of
/// the outcome, which depends on the machine.
#[verifier::external_body]
pub(crate) fn nvml_init() -> Result<nvml_wrapper::Nvml, nvml_wrapper::error::NvmlError> {
    nvml_wrapper::Nvml::init()
}

/// The number of GPUs (`Nvml::device_count`). Nothing is claimed of it.
#[verifier::external_body]
pub(crate) fn nvml_device_count(nvml: &nvml_wrapper::Nvml) -> Result<u32, nvml_wrapper::error::NvmlError> {
    nvml.device_count()
}

/// Which of the errors the source tells apart an NVML error is.
#[verifier::external_body]
fn nvml_error_kind(e: &nvml_wrapper::error::NvmlError) -> NvmlErrorKind {
    match e {
        nvml_wrapper::error::NvmlError::DriverNotLoaded => NvmlErrorKind::DriverNotLoaded,
        nvml_wrapper::error::NvmlError::NoPermission => NvmlErrorKind::NoPermission,
        _ => NvmlErrorKind::Other,
    }
}

/// The message of an NVML error (its `Display` text). Nothing is claimed
/// of the text.
#[verifier::external_body]
fn nvml_error_message(e: &nvml_wrapper::error::NvmlError) -> String {
    e.to_string()
}

/// An NVML error as the source reports it.
pub(crate) fn library_error(e: &nvml_wrapper::error::NvmlError) -> (r: NvmlSourceError)
    ensures
        r is Nvml,
{
    NvmlSourceError::Nvml(nvml_error_message(e))
}

/// The error the source reports for an NVML error of kind `kind` whose
/// message is `message`: a missing driver and missing permissions apart,
/// any other failure with its message.
pub fn source_error(kind: NvmlErrorKind, message: String) -> (r: NvmlSourceError)
    ensures
        kind is DriverNotLoaded ==> r is NoDriverLoaded,
        kind is NoPermission ==> r is NoPermission,
        kind is Other ==> r == NvmlSourceError::Nvml(message),
{
    match kind {
        NvmlErrorKind::DriverNotLoaded => NvmlSourceError::NoDriverLoaded,
        NvmlErrorKind::NoPermission => NvmlSourceError::NoPermission,
        NvmlErrorKind::Other => NvmlSourceError::Nvml(message),
    }
}

/// A failure to initialize NVML as the source reports it.
pub(crate) fn init_error(e: &nvml_wrapper::error::NvmlError) -> (r: NvmlSourceError)
    ensures
        r is NoDriverLoaded || r is NoPermission || r is Nvml,
{
    source_error(nvml_error_kind(e), nvml_error_message(e))
}

/// Initializes NVML and counts the GPUs: a missing driver
/// and missing permissions are told apart.
pub fn init_nvml() -> (r: Result<(nvml_wrapper::Nvml, u32), NvmlSourceError>)
    ensures
        r matches Err(e) ==> e is NoDriverLoaded || e is NoPermission || e is Nvml,
{
    let nvml = match nvml_init() {
        Ok(n) => n,
        Err(e) => return Err(init_error(&e)),
    };
    match nvml_device_count(&nvml) {
        Ok(count) => Ok((nvml, count)),
        Err(e) => Err(library_error(&e)),
    }
}

/// A reading of the GPUs: the cumulative energy of each, by index.
#[derive(Debug)]
pub struct NvmlSnapshot {
    pub timestamp: u128,
    pub energy: Vec<(u32, u64)>,
}

/// The sensor side of the source: NVML and the number of GPUs.
pub struct NvmlSensor {
    pub nvml: nvml_wrapper::Nvml,
    pub device_count: u32,
}

/// The indices of the readings.
pub open spec fn reading_indices(s: Seq<(u32, u64)>) -> Seq<u32> {
    s.map_values(|x: (u32, u64)| x.0)
}

impl NvmlSensor {
    /// Reads the energy of every GPU, in index order.
    pub fn measure(&mut self, timestamp: u128) -> (r: Result<NvmlSnapshot, NvmlSourceError>)
        ensures
            r matches Ok(s) ==> s.timestamp == timestamp && reading_indices(s.energy@) == Seq::new(
                old(self).device_count as nat,
                |i: int| i as u32,
            ),
            r matches Ok(s) ==> exists|readings: Seq<EnergyReading>|
                #![trigger readings.len()]
                readings.len() == s.energy@.len() && forall|k: int|
                    0 <= k < readings.len() ==> (#[trigger] readings[k]).index() == k && s.energy@[k]
                        == (k as u32, readings[k].energy()),
            r matches Err(e) ==> e is Nvml,
    {
        let mut energy: Vec<(u32, u64)> = Vec::new();
        let ghost mut readings: Seq<EnergyReading> = Seq::empty();
        let mut i: u32 = 0;
        while i < self.device_count
            invariant
                i <= self.device_count,
                reading_indices(energy@) == Seq::new(i as nat, |j: int| j as u32),
                readings.len() == energy@.len(),
                forall|k: int|
                    0 <= k < readings.len() ==> (#[trigger] readings[k]).index() == k && energy@[k]
                        == (k as u32, readings[k].energy()),
            decreases self.device_count - i,
        {
            let device = match nvml_device_by_index(&self.nvml, i) {
                Ok(d) => d,
                Err(e) => return Err(library_error(&e)),
            };
            let reading = match nvml_total_energy(&device) {
                Ok(v) => v,
                Err(e) => return Err(library_error(&e)),
            };
            let value = reading.value();
            let ghost before = energy@;
            energy.push((i, value));
            proof {
                readings = readings.push(reading);
                assert(reading_indices(before).len() == i);
                assert(reading_indices(energy@) =~= reading_indices(before).push(i));
                assert(reading_indices(energy@) =~= Seq::new((i + 1) as nat, |j: int| j as u32));
            }
            i = i + 1;
        }
        Ok(NvmlSnapshot { timestamp, energy })
    }

    /// The sensors of the GPUs: the energy of
    /// each, in millijoules, named `GPU-<index>`.
    pub fn list_sensors(&self) -> (r: Vec<AvailableSensor>)
        ensures
            sensors_view(r@) == Seq::new(
                self.device_count as nat,
                |i: int| (gpu_name(i as u32), milli_joule()),
            ),
            forall|i: int| 0 <= i < r@.len() ==> (#[trigger] r@[i]).source@ == NVML_SOURCE_NAME@,
    {
        let unit = MetricUnit { prefix: UnitPrefix::Milli, unit: Unit::Joule };
        let mut out: Vec<AvailableSensor> = Vec::new();
        let mut i: u32 = 0;
        while i < self.device_count
            invariant
                i <= self.device_count,
                unit == milli_joule(),
                sensors_view(out@) == Seq::new(i as nat, |j: int| (gpu_name(j as u32), milli_joule())),
                forall|k: int| 0 <= k < out@.len() ==> (#[trigger] out@[k]).source@ == NVML_SOURCE_NAME@,
            decreases self.device_count - i,
        {
            let ghost before = out@;
            out.push(AvailableSensor::new(gpu_label(i), unit, NVML_SOURCE_NAME.to_owned()));
            proof {
                assert(sensors_view(out@) =~= sensors_view(before).push((gpu_name(i), milli_joule())));
                assert(sensors_view(out@) =~= Seq::new(
                    (i + 1) as nat,
                    |j: int| (gpu_name(j as u32), milli_joule()),
                ));
            }
            i = i + 1;
        }
        out
    }
}

/// Millijoules.
pub open spec fn milli_joule() -> MetricUnit {
    MetricUnit { prefix: UnitPrefix::Milli, unit: Unit::Joule }
}

/// The name of a GPU's energy: `GPU-<index>`.
pub open spec fn gpu_name(i: u32) -> Seq<char> {
    "GPU-"@ + decimal(i as nat) + ""@
}

fn gpu_label(i: u32) -> (s: String)
    ensures
        s@ == gpu_name(i),
{
    concat3("GPU-", decimal_string(i as u128).as_str(), "")
}

/// The energy of the first reading of the GPU, if any.
pub open spec fn energy_of(s: Seq<(u32, u64)>, i: u32) -> Option<u64>
    decreases s.len(),
{
    if s.len() == 0 {
        None
    } else if s[0].0 == i {
        Some(s[0].1)
    } else {
        energy_of(s.drop_first(), i)
    }
}

/// The energy of each GPU of a reading that the previous reading also
/// read, in the order of the reading; the counters wrap around.
pub open spec fn energy_metrics(baseline: Seq<(u32, u64)>, current: Seq<(u32, u64)>) -> Seq<
    (Seq<char>, MetricValue, MetricUnit),
>
    decreases current.len(),
{
    if current.len() == 0 {
        seq![]
    } else {
        energy_metrics(baseline, current.drop_last()) + match energy_of(baseline, current.last().0) {
            Some(b) => seq![
                (gpu_name(current.last().0), MetricValue::U64(current.last().1.wrapping_sub(b)), milli_joule()),
            ],
            None => seq![],
        }
    }
}

fn energy_of_exec(s: &Vec<(u32, u64)>, i: u32) -> (r: Option<u64>)
    ensures
        r == energy_of(s@, i),
{
    let mut k: usize = 0;
    proof {
        assert(s@.skip(0) =~= s@);
    }
    while k < s.len()
        invariant
            k <= s@.len(),
            energy_of(s@, i) == energy_of(s@.skip(k as int), i),
        decreases s@.len() - k,
    {
        proof {
            assert(s@.skip(k as int).drop_first() =~= s@.skip(k + 1));
        }
        if s[k].0 == i {
            return Some(s[k].1);
        }
        k = k + 1;
    }
    None
}

/// The processor side of the source: the reading that started the running
/// phase.
pub struct NvmlProcessor {
    pub baseline: Option<NvmlSnapshot>,
}

impl NvmlProcessor {
    /// A processor with no reading yet.
    pub fn new() -> (p: Self)
        ensures
            p.baseline is None,
    {
        NvmlProcessor { baseline: None }
    }

    /// Takes a reading: it ends the running
    /// phase, whose energy per GPU is returned at the time the phase
    /// started, and starts the next one. The first reading ends no phase.
    pub fn consume(&mut self, snapshot: NvmlSnapshot) -> (r: Option<Vec<Metric>>)
        ensures
            match old(self).baseline {
                None => r is None,
                Some(b) => r matches Some(ms) && metrics_view(ms@) == energy_metrics(
                    b.energy@,
                    snapshot.energy@,
                ) && forall|i: int|
                    0 <= i < ms@.len() ==> (#[trigger] ms@[i]).timestamp == b.timestamp
                        && ms@[i].source@ == NVML_SOURCE_NAME@,
            },
            final(self).baseline matches Some(b) && b.timestamp == snapshot.timestamp && b.energy@
                == snapshot.energy@,
    {
        let out = match &self.baseline {
            None => None,
            Some(b) => {
                let unit = MetricUnit { prefix: UnitPrefix::Milli, unit: Unit::Joule };
                let mut ms: Vec<Metric> = Vec::new();
                let mut k: usize = 0;
                while k < snapshot.energy.len()
                    invariant
                        k <= snapshot.energy@.len(),
                        unit == milli_joule(),
                        metrics_view(ms@) == energy_metrics(b.energy@, snapshot.energy@.take(k as int)),
                        forall|i: int|
                            0 <= i < ms@.len() ==> (#[trigger] ms@[i]).timestamp == b.timestamp
                                && ms@[i].source@ == NVML_SOURCE_NAME@,
                    decreases snapshot.energy@.len() - k,
                {
                    proof {
                        assert(snapshot.energy@.take(k + 1).drop_last() =~= snapshot.energy@.take(k as int));
                        assert(snapshot.energy@.take(k + 1).last() == snapshot.energy@[k as int]);
                    }
                    let (index, value) = snapshot.energy[k];
                    match energy_of_exec(&b.energy, index) {
                        Some(prev) => {
                            let ghost before = ms@;
                            ms.push(
                                Metric::at(
                                    gpu_label(index),
                                    MetricValue::U64(value.wrapping_sub(prev)),
                                    unit,
                                    NVML_SOURCE_NAME.to_owned(),
                                    b.timestamp,
                                ),
                            );
                            proof {
                                assert(metrics_view(ms@) =~= metrics_view(before).push(
                                    (gpu_name(index), MetricValue::U64(value.wrapping_sub(prev)), unit),
                                ));
                            }
                        },
                        None => {},
                    }
                    k = k + 1;
                }
                proof {
                    assert(snapshot.energy@.take(snapshot.energy@.len() as int) =~= snapshot.energy@);
                }
                Some(ms)
            },
        };
        self.baseline = Some(snapshot);
        out
    }
}

/// The NVML source: the sensor that reads the GPUs and the processor that
/// turns the readings into metrics.
pub struct NvmlSource;

impl NvmlSource {
    /// Initializes NVML and builds the sensor and the processor.
    pub fn from_config() -> (r: Result<(NvmlSensor, NvmlProcessor), NvmlSourceError>)
        ensures
            r matches Ok((_, p)) ==> p.baseline is None,
    {
        let (nvml, device_count) = init_nvml()?;
        Ok((NvmlSensor { nvml, device_count }, NvmlProcessor::new()))
    }

    /// The name of the source.
    pub fn get_name() -> (r: &'static str)
        ensures
            r@ == NVML_SOURCE_NAME@,
    {
        NVML_SOURCE_NAME
    }
}

} // verus!

//! The GPUs as NVML shows them: which ones to read, what each can report,
//! and the readings themselves.

use vstd::prelude::*;

use crate::amdsmi::source::ProcessorSupport;
use crate::amdsmi::state::probed_support;
use crate::nvml::device::{EnergyReading, nvml_device_by_index, nvml_total_energy};
use crate::nvml::source::{NvmlSourceError, init_error, library_error, nvml_device_count, nvml_init};

verus! {

/// A GPU to read: its index and the readings it supports (the flags of
/// [`ProcessorSupport`]).
#[derive(Debug, Clone, Copy)]
pub struct NvmlDevice {
    pub index: u32,
    pub support: ProcessorSupport,
}

/// An instantaneous power reading, in milliwatts, with the time it was
/// taken.
#[derive(Debug, Clone, Copy)]
pub struct PowerMeasurement {
    pub timestamp: u128,
    pub power: u32,
}

/// The readings of the GPUs, as the NVML source needs them.
pub trait NvmlHardware {
    /// The GPUs to read among those the driver reports: those of the
    /// filter, when there is one, that support at least one reading.
    fn init_devices(&mut self, spec: Option<&Vec<u32>>) -> Result<Vec<NvmlDevice>, NvmlSourceError>;

    /// The energy a GPU consumed since the driver was loaded, in
    /// millijoules.
    fn get_energy(&self, device: &NvmlDevice) -> Result<u64, NvmlSourceError>;

    /// The instantaneous power of a GPU, stamped with `timestamp`.
    fn get_power(&self, device: &NvmlDevice, timestamp: u128) -> Result<PowerMeasurement, NvmlSourceError>;

    /// The VRAM a GPU uses, in bytes.
    fn get_vram_usage(&self, device: &NvmlDevice) -> Result<u64, NvmlSourceError>;

    /// The GPU utilization of a device, in percent.
    fn get_utilization(&self, device: &NvmlDevice) -> Result<u32, NvmlSourceError>;
}

/// The UUID of a GPU (`Device::uuid`). Nothing is claimed of it.
#[verifier::external_body]
fn nvml_device_uuid(device: &nvml_wrapper::Device) -> Result<String, nvml_wrapper::error::NvmlError> {
    device.uuid()
}

/// The power a GPU draws, in milliwatts (`Device::power_usage`). Nothing
/// is claimed of it.
#[verifier::external_body]
fn nvml_power_usage(device: &nvml_wrapper::Device) -> Result<u32, nvml_wrapper::error::NvmlError> {
    device.power_usage()
}

/// The memory a GPU has allocated, in bytes (`Device::memory_info`, its
/// `used` field). Nothing is claimed of it.
#[verifier::external_body]
fn nvml_memory_used(device: &nvml_wrapper::Device) -> Result<u64, nvml_wrapper::error::NvmlError> {
    device.memory_info().map(|info| info.used)
}

/// The GPU utilization of a device, in percent
/// (`Device::utilization_rates`, its `gpu` field). Nothing is claimed of
/// it.
#[verifier::external_body]
fn nvml_gpu_utilization(device: &nvml_wrapper::Device) -> Result<u32, nvml_wrapper::error::NvmlError> {
    device.utilization_rates().map(|rates| rates.gpu)
}

/// Whether the filter lets a GPU through: no filter, or a filter naming it.
pub open spec fn index_selected(spec: Option<Seq<u32>>, index: u32) -> bool {
    match spec {
        Some(s) => s.contains(index),
        None => true,
    }
}

/// The indices of a filter.
pub open spec fn index_filter_view(spec: Option<&Vec<u32>>) -> Option<Seq<u32>> {
    match spec {
        Some(v) => Some(v@),
        None => None,
    }
}

fn contains_index(v: &Vec<u32>, x: u32) -> (b: bool)
    ensures
        b == v@.contains(x),
{
    let mut k: usize = 0;
    while k < v.len()
        invariant
            k <= v@.len(),
            forall|i: int| 0 <= i < k ==> v@[i] != x,
        decreases v@.len() - k,
    {
        if v[k] == x {
            return true;
        }
        k = k + 1;
    }
    false
}

/// The GPU to read, from its index and the outcome of each probe:
/// none when the filter leaves it
/// out or when no probe succeeded.
pub fn select_device(
    index: u32,
    spec: Option<&Vec<u32>>,
    energy: bool,
    power: bool,
    vram: bool,
    utilization: bool,
) -> (r: Option<NvmlDevice>)
    ensures
        r matches Some(d) ==> d.index == index && d.support.bits == probed_support(
            energy,
            power,
            vram,
            utilization,
        ),
        r is Some <==> index_selected(index_filter_view(spec), index) && probed_support(
            energy,
            power,
            vram,
            utilization,
        ) != 0,
{
    if let Some(filter) = spec {
        if !contains_index(filter, index) {
            return None;
        }
    }
    let first: u8 = if energy {
        ProcessorSupport::ENERGY
    } else if power {
        ProcessorSupport::POWER
    } else {
        0
    };
    let second: u8 = if vram {
        ProcessorSupport::VRAM
    } else {
        0
    };
    let third: u8 = if utilization {
        ProcessorSupport::UTILIZATION
    } else {
        0
    };
    let support = ProcessorSupport::from_bits(first | second | third);
    if support.is_empty() {
        None
    } else {
        Some(NvmlDevice { index, support })
    }
}

/// Whether the devices are listed by increasing index, each through the
/// filter and with at least one reading.
pub open spec fn devices_well_chosen(devices: Seq<NvmlDevice>, spec: Option<Seq<u32>>) -> bool {
    &&& forall|i: int, j: int| 0 <= i < j < devices.len() ==> #[trigger] devices[i].index < #[trigger] devices[j].index
    &&& forall|i: int| 0 <= i < devices.len() ==> index_selected(spec, #[trigger] devices[i].index)
    &&& forall|i: int| 0 <= i < devices.len() ==> (#[trigger] devices[i]).support.bits != 0
}

/// The NVML library, through `nvml-wrapper`.
pub struct NvmlWrapperHardware {
    pub nvml: nvml_wrapper::Nvml,
}

impl NvmlWrapperHardware {
    /// Initializes NVML: a missing driver and
    /// missing permissions are told apart from the other failures.
    pub fn new() -> (r: Result<Self, NvmlSourceError>)
        ensures
            r matches Err(e) ==> e is NoDriverLoaded || e is NoPermission || e is Nvml,
    {
        match nvml_init() {
            Ok(nvml) => Ok(NvmlWrapperHardware { nvml }),
            Err(e) => Err(init_error(&e)),
        }
    }

    /// Probes one GPU: `None` when it cannot be opened or named, or when
    /// it is not to be read.
    fn probe(&self, index: u32, spec: Option<&Vec<u32>>) -> (r: Option<NvmlDevice>)
        ensures
            r matches Some(d) ==> d.index == index && index_selected(index_filter_view(spec), index)
                && d.support.bits != 0,
    {
        let device = match nvml_device_by_index(&self.nvml, index) {
            Ok(d) => d,
            Err(_) => return None,
        };
        if nvml_device_uuid(device.device()).is_err() {
            return None;
        }
        if let Some(filter) = spec {
            if !contains_index(filter, index) {
                return None;
            }
        }
        let energy = nvml_total_energy(&device).is_ok();
        let power = if energy {
            false
        } else {
            nvml_power_usage(device.device()).is_ok()
        };
        let vram = nvml_memory_used(device.device()).is_ok();
        let utilization = nvml_gpu_utilization(device.device()).is_ok();
        select_device(index, spec, energy, power, vram, utilization)
    }
}

impl NvmlHardware for NvmlWrapperHardware {
    /// Lists the GPUs the driver reports and keeps, in index order, those
    /// of the filter that can be opened and support at least one reading;
    /// only a failure to count the GPUs is an error.
    fn init_devices(&mut self, spec: Option<&Vec<u32>>) -> (r: Result<Vec<NvmlDevice>, NvmlSourceError>)
        ensures
            r matches Ok(devices) ==> devices_well_chosen(devices@, index_filter_view(spec)),
    {
        let count = match nvml_device_count(&self.nvml) {
            Ok(c) => c,
            Err(e) => return Err(library_error(&e)),
        };
        let mut devices: Vec<NvmlDevice> = Vec::new();
        let mut i: u32 = 0;
        while i < count
            invariant
                i <= count,
                devices_well_chosen(devices@, index_filter_view(spec)),
                forall|k: int| 0 <= k < devices@.len() ==> (#[trigger] devices@[k]).index < i,
            decreases count - i,
        {
            if let Some(d) = self.probe(i, spec) {
                devices.push(d);
            }
            i = i + 1;
        }
        Ok(devices)
    }

    fn get_energy(&self, device: &NvmlDevice) -> (r: Result<u64, NvmlSourceError>)
        ensures
            r matches Err(e) ==> e is Nvml,
            r matches Ok(v) ==> exists|e: EnergyReading|
                #![trigger e.energy()]
                e.index() == device.index && e.energy() == v,
    {
        let handle = match nvml_device_by_index(&self.nvml, device.index) {
            Ok(d) => d,
            Err(e) => return Err(library_error(&e)),
        };
        match nvml_total_energy(&handle) {
            Ok(v) => {
                let value = v.value();
                proof {
                    assert(v.index() == device.index && v.energy() == value);
                }
                Ok(value)
            },
            Err(e) => Err(library_error(&e)),
        }
    }

    fn get_power(&self, device: &NvmlDevice, timestamp: u128) -> (r: Result<PowerMeasurement, NvmlSourceError>)
        ensures
            r matches Ok(p) ==> p.timestamp == timestamp,
            r matches Err(e) ==> e is Nvml,
    {
        let handle = match nvml_device_by_index(&self.nvml, device.index) {
            Ok(d) => d,
            Err(e) => return Err(library_error(&e)),
        };
        match nvml_power_usage(handle.device()) {
            Ok(power) => Ok(PowerMeasurement { timestamp, power }),
            Err(e) => Err(library_error(&e)),
        }
    }

    fn get_vram_usage(&self, device: &NvmlDevice) -> (r: Result<u64, NvmlSourceError>)
        ensures
            r matches Err(e) ==> e is Nvml,
    {
        let handle = match nvml_device_by_index(&self.nvml, device.index) {
            Ok(d) => d,
            Err(e) => return Err(library_error(&e)),
        };
        match nvml_memory_used(handle.device()) {
            Ok(v) => Ok(v),
            Err(e) => Err(library_error(&e)),
        }
    }

    fn get_utilization(&self, device: &NvmlDevice) -> (r: Result<u32, NvmlSourceError>)
        ensures
            r matches Err(e) ==> e is Nvml,
    {
        let handle = match nvml_device_by_index(&self.nvml, device.index) {
            Ok(d) => d,
            Err(e) => return Err(library_error(&e)),
        };
        match nvml_gpu_utilization(handle.device()) {
            Ok(v) => Ok(v),
            Err(e) => Err(library_error(&e)),
        }
    }
}

} // verus!

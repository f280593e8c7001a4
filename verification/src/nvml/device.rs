//! Handles on the GPUs and energy readings, each tagged with the index of
//! the GPU it came from.

use vstd::prelude::*;

verus! {

/// The handle of a GPU, with the index it was obtained for.
pub struct GpuHandle<'a> {
    device: nvml_wrapper::Device<'a>,
    index: u32,
}

impl<'a> GpuHandle<'a> {
    /// The index the handle was obtained for.
    pub closed spec fn index(&self) -> u32 {
        self.index
    }

    /// The NVML device.
    pub fn device(&self) -> &nvml_wrapper::Device<'a> {
        &self.device
    }
}

/// An energy reading of a GPU, in millijoules, with the index of the GPU
/// it was read from.
pub struct EnergyReading {
    index: u32,
    energy: u64,
}

impl EnergyReading {
    /// The index of the GPU the reading came from.
    pub closed spec fn index(&self) -> u32 {
        self.index
    }

    /// The energy read.
    pub closed spec fn energy(&self) -> u64 {
        self.energy
    }

    /// The energy read, in millijoules.
    pub fn value(&self) -> (r: u64)
        ensures
            r == self.energy(),
    {
        self.energy
    }
}

/// The handle of the GPU at `index` (`Nvml::device_by_index`), tagged with
/// that index. Claimed: a handle carries the index it was asked for;
/// nothing is claimed of whether the GPU answers.
#[verifier::external_body]
pub(crate) fn nvml_device_by_index<'a>(nvml: &'a nvml_wrapper::Nvml, index: u32) -> (r: Result<
    GpuHandle<'a>,
    nvml_wrapper::error::NvmlError,
>)
    ensures
        r matches Ok(h) ==> h.index() == index,
{
    match nvml.device_by_index(index) {
        Ok(device) => Ok(GpuHandle { device, index }),
        Err(e) => Err(e),
    }
}

/// The energy a GPU consumed since the driver was loaded, in millijoules
/// (`Device::total_energy_consumption`), tagged with the index of the
/// GPU's handle. Claimed: the reading carries the handle's index; nothing
/// is claimed of the value, which the hardware gives.
#[verifier::external_body]
pub(crate) fn nvml_total_energy(handle: &GpuHandle) -> (r: Result<EnergyReading, nvml_wrapper::error::NvmlError>)
    ensures
        r matches Ok(e) ==> e.index() == handle.index(),
{
    match handle.device.total_energy_consumption() {
        Ok(energy) => Ok(EnergyReading { index: handle.index, energy }),
        Err(e) => Err(e),
    }
}

} // verus!

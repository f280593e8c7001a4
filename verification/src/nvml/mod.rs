//! The NVML source: the cumulative energy of NVIDIA GPUs, read through
//! `nvml-wrapper`, and the energy of each over a phase.

pub mod config;
pub mod device;
pub mod hardware;
pub mod source;

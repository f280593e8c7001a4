//! The Intel RAPL source: the energy domains, the CPU topology they are
//! read through, the opening of their counters and the energy of a phase.

pub mod config;
pub mod counters;
pub mod domain;
pub mod error;
pub mod processor;
pub mod sensor;
pub mod topology;

//! The AMD SMI source: GPU energy, power, VRAM and utilization counters,
//! and the sensors and metrics they give.

pub mod config;
pub mod counters;
pub mod error;
pub mod source;
pub mod state;

//! The command-line side of the profiler: the sources and output formats a
//! user can name, the profiler configuration and how the command line
//! overrides it, and the `-D KEY=VALUE` overrides.

pub mod options;
pub mod settings;
pub mod overrides;
pub mod tree;

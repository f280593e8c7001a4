//! Errors of the procfs source.

use vstd::prelude::*;

verus! {

/// The reason a read of `/proc` failed.
#[derive(Debug, Clone, Copy, PartialEq, Eq, Structural)]
pub enum ProcErrorKind {
    /// The process does not exist (any more).
    NotFound,
    /// The process exited while it was read.
    Incomplete,
    /// The read was not permitted.
    PermissionDenied,
    /// Any other failure.
    Other,
}

/// Errors that can occur while reading metrics from `/proc`.
#[derive(Debug)]
pub enum ProcfsError {
    /// The source was used before it was initialized.
    NotInitialized,
    /// A read of `/proc` failed.
    Procfs { kind: ProcErrorKind, message: String },
    /// An I/O error reading from `/proc` directly.
    Io(String),
}

} // verus!

//! Errors of the cgroup source.

use vstd::prelude::*;

verus! {

/// The kind of a failed filesystem operation.
#[derive(Debug, Clone, Copy, PartialEq, Eq, Structural)]
pub enum IoErrorKind {
    NotFound,
    PermissionDenied,
    Other,
}

/// A failed filesystem operation: its kind and the system's message.
#[derive(Debug, Clone)]
pub struct IoError {
    pub kind: IoErrorKind,
    pub message: String,
}

/// Main error type for all cgroup-related operations.
#[derive(Debug)]
pub enum CgroupError {
    /// The directory is not a cgroup v2 directory.
    NotAvailable(String),
    /// The cgroup directory does not exist.
    NotFound(String),
    /// Attempted to create a cgroup that already exists.
    AlreadyCreated(String),
    /// Failed to attach a PID to a cgroup.
    FailedToAttachPid { pid: i32, path: String, source: IoError },
    /// A controller is not enabled in the parent's `cgroup.subtree_control`.
    ControllerNotEnabled { controller: String, path: String },
    /// A controller is not available in the hierarchy at all.
    ControllerNotAvailable { controller: String, path: String },
    /// A metric expected to always exist in kernel stats was missing.
    MissingAlwaysPresentMetric(String),
    /// I/O error tied to a specific file path.
    IoPath { path: String, source: IoError },
    /// Failed to create the timer driving the background memory polling.
    Timer(IoError),
    /// Failed to parse a numeric value from a cgroup file.
    Parse { path: String },
    /// The operation needs privileges the process does not have.
    PermissionDenied(String),
    /// A background task failed.
    JoinError(String),
    /// The counters' lock was poisoned.
    MutexPoisoned,
}

impl CgroupError {
    /// An I/O error on `path`.
    pub fn io(path: &str, source: IoError) -> (e: CgroupError)
        ensures
            e matches CgroupError::IoPath { path: p, source: s } && p@ == path@ && s.kind
                == source.kind && s.message@ == source.message@,
    {
        CgroupError::IoPath { path: path.to_owned(), source }
    }
}

} // verus!

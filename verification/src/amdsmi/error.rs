//! Errors of the AMD SMI source.

use vstd::prelude::*;

verus! {

/// What can go wrong while reading the GPUs.
#[derive(Debug, Clone)]
pub enum AmdSmiError {
    /// The driver behind AMD SMI could not be found or loaded.
    NoDriverLoaded,
    /// The AMD SMI library could not be found.
    LibraryNotFound,
    /// No GPU with that UUID is known.
    NoSuchDevice(String),
    /// No GPU with that index is known.
    NoSuchDeviceFromIndex(usize),
    /// An I/O error, with its message.
    Io(String),
    /// A background task could not be joined, with the reason.
    JoinError(String),
    /// The AMD SMI library reported an error, with its message.
    Library(String),
}

} // verus!

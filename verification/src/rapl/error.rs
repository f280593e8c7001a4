//! Errors of the RAPL source.

use vstd::prelude::*;

use crate::rapl::domain::RaplDomain;

verus! {

/// What can go wrong while finding and reading the RAPL domains. The text
/// of an underlying I/O error is carried as a string.
#[derive(Debug)]
pub enum RaplError {
    /// A background task could not be joined.
    Join(String),
    /// The file of the online CPUs could not be read.
    ReadOnlineCpus(String, String),
    /// A range of the online CPUs is not two CPU ids.
    InvalidCpuRange(String),
    /// An entry of the online CPUs is not a CPU id.
    InvalidCpuId(String),
    /// The directory of the CPUs could not be read.
    ReadCpuDir(String, String),
    /// An entry of the directory of the CPUs could not be read.
    ReadCpuDirEntry(String),
    /// The events of the power PMU could not be listed.
    ReadPowerEvents(String, String),
    /// An event of the power PMU could not be read.
    ReadPowerEventsEntry(String),
    /// The socket of a CPU could not be read.
    ReadSocketId(String, String),
    /// The socket of a CPU is not an id.
    ParseSocketId(String),
    /// Opening a perf group on the CPU needs more privileges.
    PermissionDenied(u32, String),
    /// A perf group could not be opened on the CPU.
    OpenGroup(u32, String),
    /// The power PMU could not be opened.
    OpenPowerPmu(String),
    /// The event of a domain could not be configured.
    ConfigureEvent(RaplDomain, String),
    /// The scale of a domain could not be read.
    ReadScale(RaplDomain, String),
    /// No scale is reported for a domain.
    NoScale(RaplDomain),
    /// The event of a domain could not be built.
    BuildEvent(RaplDomain, String),
    /// The counter of a domain could not be opened on the CPU.
    OpenCounter(RaplDomain, u32, String),
    /// No RAPL domain is available.
    NoRaplDomain,
    /// The counter group of a socket could not be disabled.
    CannotDisableGroup(usize, String),
    /// A counter group could not be enabled.
    Enable(String),
    /// A counter group could not be read.
    Read(String),
    /// The hardware does not have the domain.
    DomainNotSupported(RaplDomain),
    /// No CPU of the socket could open the counter of a domain.
    FailToOpenDomainCounter(String),
    /// The scale of a counter could not be read.
    RetrieveScaleError,
}

} // verus!

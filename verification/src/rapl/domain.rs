//! The RAPL energy domains and their names.

use vstd::prelude::*;

use crate::text::{chars_of, chars_equal, decimal, decimal_string, push_all, string_of};

verus! {

/// A RAPL energy domain.
#[derive(Debug, Clone, Copy, PartialEq, Eq, Structural)]
pub enum RaplDomain {
    Package,
    Core,
    Uncore,
    Dram,
    Psys,
}

/// The perf event of a domain in the power PMU.
pub open spec fn perf_event_of(d: RaplDomain) -> Seq<char> {
    match d {
        RaplDomain::Package => "energy-pkg"@,
        RaplDomain::Core => "energy-cores"@,
        RaplDomain::Uncore => "energy-gpu"@,
        RaplDomain::Dram => "energy-ram"@,
        RaplDomain::Psys => "energy-psys"@,
    }
}

/// The domain of a perf event of the power PMU, if it is one.
pub open spec fn domain_of_event(name: Seq<char>) -> Option<RaplDomain> {
    if name == "energy-pkg"@ {
        Some(RaplDomain::Package)
    } else if name == "energy-cores"@ {
        Some(RaplDomain::Core)
    } else if name == "energy-gpu"@ {
        Some(RaplDomain::Uncore)
    } else if name == "energy-ram"@ {
        Some(RaplDomain::Dram)
    } else if name == "energy-psys"@ {
        Some(RaplDomain::Psys)
    } else {
        None
    }
}

/// The display name of a domain.
pub open spec fn display_of(d: RaplDomain) -> Seq<char> {
    match d {
        RaplDomain::Package => "PACKAGE"@,
        RaplDomain::Core => "CORE"@,
        RaplDomain::Uncore => "UNCORE"@,
        RaplDomain::Dram => "DRAM"@,
        RaplDomain::Psys => "PSYS"@,
    }
}

/// The sensor name of a domain on a socket: `<DOMAIN>-<socket>`, and
/// `PSYS` for the platform domain, which is not per socket.
pub open spec fn sensor_name(d: RaplDomain, socket: u32) -> Seq<char> {
    if d == RaplDomain::Psys {
        "PSYS"@
    } else {
        display_of(d) + "-"@ + decimal(socket as nat)
    }
}

/// The domains read on every socket, in order.
pub open spec fn per_socket_domains() -> Seq<RaplDomain> {
    seq![RaplDomain::Package, RaplDomain::Core, RaplDomain::Uncore, RaplDomain::Dram]
}

impl RaplDomain {
    /// The perf event of the domain.
    pub fn to_perf_event(self) -> (s: &'static str)
        ensures
            s@ == perf_event_of(self),
    {
        match self {
            RaplDomain::Package => "energy-pkg",
            RaplDomain::Core => "energy-cores",
            RaplDomain::Uncore => "energy-gpu",
            RaplDomain::Dram => "energy-ram",
            RaplDomain::Psys => "energy-psys",
        }
    }

    /// The domain of a perf event name.
    pub fn from_perf_event(name: &str) -> (r: Option<Self>)
        ensures
            r == domain_of_event(name@),
    {
        let v = chars_of(name);
        if chars_equal(&v, &chars_of("energy-pkg")) {
            Some(RaplDomain::Package)
        } else if chars_equal(&v, &chars_of("energy-cores")) {
            Some(RaplDomain::Core)
        } else if chars_equal(&v, &chars_of("energy-gpu")) {
            Some(RaplDomain::Uncore)
        } else if chars_equal(&v, &chars_of("energy-ram")) {
            Some(RaplDomain::Dram)
        } else if chars_equal(&v, &chars_of("energy-psys")) {
            Some(RaplDomain::Psys)
        } else {
            None
        }
    }

    /// The display name of the domain (its `Display` text).
    pub fn display_name(self) -> (s: &'static str)
        ensures
            s@ == display_of(self),
    {
        match self {
            RaplDomain::Package => "PACKAGE",
            RaplDomain::Core => "CORE",
            RaplDomain::Uncore => "UNCORE",
            RaplDomain::Dram => "DRAM",
            RaplDomain::Psys => "PSYS",
        }
    }

    /// The sensor name of the domain on a socket.
    pub fn name(self, socket: u32) -> (s: String)
        ensures
            s@ == sensor_name(self, socket),
    {
        match self {
            RaplDomain::Psys => "PSYS".to_owned(),
            _ => {
                let mut v = chars_of(self.display_name());
                push_all(&mut v, &chars_of("-"));
                push_all(&mut v, &chars_of(decimal_string(socket as u128).as_str()));
                string_of(v)
            },
        }
    }
}

/// Going through the perf event name and back gives the domain again.
pub proof fn law_perf_event_round_trip(d: RaplDomain)
    ensures
        domain_of_event(perf_event_of(d)) == Some(d),
{
    reveal_strlit("energy-pkg");
    reveal_strlit("energy-cores");
    reveal_strlit("energy-gpu");
    reveal_strlit("energy-ram");
    reveal_strlit("energy-psys");
    let pkg = "energy-pkg"@;
    let cores = "energy-cores"@;
    let gpu = "energy-gpu"@;
    let ram = "energy-ram"@;
    let psys = "energy-psys"@;
    assert(pkg.len() == 10 && cores.len() == 12 && gpu.len() == 10 && ram.len() == 10 && psys.len()
        == 11);
    assert(pkg[7] == 'p' && gpu[7] == 'g' && ram[7] == 'r');
    assert(pkg != gpu && pkg != ram && gpu != ram);
}

/// Different domains have different perf events.
pub proof fn law_perf_events_distinct(a: RaplDomain, b: RaplDomain)
    requires
        a != b,
    ensures
        perf_event_of(a) != perf_event_of(b),
{
    law_perf_event_round_trip(a);
    law_perf_event_round_trip(b);
}

} // verus!

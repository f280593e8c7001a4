//! Opening the perf counters of the RAPL domains, one counter group per
//! socket.

use vstd::prelude::*;

use crate::rapl::domain::RaplDomain;
use crate::rapl::error::RaplError;
use crate::text::{chars_of, decimal_string, push_all, string_of};

verus! {

/// A socket and the online CPUs it holds.
#[derive(Debug)]
pub struct SocketInfo {
    pub id: u32,
    pub cpus: Vec<u32>,
}

/// The opening of perf counters: a group per socket and a counter per
/// domain, as the perf interface provides them.
///
/// The answers of `configure` and `open_on_cpu` are stated through
/// predicates that an interface may define; one that does not define them
/// claims nothing of its answers.
pub trait PerfOpener {
    /// A counter group.
    type Group;
    /// A counter.
    type Counter;

    /// What `configure` may answer for `domain`.
    open spec fn configure_post(domain: RaplDomain, r: Result<(), RaplError>) -> bool {
        true
    }

    /// What `open_on_cpu` may answer for `domain` on `cpu`.
    open spec fn open_post(domain: RaplDomain, cpu: u32, r: Result<Self::Counter, RaplError>) -> bool {
        true
    }

    /// Opens the counter group of a socket.
    fn build_group(&mut self, socket: &SocketInfo) -> Result<Self::Group, RaplError>;

    /// Selects the event of a domain in the power PMU; a domain the
    /// hardware does not have gives [`RaplError::DomainNotSupported`].
    fn configure(&mut self, domain: RaplDomain) -> (r: Result<(), RaplError>)
        ensures
            Self::configure_post(domain, r),
    ;

    /// Opens the counter of the selected event on a CPU, in the group.
    fn open_on_cpu(
        &mut self,
        domain: RaplDomain,
        cpu: u32,
        group: &mut Self::Group,
    ) -> (r: Result<Self::Counter, RaplError>)
        ensures
            Self::open_post(domain, cpu, r),
    ;

    /// Enables a counter group.
    fn enable(&mut self, group: &mut Self::Group) -> Result<(), RaplError>;
}

/// The counter of a domain.
pub struct PerfRaplDomain<C> {
    pub domain: RaplDomain,
    pub counter: C,
}

/// The counters of a socket.
pub struct Socket<G, C> {
    pub id: u32,
    pub group: G,
    pub domains: Vec<PerfRaplDomain<C>>,
}

/// The rank of a domain in the order they are opened.
pub open spec fn domain_rank(d: RaplDomain) -> int {
    match d {
        RaplDomain::Package => 0,
        RaplDomain::Core => 1,
        RaplDomain::Uncore => 2,
        RaplDomain::Dram => 3,
        RaplDomain::Psys => 4,
    }
}

/// The `Debug` name of a domain.
pub open spec fn debug_of(d: RaplDomain) -> Seq<char> {
    match d {
        RaplDomain::Package => "Package"@,
        RaplDomain::Core => "Core"@,
        RaplDomain::Uncore => "Uncore"@,
        RaplDomain::Dram => "Dram"@,
        RaplDomain::Psys => "Psys"@,
    }
}

fn debug_name(d: RaplDomain) -> (s: &'static str)
    ensures
        s@ == debug_of(d),
{
    match d {
        RaplDomain::Package => "Package",
        RaplDomain::Core => "Core",
        RaplDomain::Uncore => "Uncore",
        RaplDomain::Dram => "Dram",
        RaplDomain::Psys => "Psys",
    }
}

/// Whether the domains are opened in order, the platform domain only on
/// socket 0.
pub open spec fn domains_in_order<C>(id: u32, ds: Seq<PerfRaplDomain<C>>) -> bool {
    &&& forall|i: int, j: int| 0 <= i < j < ds.len() ==> domain_rank(ds[i].domain) < domain_rank(ds[j].domain)
    &&& forall|i: int| 0 <= i < ds.len() ==> (#[trigger] ds[i].domain == RaplDomain::Psys ==> id == 0)
}

/// How opening the counter of `domain` on a socket whose CPUs are `cpus`
/// went, from what the perf interface answered: `configured` to the
/// selection of the event, then `answers` to the opens on the CPUs, tried in
/// order. A failed selection is handed on and no CPU is tried; otherwise
/// the first CPU that opens the counter gives it, and when none does the
/// result is [`RaplError::FailToOpenDomainCounter`].
pub open spec fn event_opened<O: PerfOpener>(
    domain: RaplDomain,
    cpus: Seq<u32>,
    configured: Result<(), RaplError>,
    answers: Seq<Result<O::Counter, RaplError>>,
    r: Result<O::Counter, RaplError>,
) -> bool {
    &&& O::configure_post(domain, configured)
    &&& answers.len() <= cpus.len()
    &&& forall|k: int| 0 <= k < answers.len() ==> O::open_post(domain, cpus[k], #[trigger] answers[k])
    &&& match configured {
        Err(e) => answers.len() == 0 && r == Err::<O::Counter, RaplError>(e),
        Ok(_) => match r {
            Ok(c) => answers.len() > 0 && answers.last() == Ok::<O::Counter, RaplError>(c) && forall|
                k: int,
            |
                0 <= k < answers.len() - 1 ==> (#[trigger] answers[k]) is Err,
            Err(e) => answers.len() == cpus.len() && (forall|k: int|
                0 <= k < answers.len() ==> (#[trigger] answers[k]) is Err) && e is FailToOpenDomainCounter,
        },
    }
}

/// Whether `r` is an outcome of opening the counter of `domain` on a socket
/// whose CPUs are `cpus`, for some answers of the perf interface.
pub open spec fn event_outcome<O: PerfOpener>(domain: RaplDomain, cpus: Seq<u32>, r: Result<O::Counter, RaplError>) -> bool {
    exists|configured: Result<(), RaplError>, answers: Seq<Result<O::Counter, RaplError>>|
        #[trigger] event_opened::<O>(domain, cpus, configured, answers, r)
}

/// Opens the counter of a domain on a socket, trying
/// each CPU of the socket in turn until one opens it, since some PMUs are
/// only reachable through some CPUs.
pub fn open_event<O: PerfOpener>(
    opener: &mut O,
    domain: RaplDomain,
    socket: &SocketInfo,
    group: &mut O::Group,
) -> (r: Result<O::Counter, RaplError>)
    ensures
        event_outcome::<O>(domain, socket.cpus@, r),
        socket.cpus@.len() == 0 ==> r is Err,
{
    let configured = opener.configure(domain);
    let ghost conf = configured;
    match configured {
        Ok(()) => {},
        Err(e) => {
            proof {
                assert(event_opened::<O>(domain, socket.cpus@, conf, Seq::empty(), Err(e)));
            }
            return Err(e);
        },
    }
    let ghost mut answers: Seq<Result<O::Counter, RaplError>> = Seq::empty();
    let mut k: usize = 0;
    while k < socket.cpus.len()
        invariant
            k <= socket.cpus@.len(),
            conf is Ok,
            O::configure_post(domain, conf),
            answers.len() == k,
            forall|i: int| 0 <= i < k ==> O::open_post(domain, socket.cpus@[i], #[trigger] answers[i]),
            forall|i: int| 0 <= i < k ==> (#[trigger] answers[i]) is Err,
        decreases socket.cpus@.len() - k,
    {
        let opened = opener.open_on_cpu(domain, socket.cpus[k], group);
        proof {
            answers = answers.push(opened);
        }
        match opened {
            Ok(counter) => {
                proof {
                    assert(answers.last() == Ok::<O::Counter, RaplError>(counter));
                    assert(event_opened::<O>(domain, socket.cpus@, conf, answers, Ok(counter)));
                }
                return Ok(counter);
            },
            Err(_) => {},
        }
        k = k + 1;
    }
    let mut v = chars_of("unable to find a CPU associated with the ");
    push_all(&mut v, &chars_of(decimal_string(socket.id as u128).as_str()));
    push_all(&mut v, &chars_of(" socket's PMU for domain "));
    push_all(&mut v, &chars_of(debug_name(domain)));
    let e = RaplError::FailToOpenDomainCounter(string_of(v));
    proof {
        assert(event_opened::<O>(domain, socket.cpus@, conf, answers, Err(e)));
    }
    Err(e)
}

/// Opens the counter of a domain and adds it to `domains`;
/// a domain the hardware does not
/// have is skipped.
pub fn add_counter_to_domain_if_supported<O: PerfOpener>(
    opener: &mut O,
    domain_type: RaplDomain,
    socket: &SocketInfo,
    group: &mut O::Group,
    domains: &mut Vec<PerfRaplDomain<O::Counter>>,
) -> (r: Result<(), RaplError>)
    ensures
        final(domains)@.len() == old(domains)@.len() || (final(domains)@.len() == old(domains)@.len()
            + 1 && final(domains)@.last().domain == domain_type),
        forall|i: int| 0 <= i < old(domains)@.len() ==> final(domains)@[i] == old(domains)@[i],
        r is Err ==> final(domains)@.len() == old(domains)@.len(),
        r matches Err(e) ==> !(e is DomainNotSupported),
        exists|opened: Result<O::Counter, RaplError>|
            #![trigger domain_recorded(opened, domain_type, old(domains)@, final(domains)@, r)]
            event_outcome::<O>(domain_type, socket.cpus@, opened) && domain_recorded(
                opened,
                domain_type,
                old(domains)@,
                final(domains)@,
                r,
            ),
{
    let opened = open_event(opener, domain_type, socket, group);
    let ghost outcome = opened;
    let r = record_domain(opened, domain_type, domains);
    proof {
        assert(domain_recorded(outcome, domain_type, old(domains)@, domains@, r));
    }
    r
}

/// What filing the outcome `opened` of opening a domain's counter does to
/// the domains: an opened counter is added, a domain the hardware does not
/// have is skipped, and any other failure is handed on.
pub open spec fn domain_recorded<C>(
    opened: Result<C, RaplError>,
    domain: RaplDomain,
    before: Seq<PerfRaplDomain<C>>,
    after: Seq<PerfRaplDomain<C>>,
    r: Result<(), RaplError>,
) -> bool {
    match opened {
        Ok(c) => r is Ok && after == before.push((PerfRaplDomain { domain, counter: c })),
        Err(RaplError::DomainNotSupported(_)) => r is Ok && after == before,
        Err(e) => r == Err::<(), RaplError>(e) && after == before,
    }
}

/// Files the outcome of opening a domain's counter: an opened counter is
/// added to `domains`, a domain the hardware does not have is skipped, and
/// any other failure is handed on.
pub fn record_domain<C>(
    opened: Result<C, RaplError>,
    domain: RaplDomain,
    domains: &mut Vec<PerfRaplDomain<C>>,
) -> (r: Result<(), RaplError>)
    ensures
        domain_recorded(opened, domain, old(domains)@, final(domains)@, r),
{
    match opened {
        Ok(counter) => {
            domains.push(PerfRaplDomain { domain, counter });
            Ok(())
        },
        Err(RaplError::DomainNotSupported(_)) => Ok(()),
        Err(e) => Err(e),
    }
}

/// Files the outcome of opening the platform counter: the counter when it
/// opened, `None` when the hardware does not have it, any other failure
/// handed on.
pub fn record_psys<C>(opened: Result<C, RaplError>) -> (r: Result<Option<PerfRaplDomain<C>>, RaplError>)
    ensures
        match opened {
            Ok(c) => r == Ok::<Option<PerfRaplDomain<C>>, RaplError>(
                Some((PerfRaplDomain { domain: RaplDomain::Psys, counter: c })),
            ),
            Err(RaplError::DomainNotSupported(_)) => r == Ok::<Option<PerfRaplDomain<C>>, RaplError>(
                None,
            ),
            Err(e) => r == Err::<Option<PerfRaplDomain<C>>, RaplError>(e),
        },
{
    match opened {
        Ok(counter) => Ok(Some(PerfRaplDomain { domain: RaplDomain::Psys, counter })),
        Err(RaplError::DomainNotSupported(_)) => Ok(None),
        Err(e) => Err(e),
    }
}

/// Opens the platform counter: `None` when the
/// hardware does not have it.
pub fn open_psys_counter<O: PerfOpener>(
    opener: &mut O,
    socket: &SocketInfo,
    group: &mut O::Group,
) -> (r: Result<Option<PerfRaplDomain<O::Counter>>, RaplError>)
    ensures
        r matches Ok(Some(d)) ==> d.domain == RaplDomain::Psys,
        r matches Err(e) ==> !(e is DomainNotSupported),
        exists|opened: Result<O::Counter, RaplError>|
            #![trigger event_outcome::<O>(RaplDomain::Psys, socket.cpus@, opened)]
            event_outcome::<O>(RaplDomain::Psys, socket.cpus@, opened) && r == match opened {
                Ok(c) => Ok::<Option<PerfRaplDomain<O::Counter>>, RaplError>(
                    Some((PerfRaplDomain { domain: RaplDomain::Psys, counter: c })),
                ),
                Err(RaplError::DomainNotSupported(_)) => Ok::<
                    Option<PerfRaplDomain<O::Counter>>,
                    RaplError,
                >(None),
                Err(e) => Err::<Option<PerfRaplDomain<O::Counter>>, RaplError>(e),
            },
{
    let opened = open_event(opener, RaplDomain::Psys, socket, group);
    let ghost outcome = opened;
    let r = record_psys(opened);
    proof {
        assert(event_outcome::<O>(RaplDomain::Psys, socket.cpus@, outcome));
    }
    r
}

/// The domains opened on a socket, in order: package, cores, uncore and
/// DRAM on every socket, then the platform domain on socket 0 only.
pub open spec fn socket_domain_order(socket_id: u32) -> Seq<RaplDomain> {
    let base = seq![RaplDomain::Package, RaplDomain::Core, RaplDomain::Uncore, RaplDomain::Dram];
    if socket_id == 0 {
        base.push(RaplDomain::Psys)
    } else {
        base
    }
}

/// The domains to open on a socket, in order.
pub fn domain_order(socket_id: u32) -> (r: Vec<RaplDomain>)
    ensures
        r@ == socket_domain_order(socket_id),
{
    let mut order = vec![RaplDomain::Package, RaplDomain::Core, RaplDomain::Uncore, RaplDomain::Dram];
    if socket_id == 0 {
        order.push(RaplDomain::Psys);
    }
    order
}

/// The counters kept from the outcomes of opening the domains of `order`,
/// in order: an opened counter is kept, a domain the hardware does not have
/// is skipped, and the first other failure is the result.
pub open spec fn kept_domains<C>(order: Seq<RaplDomain>, outcomes: Seq<Result<C, RaplError>>) -> Result<
    Seq<PerfRaplDomain<C>>,
    RaplError,
>
    decreases outcomes.len(),
{
    if outcomes.len() == 0 {
        Ok(Seq::empty())
    } else {
        match kept_domains(order, outcomes.drop_last()) {
            Err(e) => Err(e),
            Ok(ds) => match outcomes.last() {
                Ok(c) => Ok(ds.push((PerfRaplDomain { domain: order[outcomes.len() - 1], counter: c }))),
                Err(RaplError::DomainNotSupported(_)) => Ok(ds),
                Err(e) => Err(e),
            },
        }
    }
}

/// Whether `ds` are the counters kept when every domain of a socket was
/// tried, with these outcomes.
pub open spec fn domains_from<O: PerfOpener>(
    socket_id: u32,
    cpus: Seq<u32>,
    outcomes: Seq<Result<O::Counter, RaplError>>,
    ds: Seq<PerfRaplDomain<O::Counter>>,
) -> bool {
    let order = socket_domain_order(socket_id);
    &&& outcomes.len() == order.len()
    &&& forall|k: int| 0 <= k < outcomes.len() ==> event_outcome::<O>(order[k], cpus, #[trigger] outcomes[k])
    &&& kept_domains(order, outcomes) == Ok::<Seq<PerfRaplDomain<O::Counter>>, RaplError>(ds)
}

/// Whether `ds` are the counters kept when every domain of a socket was
/// tried, for some outcomes of the opens.
pub open spec fn domains_opened<O: PerfOpener>(socket_id: u32, cpus: Seq<u32>, ds: Seq<PerfRaplDomain<O::Counter>>) -> bool {
    exists|outcomes: Seq<Result<O::Counter, RaplError>>| #[trigger] domains_from::<O>(socket_id, cpus, outcomes, ds)
}

/// How opening the counters of a socket went, from the outcomes of opening
/// its domains in order: every domain is tried when all succeed or are
/// missing, and trying stops at the first other failure, which is the
/// result.
pub open spec fn socket_opened<O: PerfOpener>(
    socket_id: u32,
    cpus: Seq<u32>,
    outcomes: Seq<Result<O::Counter, RaplError>>,
    r: Result<Vec<PerfRaplDomain<O::Counter>>, RaplError>,
) -> bool {
    let order = socket_domain_order(socket_id);
    &&& outcomes.len() <= order.len()
    &&& forall|k: int| 0 <= k < outcomes.len() ==> event_outcome::<O>(order[k], cpus, #[trigger] outcomes[k])
    &&& match r {
        Ok(ds) => outcomes.len() == order.len() && kept_domains(order, outcomes) == Ok::<
            Seq<PerfRaplDomain<O::Counter>>,
            RaplError,
        >(ds@),
        Err(e) => outcomes.len() > 0 && kept_domains(order, outcomes.drop_last()) is Ok
            && kept_domains(order, outcomes) == Err::<Seq<PerfRaplDomain<O::Counter>>, RaplError>(e),
    }
}

/// Opens the counters of a socket: package,
/// cores, uncore and DRAM on every socket, the platform domain on socket
/// 0 only; domains the hardware does not have are skipped.
pub fn open_counters_for_socket<O: PerfOpener>(
    opener: &mut O,
    socket: &SocketInfo,
    group: &mut O::Group,
) -> (r: Result<Vec<PerfRaplDomain<O::Counter>>, RaplError>)
    ensures
        exists|outcomes: Seq<Result<O::Counter, RaplError>>|
            #[trigger] socket_opened::<O>(socket.id, socket.cpus@, outcomes, r),
        r matches Ok(ds) ==> domains_in_order(socket.id, ds@),
        r matches Err(e) ==> !(e is DomainNotSupported),
{
    let mut domains: Vec<PerfRaplDomain<O::Counter>> = Vec::new();
    let order = domain_order(socket.id);
    let ghost mut outcomes: Seq<Result<O::Counter, RaplError>> = Seq::empty();
    let mut k: usize = 0;
    while k < order.len()
        invariant
            k <= order@.len(),
            order@ == socket_domain_order(socket.id),
            outcomes.len() == k,
            forall|i: int| 0 <= i < k ==> event_outcome::<O>(order@[i], socket.cpus@, #[trigger] outcomes[i]),
            kept_domains(order@, outcomes) == Ok::<Seq<PerfRaplDomain<O::Counter>>, RaplError>(domains@),
            forall|i: int, j: int| 0 <= i < j < domains@.len() ==> domain_rank(domains@[i].domain) < domain_rank(domains@[j].domain),
            forall|i: int| 0 <= i < domains@.len() ==> domain_rank(#[trigger] domains@[i].domain) < k,
            forall|i: int| 0 <= i < domains@.len() ==> (#[trigger] domains@[i].domain == RaplDomain::Psys ==> socket.id == 0),
        decreases order@.len() - k,
    {
        let ghost before = domains@;
        let added = add_counter_to_domain_if_supported(opener, order[k], socket, group, &mut domains);
        let ghost opened = choose|opened: Result<O::Counter, RaplError>|
            event_outcome::<O>(order@[k as int], socket.cpus@, opened) && domain_recorded(
                opened,
                order@[k as int],
                before,
                domains@,
                added,
            );
        proof {
            let prev = outcomes;
            outcomes = outcomes.push(opened);
            assert(outcomes.drop_last() =~= prev);
            assert(outcomes.last() == opened);
            assert(kept_domains(order@, prev) == Ok::<Seq<PerfRaplDomain<O::Counter>>, RaplError>(before));
            assert(kept_domains(order@, outcomes) == match opened {
                Ok(c) => Ok::<Seq<PerfRaplDomain<O::Counter>>, RaplError>(
                    before.push((PerfRaplDomain { domain: order@[k as int], counter: c })),
                ),
                Err(RaplError::DomainNotSupported(_)) => Ok::<Seq<PerfRaplDomain<O::Counter>>, RaplError>(before),
                Err(e) => Err::<Seq<PerfRaplDomain<O::Counter>>, RaplError>(e),
            });
            assert(domain_rank(order@[k as int]) == k);
            assert(order@[k as int] == RaplDomain::Psys ==> socket.id == 0);
        }
        match added {
            Ok(()) => {},
            Err(e) => {
                proof {
                    assert(socket_opened::<O>(socket.id, socket.cpus@, outcomes, Err(e)));
                }
                return Err(e);
            },
        }
        k = k + 1;
    }
    proof {
        assert(socket_opened::<O>(socket.id, socket.cpus@, outcomes, Ok(domains)));
    }
    Ok(domains)
}

/// Whether the sockets are those of the topology that have CPUs, in order.
pub open spec fn sockets_match<G, C>(topology: Seq<SocketInfo>, sockets: Seq<Socket<G, C>>) -> bool {
    sockets.map_values(|s: Socket<G, C>| s.id) == topology.filter(|t: SocketInfo| t.cpus@.len() > 0).map_values(
        |t: SocketInfo| t.id,
    )
}

/// Opens and enables the counters of every socket that has CPUs;
/// sockets without CPUs are skipped. Any failure to
/// open a counter of a domain the hardware has is returned.
pub fn open_counters<O: PerfOpener>(opener: &mut O, socket_topology: &Vec<SocketInfo>) -> (r: Result<
    Vec<Socket<O::Group, O::Counter>>,
    RaplError,
>)
    ensures
        r matches Ok(sockets) ==> sockets_match(socket_topology@, sockets@) && forall|i: int|
            0 <= i < sockets@.len() ==> domains_in_order(
                (#[trigger] sockets@[i]).id,
                sockets@[i].domains@,
            ),
        (forall|i: int| 0 <= i < socket_topology@.len() ==> (#[trigger] socket_topology@[i]).cpus@.len()
            == 0) ==> (r matches Ok(s) && s@.len() == 0),
        r matches Ok(sockets) ==> forall|i: int|
            #![trigger sockets@[i]]
            0 <= i < sockets@.len() ==> exists|j: int|
                #![trigger socket_topology@[j]]
                0 <= j < socket_topology@.len() && socket_topology@[j].id == sockets@[i].id && domains_opened::<O>(
                    sockets@[i].id,
                    socket_topology@[j].cpus@,
                    sockets@[i].domains@,
                ),
{
    let ghost topo = socket_topology@;
    let mut sockets: Vec<Socket<O::Group, O::Counter>> = Vec::new();
    let mut k: usize = 0;
    proof {
        reveal(Seq::filter);
        assert(topo.take(0) =~= Seq::<SocketInfo>::empty());
        assert(topo.take(0).filter(|t: SocketInfo| t.cpus@.len() > 0) =~= Seq::<SocketInfo>::empty());
        assert(sockets@.map_values(|s: Socket<O::Group, O::Counter>| s.id) =~= Seq::<u32>::empty());
        assert(topo.take(0).filter(|t: SocketInfo| t.cpus@.len() > 0).map_values(|t: SocketInfo| t.id)
            =~= Seq::<u32>::empty());
    }
    while k < socket_topology.len()
        invariant
            k <= topo.len(),
            topo == socket_topology@,
            sockets_match(topo.take(k as int), sockets@),
            forall|i: int| 0 <= i < sockets@.len() ==> domains_in_order(
                (#[trigger] sockets@[i]).id,
                sockets@[i].domains@,
            ),
            (forall|i: int| 0 <= i < topo.len() ==> (#[trigger] topo[i]).cpus@.len() == 0) ==> sockets@.len() == 0,
            forall|i: int|
                #![trigger sockets@[i]]
                0 <= i < sockets@.len() ==> exists|j: int|
                #![trigger topo[j]]
                0 <= j < topo.len() && topo[j].id == sockets@[i].id && domains_opened::<O>(
                    sockets@[i].id,
                    topo[j].cpus@,
                    sockets@[i].domains@,
                ),
        decreases topo.len() - k,
    {
        let info = &socket_topology[k];
        let ghost f0 = topo.take(k as int).filter(|t: SocketInfo| t.cpus@.len() > 0);
        proof {
            reveal(Seq::filter);
            assert(topo.take(k + 1).drop_last() =~= topo.take(k as int));
            assert(topo.take(k + 1).last() == topo[k as int]);
            if topo[k as int].cpus@.len() > 0 {
                assert(topo.take(k + 1).filter(|t: SocketInfo| t.cpus@.len() > 0) == f0.push(topo[k as int]));
                assert(f0.push(topo[k as int]).map_values(|t: SocketInfo| t.id) =~= f0.map_values(
                    |t: SocketInfo| t.id,
                ).push(topo[k as int].id));
            } else {
                assert(topo.take(k + 1).filter(|t: SocketInfo| t.cpus@.len() > 0) == f0);
            }
        }
        if info.cpus.len() > 0 {
            let mut group = match opener.build_group(info) {
                Ok(g) => g,
                Err(e) => return Err(e),
            };
            let domains = match open_counters_for_socket(opener, info, &mut group) {
                Ok(d) => d,
                Err(e) => return Err(e),
            };
            match opener.enable(&mut group) {
                Ok(()) => {},
                Err(e) => return Err(e),
            }
            let ghost before = sockets@;
            let ghost outcomes = choose|outcomes: Seq<Result<O::Counter, RaplError>>|
                socket_opened::<O>(info.id, info.cpus@, outcomes, Ok(domains));
            proof {
                assert(domains_from::<O>(info.id, info.cpus@, outcomes, domains@));
            }
            sockets.push(Socket { id: info.id, group, domains });
            proof {
                assert forall|i: int| #![trigger sockets@[i]] 0 <= i < sockets@.len() implies exists|j: int|
                    #![trigger topo[j]]
                    0 <= j < topo.len() && topo[j].id == sockets@[i].id && domains_opened::<O>(
                        sockets@[i].id,
                        topo[j].cpus@,
                        sockets@[i].domains@,
                    ) by {
                    if i < before.len() {
                        assert(sockets@[i] == before[i]);
                    } else {
                        assert(topo[k as int] == *info);
                        assert(sockets@[i].domains@ == domains@);
                    }
                }
                assert(sockets@.map_values(|s: Socket<O::Group, O::Counter>| s.id) =~= before.map_values(
                    |s: Socket<O::Group, O::Counter>| s.id,
                ).push(info.id));
            }
        }
        k = k + 1;
    }
    proof {
        assert(topo.take(topo.len() as int) =~= topo);
    }
    Ok(sockets)
}

} // verus!

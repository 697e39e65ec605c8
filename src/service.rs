//! Services, their ports, the assignments that an orchestrator makes for each
//! process, and the addresses those assignments resolve to.

use vstd::prelude::*;
use vstd::string::StringExecFns;

verus! {

/// A named port associated with a service.
#[derive(Debug, Clone, PartialEq, Eq)]
pub struct ServicePort {
    /// A descriptive name for the port.
    pub name: String,
    /// The desired port number; not all orchestrator backends use the hint.
    pub port_hint: u16,
}

/// Describes the status of an orchestrated service.
#[derive(Debug, Clone, Copy, PartialEq, Eq, Structural)]
pub enum ServiceStatus {
    /// Service is ready to accept requests.
    Ready,
    /// Service is not ready to accept requests.
    NotReady,
    /// Service status is unknown.
    Unknown,
}

/// An event describing a status change of one process of a service.
#[derive(Debug, Clone)]
pub struct ServiceEvent {
    pub service_id: String,
    pub process_id: i64,
    pub status: ServiceStatus,
    /// When the change happened, in milliseconds since the Unix epoch (UTC).
    pub time_millis: i64,
}

/// A port number assigned to each port name.
pub type PortMap = Vec<(String, u16)>;

/// The port that `ports` assigns to `name`: that of the first entry with the
/// name, if any.
pub open spec fn port_lookup(ports: Seq<(String, u16)>, name: Seq<char>) -> Option<u16>
    decreases ports.len(),
{
    if ports.len() == 0 {
        None
    } else {
        match port_lookup(ports.drop_last(), name) {
            Some(p) => Some(p),
            None => if ports.last().0@ == name {
                Some(ports.last().1)
            } else {
                None
            },
        }
    }
}

/// The decimal digit for `d`, where `d < 10`.
pub open spec fn digit_char(d: nat) -> char {
    seq!['0', '1', '2', '3', '4', '5', '6', '7', '8', '9'][d as int]
}

/// The decimal digits of `n`, without leading zeros.
pub open spec fn decimal(n: nat) -> Seq<char>
    decreases n,
{
    if n < 10 {
        seq![digit_char(n)]
    } else {
        decimal(n / 10).push(digit_char(n % 10))
    }
}

/// The network address of a port on a host: `host:port`.
pub open spec fn address_text(host: Seq<char>, port: u16) -> Seq<char> {
    host + seq![':'] + decimal(port as nat)
}

/// Relies on `format!` with `{}` for a `str` and a `u16`: the host as given,
/// a colon, then the port's decimal digits.
#[verifier::external_body]
fn host_port(host: &str, port: u16) -> (r: String)
    ensures
        r@ == address_text(host@, port),
{
    format!("{}:{}", host, port)
}

/// Looks up the port that `ports` assigns to `name`.
pub fn lookup_port(ports: &PortMap, name: &str) -> (r: Option<u16>)
    ensures
        r == port_lookup(ports@, name@),
{
    let key = String::from_str(name);
    let mut i: usize = 0;
    while i < ports.len()
        invariant
            i <= ports.len(),
            key@ == name@,
            port_lookup(ports@.take(i as int), name@) is None,
        decreases ports.len() - i,
    {
        assert(ports@.take(i + 1).drop_last() == ports@.take(i as int));
        assert(ports@.take(i + 1).last() == ports@[i as int]);
        if ports[i].0 == key {
            proof {
                assert(port_lookup(ports@.take(i + 1), name@) == Some(ports@[i as int].1));
                lemma_lookup_prefix(ports@, name@, i + 1);
            }
            return Some(ports[i].1);
        }
        i = i + 1;
    }
    assert(ports@.take(ports.len() as int) == ports@);
    None
}

/// A name found in a prefix of a port map is found, with the same port, in
/// the whole map.
proof fn lemma_lookup_prefix(ports: Seq<(String, u16)>, name: Seq<char>, n: int)
    requires
        0 <= n <= ports.len(),
        port_lookup(ports.take(n), name) is Some,
    ensures
        port_lookup(ports, name) == port_lookup(ports.take(n), name),
    decreases ports.len() - n,
{
    if n < ports.len() {
        assert(ports.take(n + 1).drop_last() == ports.take(n));
        lemma_lookup_prefix(ports, name, n + 1);
    } else {
        assert(ports.take(n) == ports);
    }
}

/// The peers of a service, in order: each one's host and assigned ports.
pub type PeerList = Vec<(String, PortMap)>;

/// Whether every peer assigns a port to `name`.
pub open spec fn all_peers_have_port(peers: Seq<(String, PortMap)>, name: Seq<char>) -> bool {
    forall|i: int| 0 <= i < peers.len() ==> port_lookup((#[trigger] peers[i]).1@, name) is Some
}

/// The address of port `name` on each peer, in peer order.
pub open spec fn peer_address_list(peers: Seq<(String, PortMap)>, name: Seq<char>) -> Seq<
    Seq<char>,
> {
    Seq::new(
        peers.len(),
        |i: int| address_text(peers[i].0@, port_lookup(peers[i].1@, name).unwrap()),
    )
}

/// Resolves port `name` on each peer to that peer's `host:port` address,
/// in peer order.
pub fn peer_addresses(peers: &PeerList, name: &str) -> (r: Vec<String>)
    requires
        all_peers_have_port(peers@, name@),
    ensures
        r.len() == peers.len(),
        r@.map_values(|a: String| a@) == peer_address_list(peers@, name@),
{
    let mut out: Vec<String> = Vec::new();
    let mut i: usize = 0;
    while i < peers.len()
        invariant
            i <= peers.len(),
            all_peers_have_port(peers@, name@),
            out@.len() == i,
            forall|j: int| 0 <= j < i ==> (#[trigger] out@[j])@ == peer_address_list(peers@, name@)[j],
        decreases peers.len() - i,
    {
        let peer = &peers[i];
        assert(port_lookup(peers@[i as int].1@, name@) is Some);
        let port = lookup_port(&peer.1, name);
        let port = match port {
            Some(p) => p,
            None => {
                assert(false);
                0
            }
        };
        out.push(host_port(peer.0.as_str(), port));
        i = i + 1;
    }
    assert(out@.map_values(|a: String| a@) =~= peer_address_list(peers@, name@));
    out
}

/// Why a set of assignments does not fit the service it was made for.
#[derive(Debug, Clone, Copy, PartialEq, Eq, Structural)]
pub enum AssignmentError {
    /// The peer list does not hold exactly one entry per process.
    PeerCount { expected: usize, actual: usize },
    /// The process's own index is not a position in the peer list.
    IndexOutOfRange { index: usize, peers: usize },
}

/// Assignments that the orchestrator has made for one process of a service.
#[derive(Debug)]
pub struct ServiceAssignments {
    /// The host that the process should bind to.
    pub listen_host: String,
    /// The assigned port for each of the service's ports.
    pub ports: PortMap,
    /// The index of this process in `peers`, if known.
    pub index: Option<usize>,
    /// The host and port assignments of each process of the service. The
    /// order is significant: a peer is identified by its position.
    pub peers: PeerList,
}

impl ServiceAssignments {
    /// Whether these assignments fit a service of `scale` processes: one peer
    /// per process, and the own index, if known, a position among them.
    pub open spec fn fits_scale(&self, scale: nat) -> bool {
        &&& self.peers.len() == scale
        &&& self.index matches Some(i) ==> i < scale
    }

    /// Builds the assignments of one process of a service of `scale`
    /// processes, checking that they fit that scale.
    pub fn new(
        scale: usize,
        listen_host: String,
        ports: PortMap,
        index: Option<usize>,
        peers: PeerList,
    ) -> (r: Result<ServiceAssignments, AssignmentError>)
        ensures
            r is Ok <==> peers.len() == scale && (index matches Some(i) ==> i < scale),
            r matches Ok(a) ==> a.fits_scale(scale as nat) && a.listen_host == listen_host
                && a.ports == ports && a.index == index && a.peers == peers,
            peers.len() != scale ==> r == Err::<ServiceAssignments, AssignmentError>(
                AssignmentError::PeerCount { expected: scale, actual: peers.len() },
            ),
            peers.len() == scale && index is Some && index.unwrap() >= scale ==> r == Err::<
                ServiceAssignments,
                AssignmentError,
            >(AssignmentError::IndexOutOfRange { index: index.unwrap(), peers: scale }),
    {
        if peers.len() != scale {
            return Err(AssignmentError::PeerCount { expected: scale, actual: peers.len() });
        }
        if let Some(i) = index {
            if i >= scale {
                return Err(AssignmentError::IndexOutOfRange { index: i, peers: scale });
            }
        }
        Ok(ServiceAssignments { listen_host, ports, index, peers })
    }
}

/// A running service managed by an orchestrator.
pub trait Service {
    /// Whether `port` names a port of the service.
    spec fn declares_port(&self, port: Seq<char>) -> bool;

    /// The address of `port` on each process of the service, in order.
    spec fn process_addresses(&self, port: Seq<char>) -> Seq<Seq<char>>;

    /// Given the name of a port, returns the addresses for each of the
    /// service's processes, in order. The port must be one of the service's.
    fn addresses(&self, port: &str) -> (r: Vec<String>)
        requires
            self.declares_port(port@),
        ensures
            r.len() == self.process_addresses(port@).len(),
            r@.map_values(|a: String| a@) == self.process_addresses(port@),
    ;
}

/// A service whose processes are reached through a known peer list.
#[derive(Debug)]
pub struct PeerService {
    /// The ports that the service declares.
    pub ports: Vec<ServicePort>,
    /// Each process's host and assigned ports, in process order.
    pub peers: PeerList,
}

impl PeerService {
    /// Whether every peer assigns a port to each declared port name.
    pub open spec fn well_formed(&self) -> bool {
        forall|j: int|
            0 <= j < self.ports.len() ==> all_peers_have_port(
                self.peers@,
                (#[trigger] self.ports@[j]).name@,
            )
    }

    /// Builds a service over `peers`; there is none unless every peer
    /// assigns a port to each of `ports`.
    pub fn new(ports: Vec<ServicePort>, peers: PeerList) -> (r: Option<PeerService>)
        ensures
            r is Some <==> (forall|j: int|
                0 <= j < ports.len() ==> all_peers_have_port(peers@, (#[trigger] ports@[j]).name@)),
            r matches Some(s) ==> s.ports == ports && s.peers == peers && s.well_formed(),
    {
        let mut j: usize = 0;
        while j < ports.len()
            invariant
                j <= ports.len(),
                forall|k: int| 0 <= k < j ==> all_peers_have_port(peers@, (#[trigger] ports@[k]).name@),
            decreases ports.len() - j,
        {
            let mut i: usize = 0;
            while i < peers.len()
                invariant
                    i <= peers.len(),
                    j < ports.len(),
                    forall|k: int|
                        0 <= k < i ==> port_lookup(
                            (#[trigger] peers@[k]).1@,
                            ports@[j as int].name@,
                        ) is Some,
                decreases peers.len() - i,
            {
                if lookup_port(&peers[i].1, ports[j].name.as_str()).is_none() {
                    assert(!all_peers_have_port(peers@, ports@[j as int].name@));
                    return None;
                }
                i = i + 1;
            }
            j = j + 1;
        }
        Some(PeerService { ports, peers })
    }
}

impl Service for PeerService {
    open spec fn declares_port(&self, port: Seq<char>) -> bool {
        &&& self.well_formed()
        &&& exists|j: int| 0 <= j < self.ports.len() && (#[trigger] self.ports@[j]).name@ == port
    }

    open spec fn process_addresses(&self, port: Seq<char>) -> Seq<Seq<char>> {
        peer_address_list(self.peers@, port)
    }

    fn addresses(&self, port: &str) -> (r: Vec<String>) {
        peer_addresses(&self.peers, port)
    }
}

/// For a service of `scale` processes, any assignments built for it list
/// exactly `scale` peers, and a service handle over those peers gives exactly
/// `scale` addresses for each declared port.
pub proof fn lemma_scale_fixes_peer_count(
    scale: nat,
    assignments: ServiceAssignments,
    service: PeerService,
    port: Seq<char>,
)
    requires
        assignments.fits_scale(scale),
        service.peers@ == assignments.peers@,
        service.declares_port(port),
    ensures
        assignments.peers.len() == scale,
        service.process_addresses(port).len() == scale,
{
}

} // verus!

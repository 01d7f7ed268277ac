use std::collections::BTreeMap;

use vstd::prelude::*;
use vstd::std_specs::btree::increasing_seq;
use vstd::std_specs::iter::IteratorSpec;

use crate::error::{Error, Result};
use crate::routing::GdpPrefix;
use crate::wire::gdp::{in_link_local_range, spec_packet_decode, GdpAddress, GdpPacket, GdpWireConfig};

verus! {

pub type RouterPortId = u16;

/// Bits of the reserved link-scoped destination used by an unconfigured host
/// for its first `SOLICIT(Router)` exchange.
pub const ROUTER_BOOTSTRAP_ADDRESS_BITS: u64 = 0xfe80_0000_0000_0000;

/// The reserved bootstrap destination: always punted to management, never
/// transit-routed.
pub open spec fn spec_bootstrap() -> GdpAddress {
    GdpAddress(ROUTER_BOOTSTRAP_ADDRESS_BITS)
}

/// The reserved bootstrap destination.
pub fn router_bootstrap_address() -> (r: GdpAddress)
    ensures
        r == spec_bootstrap(),
{
    GdpAddress(ROUTER_BOOTSTRAP_ADDRESS_BITS)
}

/// How a router port reaches its link.
#[derive(Debug, Clone, Copy, PartialEq, Eq, Structural)]
pub enum RouterAttachment {
    Direct,
    Coupler,
    Switch,
}

/// Registration of a router port with the switch it is attached to.
#[derive(Debug, Clone, Copy, PartialEq, Eq, Structural)]
pub enum SwitchRegistrationState {
    NotRequired,
    Unregistered,
    Registering,
    Registered,
    Rejected,
}

/// What the router knows of a node behind one of its ports.
#[derive(Debug, Clone, Copy, PartialEq, Eq, Structural)]
pub enum NodeState {
    Observed,
    Offered,
    Configured,
}

/// A node seen behind a router port.
#[derive(Debug, Clone, Copy, PartialEq, Eq)]
pub struct RouterNodeRecord {
    pub link_local: GdpAddress,
    pub routed_address: Option<GdpAddress>,
    pub ingress_port: RouterPortId,
    pub state: NodeState,
}

/// Startup configuration of one router port.
#[derive(Debug, Clone, Copy, PartialEq, Eq)]
pub struct RouterPortConfig {
    pub id: RouterPortId,
    pub attachment: RouterAttachment,
    pub link_local: GdpAddress,
    pub connected_prefix: Option<GdpPrefix>,
    pub routed_address: Option<GdpAddress>,
}

impl RouterPortConfig {
    /// A port with a link-local address and no connected network.
    pub fn new(id: RouterPortId, attachment: RouterAttachment, link_local: GdpAddress) -> (r: Self)
        ensures
            r == (RouterPortConfig {
                id,
                attachment,
                link_local,
                connected_prefix: None,
                routed_address: None,
            }),
    {
        RouterPortConfig { id, attachment, link_local, connected_prefix: None, routed_address: None }
    }

    /// The same port serving the network `prefix`, where the router answers
    /// at `router_address`.
    pub fn with_connected_network(self, prefix: GdpPrefix, router_address: GdpAddress) -> (r: Self)
        ensures
            r == (RouterPortConfig {
                connected_prefix: Some(prefix),
                routed_address: Some(router_address),
                ..self
            }),
    {
        let mut port = self;
        port.connected_prefix = Some(prefix);
        port.routed_address = Some(router_address);
        port
    }
}

/// A configured static route. The next hop is management metadata only: the
/// GDP destination is never rewritten.
#[derive(Debug, Clone, Copy, PartialEq, Eq)]
pub struct StaticRouteConfig {
    pub prefix: GdpPrefix,
    pub egress_port: RouterPortId,
    pub next_hop: Option<GdpAddress>,
}

impl StaticRouteConfig {
    /// A route to a network reached directly on `egress_port`.
    pub fn direct(prefix: GdpPrefix, egress_port: RouterPortId) -> (r: Self)
        ensures
            r == (StaticRouteConfig { prefix, egress_port, next_hop: None }),
    {
        StaticRouteConfig { prefix, egress_port, next_hop: None }
    }

    /// A route to a network reached through `next_hop` on `egress_port`.
    pub fn via(prefix: GdpPrefix, egress_port: RouterPortId, next_hop: GdpAddress) -> (r: Self)
        ensures
            r == (StaticRouteConfig { prefix, egress_port, next_hop: Some(next_hop) }),
    {
        StaticRouteConfig { prefix, egress_port, next_hop: Some(next_hop) }
    }
}

/// Prefix lengths under which an address authority hands out addresses.
pub open spec fn is_authority_len(len: u8) -> bool {
    len == 16 || len == 32 || len == 48 || len == 56
}

/// A port's own settings are sound: a link-local address other than the
/// bootstrap one, and either no connected network or a global authority
/// prefix holding the router's global address.
pub open spec fn port_settings_ok(p: RouterPortConfig) -> bool {
    &&& in_link_local_range(p.link_local)
    &&& p.link_local != spec_bootstrap()
    &&& match (p.connected_prefix, p.routed_address) {
        (None, None) => true,
        (Some(prefix), Some(address)) => {
            &&& is_authority_len(prefix.spec_prefix_len())
            &&& !in_link_local_range(prefix.spec_network())
            &&& prefix.spec_contains(address)
            &&& !in_link_local_range(address)
        },
        _ => false,
    }
}

/// Port `p` owns `x`, as its link-local or its global address.
pub open spec fn port_owns(p: RouterPortConfig, x: GdpAddress) -> bool {
    p.link_local == x || p.routed_address == Some(x)
}

/// One of the first `n` ports owns `x`.
pub open spec fn owned_before(ports: Seq<RouterPortConfig>, n: int, x: GdpAddress) -> bool {
    exists|k: int| 0 <= k < n && #[trigger] port_owns(ports[k], x)
}

/// One of the first `n` ports serves the network `prefix`.
pub open spec fn connected_before(ports: Seq<RouterPortConfig>, n: int, prefix: GdpPrefix) -> bool {
    exists|k: int| 0 <= k < n && #[trigger] ports[k].connected_prefix == Some(prefix)
}

/// One of the first `n` routes is for `prefix`.
pub open spec fn routed_before(routes: Seq<StaticRouteConfig>, n: int, prefix: GdpPrefix) -> bool {
    exists|k: int| 0 <= k < n && #[trigger] routes[k].prefix == prefix
}

/// Port `i` is sound and owns no address or network that an earlier port owns.
pub open spec fn port_ok(ports: Seq<RouterPortConfig>, i: int) -> bool {
    let p = ports[i];
    &&& p.id == i
    &&& port_settings_ok(p)
    &&& !owned_before(ports, i, p.link_local)
    &&& match p.routed_address {
        Some(a) => a != p.link_local && !owned_before(ports, i, a),
        None => true,
    }
    &&& match p.connected_prefix {
        Some(prefix) => !connected_before(ports, i, prefix),
        None => true,
    }
}

/// Route `j` leaves through an existing port, names a network that no port
/// and no earlier route names, and a host route never targets the bootstrap
/// destination or an address the router owns.
pub open spec fn route_ok(ports: Seq<RouterPortConfig>, routes: Seq<StaticRouteConfig>, j: int) -> bool {
    let r = routes[j];
    &&& r.egress_port < ports.len()
    &&& !connected_before(ports, ports.len() as int, r.prefix)
    &&& !routed_before(routes, j, r.prefix)
    &&& r.prefix.spec_prefix_len() == 64 ==> {
        &&& r.prefix.spec_network() != spec_bootstrap()
        &&& !owned_before(ports, ports.len() as int, r.prefix.spec_network())
    }
}

/// A startup configuration the router accepts.
pub open spec fn startup_valid(ports: Seq<RouterPortConfig>, routes: Seq<StaticRouteConfig>) -> bool {
    &&& 0 < ports.len() < 0xffff
    &&& forall|i: int| 0 <= i < ports.len() ==> #[trigger] port_ok(ports, i)
    &&& forall|j: int| 0 <= j < routes.len() ==> #[trigger] route_ok(ports, routes, j)
}

/// Ports and static routes a router starts with.
#[derive(Debug, Clone, PartialEq, Eq)]
pub struct RouterStartupConfig {
    pub ports: Vec<RouterPortConfig>,
    pub routes: Vec<StaticRouteConfig>,
}

/// Whether one of the first `n` ports owns `x`.
fn owned_by_earlier(ports: &Vec<RouterPortConfig>, n: usize, x: GdpAddress) -> (r: bool)
    requires
        n <= ports.len(),
    ensures
        r == owned_before(ports@, n as int, x),
{
    let mut k: usize = 0;
    while k < n
        invariant
            n <= ports.len(),
            k <= n,
            forall|m: int| 0 <= m < k ==> !#[trigger] port_owns(ports@[m], x),
        decreases n - k,
    {
        let p = ports[k];
        let routed = match p.routed_address {
            Some(a) => a == x,
            None => false,
        };
        if p.link_local == x || routed {
            assert(port_owns(ports@[k as int], x));
            return true;
        }
        k = k + 1;
    }
    false
}

/// Whether one of the first `n` ports serves `prefix`.
fn connected_by_earlier(ports: &Vec<RouterPortConfig>, n: usize, prefix: GdpPrefix) -> (r: bool)
    requires
        n <= ports.len(),
    ensures
        r == connected_before(ports@, n as int, prefix),
{
    let mut k: usize = 0;
    while k < n
        invariant
            n <= ports.len(),
            k <= n,
            forall|m: int| 0 <= m < k ==> #[trigger] ports@[m].connected_prefix != Some(prefix),
        decreases n - k,
    {
        let found = match ports[k].connected_prefix {
            Some(p) => p == prefix,
            None => false,
        };
        if found {
            assert(ports@[k as int].connected_prefix == Some(prefix));
            return true;
        }
        k = k + 1;
    }
    false
}

/// Whether one of the first `n` routes is for `prefix`.
fn routed_by_earlier(routes: &Vec<StaticRouteConfig>, n: usize, prefix: GdpPrefix) -> (r: bool)
    requires
        n <= routes.len(),
    ensures
        r == routed_before(routes@, n as int, prefix),
{
    let mut k: usize = 0;
    while k < n
        invariant
            n <= routes.len(),
            k <= n,
            forall|m: int| 0 <= m < k ==> #[trigger] routes@[m].prefix != prefix,
        decreases n - k,
    {
        if routes[k].prefix == prefix {
            return true;
        }
        k = k + 1;
    }
    false
}

/// The authority prefix lengths.
fn authority_len(len: u8) -> (r: bool)
    ensures
        r == is_authority_len(len),
{
    len == 16 || len == 32 || len == 48 || len == 56
}

impl RouterStartupConfig {
    pub fn new(ports: Vec<RouterPortConfig>, routes: Vec<StaticRouteConfig>) -> (r: Self)
        ensures
            r.ports@ == ports@,
            r.routes@ == routes@,
    {
        RouterStartupConfig { ports, routes }
    }

    /// Check the configuration; every defect is reported as `InvalidField`.
    pub fn validate(&self) -> (r: Result<()>)
        ensures
            r is Ok <==> startup_valid(self.ports@, self.routes@),
            r is Err ==> r->Err_0 == Error::InvalidField,
    {
        if self.ports.len() == 0 || self.ports.len() >= 0xffff {
            return Err(Error::InvalidField);
        }
        let mut i: usize = 0;
        while i < self.ports.len()
            invariant
                0 < self.ports.len() < 0xffff,
                i <= self.ports.len(),
                forall|k: int| 0 <= k < i ==> #[trigger] port_ok(self.ports@, k),
            decreases self.ports.len() - i,
        {
            let port = self.ports[i];
            if port.id as usize != i || !port.link_local.is_link_local()
                || port.link_local == router_bootstrap_address() || owned_by_earlier(&self.ports, i, port.link_local) {
                assert(!port_ok(self.ports@, i as int));
                assert(!startup_valid(self.ports@, self.routes@));
                return Err(Error::InvalidField);
            }
            match (port.connected_prefix, port.routed_address) {
                (None, None) => {},
                (Some(prefix), Some(address)) => {
                    if !authority_len(prefix.prefix_len()) || prefix.network().is_link_local()
                        || !prefix.contains(address) || address.is_link_local()
                        || address == port.link_local || owned_by_earlier(&self.ports, i, address)
                        || connected_by_earlier(&self.ports, i, prefix) {
                        assert(!port_ok(self.ports@, i as int));
                assert(!startup_valid(self.ports@, self.routes@));
                        return Err(Error::InvalidField);
                    }
                },
                _ => {
                    assert(!port_ok(self.ports@, i as int));
                assert(!startup_valid(self.ports@, self.routes@));
                    return Err(Error::InvalidField);
                },
            }
            assert(port_ok(self.ports@, i as int));
            i = i + 1;
        }
        let mut j: usize = 0;
        while j < self.routes.len()
            invariant
                0 < self.ports.len() < 0xffff,
                forall|k: int| 0 <= k < self.ports.len() ==> #[trigger] port_ok(self.ports@, k),
                j <= self.routes.len(),
                forall|k: int| 0 <= k < j ==> #[trigger] route_ok(self.ports@, self.routes@, k),
            decreases self.routes.len() - j,
        {
            let route = self.routes[j];
            if route.egress_port as usize >= self.ports.len() || connected_by_earlier(&self.ports, self.ports.len(), route.prefix)
                || routed_by_earlier(&self.routes, j, route.prefix) {
                assert(!route_ok(self.ports@, self.routes@, j as int));
                assert(!startup_valid(self.ports@, self.routes@));
                return Err(Error::InvalidField);
            }
            if route.prefix.prefix_len() == 64 {
                let destination = route.prefix.network();
                if destination == router_bootstrap_address() || owned_by_earlier(&self.ports, self.ports.len(), destination) {
                    assert(!route_ok(self.ports@, self.routes@, j as int));
                assert(!startup_valid(self.ports@, self.routes@));
                    return Err(Error::InvalidField);
                }
            }
            assert(route_ok(self.ports@, self.routes@, j as int));
            j = j + 1;
        }
        Ok(())
    }
}


/// Switch registration a port starts with: only a port behind a switch needs one.
pub open spec fn initial_registration(a: RouterAttachment) -> SwitchRegistrationState {
    match a {
        RouterAttachment::Switch => SwitchRegistrationState::Unregistered,
        _ => SwitchRegistrationState::NotRequired,
    }
}

/// Run-time state of a router port.
#[derive(Debug, Clone, Copy, PartialEq, Eq)]
pub struct RouterPortState {
    pub config: RouterPortConfig,
    pub up: bool,
    pub switch_registration: SwitchRegistrationState,
}

/// State of port `c` when the router starts: up, with its initial registration.
pub open spec fn initial_port_state(c: RouterPortConfig) -> RouterPortState {
    RouterPortState { config: c, up: true, switch_registration: initial_registration(c.attachment) }
}

/// What the router does with one packet.
#[derive(Debug, Clone, PartialEq, Eq)]
pub enum RouterDisposition {
    Forward { egress_port: RouterPortId, packet: GdpPacket },
    Punt { ingress_port: RouterPortId, packet: GdpPacket },
    Drop,
}

/// Why a prefix is in the forwarding table.
#[derive(Debug, Clone, Copy, PartialEq, Eq, Structural)]
pub enum FibOrigin {
    Bootstrap,
    RouterLocal,
    Connected,
    Static,
}

/// One forwarding-table entry; no egress port means the packet is punted to
/// management.
#[derive(Debug, Clone, Copy, PartialEq, Eq)]
pub struct FibEntry {
    pub prefix: GdpPrefix,
    pub egress_port: Option<RouterPortId>,
    pub origin: FibOrigin,
}

/// The /64 host prefix of `a`.
pub open spec fn host_prefix(a: GdpAddress) -> GdpPrefix {
    GdpPrefix::spec_new(a, 64)
}

/// Entry punting the bootstrap destination.
pub open spec fn bootstrap_entry() -> FibEntry {
    FibEntry { prefix: host_prefix(spec_bootstrap()), egress_port: None, origin: FibOrigin::Bootstrap }
}

/// Entry punting an address the router owns.
pub open spec fn local_entry(a: GdpAddress) -> FibEntry {
    FibEntry { prefix: host_prefix(a), egress_port: None, origin: FibOrigin::RouterLocal }
}

/// Entries for the addresses port `p` owns: its link-local, then its global one.
pub open spec fn port_local_entries(p: RouterPortConfig) -> Seq<FibEntry> {
    match p.routed_address {
        Some(a) => seq![local_entry(p.link_local), local_entry(a)],
        None => seq![local_entry(p.link_local)],
    }
}

/// Entries for the addresses the ports own, port by port.
pub open spec fn local_entries(ports: Seq<RouterPortConfig>) -> Seq<FibEntry>
    decreases ports.len(),
{
    if ports.len() == 0 {
        Seq::empty()
    } else {
        local_entries(ports.drop_last()) + port_local_entries(ports.last())
    }
}

/// Entry forwarding a port's connected network out of that port.
pub open spec fn port_connected_entries(p: RouterPortConfig) -> Seq<FibEntry> {
    match p.connected_prefix {
        Some(c) => seq![FibEntry { prefix: c, egress_port: Some(p.id), origin: FibOrigin::Connected }],
        None => Seq::empty(),
    }
}

/// Entries for the connected networks, port by port.
pub open spec fn connected_entries(ports: Seq<RouterPortConfig>) -> Seq<FibEntry>
    decreases ports.len(),
{
    if ports.len() == 0 {
        Seq::empty()
    } else {
        connected_entries(ports.drop_last()) + port_connected_entries(ports.last())
    }
}

/// Entry of a static route.
pub open spec fn static_entry(r: StaticRouteConfig) -> FibEntry {
    FibEntry { prefix: r.prefix, egress_port: Some(r.egress_port), origin: FibOrigin::Static }
}

/// Forwarding table compiled from a startup configuration: the bootstrap
/// punt, the router's own addresses, the connected networks, then the static
/// routes.
pub open spec fn startup_fib(ports: Seq<RouterPortConfig>, routes: Seq<StaticRouteConfig>) -> Seq<FibEntry> {
    seq![bootstrap_entry()] + local_entries(ports) + connected_entries(ports) + routes.map_values(
        |r: StaticRouteConfig| static_entry(r),
    )
}

/// The /64 host prefix of `a`.
fn host_route(a: GdpAddress) -> (r: GdpPrefix)
    ensures
        r == host_prefix(a),
{
    match GdpPrefix::new(a, 64) {
        Ok(p) => p,
        Err(_) => {
            proof {
                assert(false);
            }
            GdpPrefix::default_route()
        },
    }
}

/// Mathematical value of a static router's management state.
pub struct StaticRouterView {
    pub startup_ports: Seq<RouterPortConfig>,
    pub startup_routes: Seq<StaticRouteConfig>,
    pub ports: Seq<RouterPortState>,
    /// Nodes seen behind the ports, keyed by the bits of their link-local address.
    pub nodes: Map<u64, RouterNodeRecord>,
    pub fib: Seq<FibEntry>,
    pub fib_generation: u64,
}

/// Static GNet router: startup configuration, port and node management and
/// the forwarding table compiled from the configuration.
///
/// The per-packet forwarding plane is a P4 pipeline programmed from this
/// table; it is not part of this type.
pub struct StaticP4Router {
    physical_ports: u16,
    cpu_port: u16,
    startup: RouterStartupConfig,
    ports: Vec<RouterPortState>,
    nodes: BTreeMap<u64, RouterNodeRecord>,
    fib: Vec<FibEntry>,
    fib_generation: u64,
}

impl View for StaticP4Router {
    type V = StaticRouterView;

    closed spec fn view(&self) -> StaticRouterView {
        StaticRouterView {
            startup_ports: self.startup.ports@,
            startup_routes: self.startup.routes@,
            ports: self.ports@,
            nodes: self.nodes@,
            fib: self.fib@,
            fib_generation: self.fib_generation,
        }
    }
}

/// `x` is one of the link-local addresses the router's ports own.
pub open spec fn is_port_link_local(ports: Seq<RouterPortConfig>, x: GdpAddress) -> bool {
    exists|k: int| 0 <= k < ports.len() && #[trigger] ports[k].link_local == x
}

/// Outcome of recording that `link_local` was seen behind `ingress_port`.
pub open spec fn record_outcome(v: StaticRouterView, ingress_port: RouterPortId, link_local: GdpAddress) -> Result<RouterNodeRecord> {
    if ingress_port >= v.ports.len() || !in_link_local_range(link_local) || link_local == spec_bootstrap()
        || is_port_link_local(v.startup_ports, link_local) {
        Err(Error::InvalidField)
    } else if v.nodes.contains_key(link_local.0) {
        if v.nodes[link_local.0].ingress_port != ingress_port {
            Err(Error::InvalidState)
        } else {
            Ok(v.nodes[link_local.0])
        }
    } else {
        Ok(RouterNodeRecord { link_local, routed_address: None, ingress_port, state: NodeState::Observed })
    }
}

/// Some node was given `address` as its global address.
pub open spec fn address_in_use(nodes: Map<u64, RouterNodeRecord>, address: GdpAddress) -> bool {
    exists|k: u64| nodes.contains_key(k) && #[trigger] nodes[k].routed_address == Some(address)
}

/// Outcome of giving the node `link_local` the global address `routed`.
pub open spec fn configure_outcome(v: StaticRouterView, link_local: GdpAddress, routed: GdpAddress) -> Result<RouterNodeRecord> {
    if !v.nodes.contains_key(link_local.0) {
        Err(Error::InvalidState)
    } else {
        let current = v.nodes[link_local.0];
        if current.ingress_port >= v.ports.len() {
            Err(Error::InvalidField)
        } else {
            let port = v.ports[current.ingress_port as int].config;
            match port.connected_prefix {
                None => Err(Error::InvalidState),
                Some(prefix) => {
                    if !prefix.spec_contains(routed) || in_link_local_range(routed) || port.routed_address == Some(
                        routed,
                    ) || address_in_use(v.nodes, routed) {
                        Err(Error::InvalidField)
                    } else {
                        Ok(RouterNodeRecord { routed_address: Some(routed), state: NodeState::Configured, ..current })
                    }
                },
            }
        }
    }
}

/// A router as it starts from `ports` and `routes`: all ports up, no node
/// known, the compiled forwarding table.
pub open spec fn fresh_router(ports: Seq<RouterPortConfig>, routes: Seq<StaticRouteConfig>) -> StaticRouterView {
    StaticRouterView {
        startup_ports: ports,
        startup_routes: routes,
        ports: ports.map_values(|c: RouterPortConfig| initial_port_state(c)),
        nodes: Map::empty(),
        fib: startup_fib(ports, routes),
        fib_generation: 1,
    }
}

impl StaticP4Router {
    /// Router invariant: a valid startup configuration, one state per
    /// configured port, the table compiled from it, and every node keyed by
    /// its own link-local address.
    pub closed spec fn wf(&self) -> bool {
        &&& startup_valid(self.startup.ports@, self.startup.routes@)
        &&& self.physical_ports == self.startup.ports@.len()
        &&& self.cpu_port == self.physical_ports
        &&& self.ports@.len() == self.startup.ports@.len()
        &&& forall|k: int| 0 <= k < self.ports@.len() ==> #[trigger] self.ports@[k].config == self.startup.ports@[k]
        &&& forall|k: u64| self.nodes@.contains_key(k) ==> (#[trigger] self.nodes@[k]).link_local.0 == k
    }

    /// A router for a valid startup configuration, all ports up and no node
    /// known; a configuration `validate` refuses is refused with its error.
    pub fn new(startup: RouterStartupConfig) -> (r: Result<Self>)
        ensures
            !startup_valid(startup.ports@, startup.routes@) ==> r == Err::<Self, Error>(Error::InvalidField),
            startup_valid(startup.ports@, startup.routes@) ==> r is Ok && r->Ok_0.wf() && r->Ok_0@ == fresh_router(
                startup.ports@,
                startup.routes@,
            ),
    {
        startup.validate()?;
        let n = startup.ports.len();
        let physical_ports = n as u16;
        let mut ports: Vec<RouterPortState> = Vec::new();
        let mut i: usize = 0;
        while i < n
            invariant
                n == startup.ports.len(),
                i <= n,
                ports@ =~= startup.ports@.take(i as int).map_values(|c: RouterPortConfig| initial_port_state(c)),
            decreases n - i,
        {
            let config = startup.ports[i];
            let switch_registration = match config.attachment {
                RouterAttachment::Switch => SwitchRegistrationState::Unregistered,
                RouterAttachment::Direct => SwitchRegistrationState::NotRequired,
                RouterAttachment::Coupler => SwitchRegistrationState::NotRequired,
            };
            ports.push(RouterPortState { config, up: true, switch_registration });
            proof {
                assert(startup.ports@.take(i + 1) =~= startup.ports@.take(i as int).push(config));
            }
            i = i + 1;
        }
        assert(startup.ports@.take(n as int) =~= startup.ports@);
        let fib = compile_startup_fib(&startup);
        let router = StaticP4Router {
            physical_ports,
            cpu_port: physical_ports,
            startup,
            ports,
            nodes: BTreeMap::new(),
            fib,
            fib_generation: 1,
        };
        Ok(router)
    }

    pub fn physical_port_count(&self) -> (r: u16)
        requires
            self.wf(),
        ensures
            r == self@.ports.len(),
    {
        self.physical_ports
    }

    /// Port number of the management (CPU) port, one past the physical ports.
    pub fn cpu_port(&self) -> (r: u16)
        requires
            self.wf(),
        ensures
            r == self@.ports.len(),
    {
        self.cpu_port
    }

    pub fn fib_generation(&self) -> (r: u64)
        ensures
            r == self@.fib_generation,
    {
        self.fib_generation
    }

    pub fn startup_config(&self) -> (r: &RouterStartupConfig)
        ensures
            r.ports@ == self@.startup_ports,
            r.routes@ == self@.startup_routes,
    {
        &self.startup
    }

    pub fn fib(&self) -> (r: &[FibEntry])
        ensures
            r@ == self@.fib,
    {
        self.fib.as_slice()
    }

    /// State of port `port`.
    pub fn port(&self, port: RouterPortId) -> (r: Result<RouterPortState>)
        ensures
            port < self@.ports.len() ==> r == Ok::<RouterPortState, Error>(self@.ports[port as int]),
            port >= self@.ports.len() ==> r == Err::<RouterPortState, Error>(Error::InvalidField),
    {
        if (port as usize) < self.ports.len() {
            Ok(self.ports[port as usize])
        } else {
            Err(Error::InvalidField)
        }
    }

    /// The node with link-local address `link_local`.
    pub fn node(&self, link_local: GdpAddress) -> (r: Option<RouterNodeRecord>)
        ensures
            r == (if self@.nodes.contains_key(link_local.0) { Some(self@.nodes[link_local.0]) } else { None::<RouterNodeRecord> }),
    {
        broadcast use vstd::laws_cmp::group_laws_cmp;

        match self.nodes.get(&link_local.0) {
            Some(n) => Some(*n),
            None => None,
        }
    }

    pub fn remove_node(&mut self, link_local: GdpAddress) -> (r: Option<RouterNodeRecord>)
        requires
            old(self).wf(),
        ensures
            final(self).wf(),
            final(self)@ == (StaticRouterView { nodes: old(self)@.nodes.remove(link_local.0), ..old(self)@ }),
            r == (if old(self)@.nodes.contains_key(link_local.0) { Some(old(self)@.nodes[link_local.0]) } else { None::<RouterNodeRecord> }),
    {
        broadcast use vstd::laws_cmp::group_laws_cmp;

        let r = self.nodes.remove(&link_local.0);
        r
    }

    /// Whether `x` is the link-local address of one of the router's ports.
    fn owns_port_link_local(&self, x: GdpAddress) -> (r: bool)
        ensures
            r == is_port_link_local(self@.startup_ports, x),
    {
        let mut k: usize = 0;
        while k < self.startup.ports.len()
            invariant
                k <= self.startup.ports.len(),
                forall|m: int| 0 <= m < k ==> #[trigger] self.startup.ports@[m].link_local != x,
            decreases self.startup.ports.len() - k,
        {
            if self.startup.ports[k].link_local == x {
                return true;
            }
            k = k + 1;
        }
        false
    }

    /// Record that the node `link_local` was seen behind `ingress_port`. A
    /// node already known behind that port is given back unchanged; one known
    /// behind another port is refused.
    pub fn record_node(&mut self, ingress_port: RouterPortId, link_local: GdpAddress) -> (r: Result<RouterNodeRecord>)
        requires
            old(self).wf(),
        ensures
            final(self).wf(),
            r == record_outcome(old(self)@, ingress_port, link_local),
            final(self)@ == (match r {
                Ok(rec) => StaticRouterView { nodes: old(self)@.nodes.insert(link_local.0, rec), ..old(self)@ },
                Err(_) => old(self)@,
            }),
    {
        broadcast use vstd::laws_cmp::group_laws_cmp;

        self.port(ingress_port)?;
        if !link_local.is_link_local() || link_local == router_bootstrap_address() || self.owns_port_link_local(
            link_local,
        ) {
            return Err(Error::InvalidField);
        }
        let record = RouterNodeRecord { link_local, routed_address: None, ingress_port, state: NodeState::Observed };
        match self.nodes.get(&link_local.0) {
            Some(existing) => {
                if existing.ingress_port != ingress_port {
                    Err(Error::InvalidState)
                } else {
                    let e = *existing;
                    proof {
                        assert(self.nodes@.insert(link_local.0, e) =~= self.nodes@);
                    }
                    Ok(e)
                }
            },
            None => {
                self.nodes.insert(link_local.0, record);
                Ok(record)
            },
        }
    }

    /// The node given `address` as its global address, the one with the
    /// lowest link-local address if there are several.
    pub fn node_by_routed_address(&self, address: GdpAddress) -> (r: Option<RouterNodeRecord>)
        requires
            self.wf(),
        ensures
            r is None <==> !address_in_use(self@.nodes, address),
            r matches Some(n) ==> {
                &&& self@.nodes.contains_key(n.link_local.0)
                &&& self@.nodes[n.link_local.0] == n
                &&& n.routed_address == Some(address)
                &&& forall|k: u64| self@.nodes.contains_key(k) && #[trigger] self@.nodes[k].routed_address == Some(address)
                    ==> n.link_local.0 <= k
            },
    {
        broadcast use vstd::laws_cmp::group_laws_cmp;
        broadcast use vstd::std_specs::btree::group_btree_axioms;

        let values = self.nodes.values();
        let ghost keys = choose|key_seq: Seq<u64>| {
            &&& increasing_seq(key_seq)
            &&& key_seq.to_set() == self.nodes@.dom()
            &&& key_seq.no_duplicates()
            &&& IteratorSpec::remaining(&values) == key_seq.map(|i: int, k: u64| &self.nodes@[k])
        };
        proof {
            lemma_increasing_keys(keys);
        }
        for v in it: values
            invariant
                self.wf(),
                keys.to_set() == self.nodes@.dom(),
                forall|i: int, j: int| 0 <= i < j < keys.len() ==> keys[i] < keys[j],
                it.seq() == keys.map(|i: int, k: u64| &self.nodes@[k]),
                forall|m: int| 0 <= m < it.index() ==> (#[trigger] self.nodes@[keys[m]]).routed_address != Some(address),
        {
            let hit = match v.routed_address {
                Some(a) => a == address,
                None => false,
            };
            if hit {
                proof {
                    let idx = it.index();
                    assert(self.nodes@.dom().contains(keys[idx]));
                    assert forall|k: u64| self@.nodes.contains_key(k) && #[trigger] self@.nodes[k].routed_address == Some(address)
                        implies v.link_local.0 <= k by {
                        assert(keys.to_set().contains(k));
                        let m = choose|m: int| 0 <= m < keys.len() && keys[m] == k;
                        if m < idx {
                            assert(self.nodes@[keys[m]].routed_address != Some(address));
                        }
                    }
                }
                return Some(*v);
            }
        }
        proof {
            assert forall|k: u64| self@.nodes.contains_key(k) implies #[trigger] self@.nodes[k].routed_address != Some(address) by {
                assert(keys.to_set().contains(k));
                let m = choose|m: int| 0 <= m < keys.len() && keys[m] == k;
                assert(self.nodes@[keys[m]].routed_address != Some(address));
            }
        }
        None
    }

    /// Give the node `link_local` the global address `routed`, which must lie
    /// in the network connected to the node's port and be in use by neither
    /// the router nor another node.
    pub fn configure_node_address(&mut self, link_local: GdpAddress, routed: GdpAddress) -> (r: Result<RouterNodeRecord>)
        requires
            old(self).wf(),
        ensures
            final(self).wf(),
            r == configure_outcome(old(self)@, link_local, routed),
            final(self)@ == (match r {
                Ok(rec) => StaticRouterView { nodes: old(self)@.nodes.insert(link_local.0, rec), ..old(self)@ },
                Err(_) => old(self)@,
            }),
    {
        broadcast use vstd::laws_cmp::group_laws_cmp;

        let current = match self.node(link_local) {
            Some(n) => n,
            None => return Err(Error::InvalidState),
        };
        let port = self.port(current.ingress_port)?;
        let prefix = match port.config.connected_prefix {
            Some(p) => p,
            None => return Err(Error::InvalidState),
        };
        let own = match port.config.routed_address {
            Some(a) => a == routed,
            None => false,
        };
        if !prefix.contains(routed) || routed.is_link_local() || own || self.node_by_routed_address(routed).is_some() {
            return Err(Error::InvalidField);
        }
        let updated = RouterNodeRecord { routed_address: Some(routed), state: NodeState::Configured, ..current };
        self.nodes.insert(link_local.0, updated);
        Ok(updated)
    }

    /// Check that a packet may enter on `ingress_port`, before the forwarding
    /// pipeline sees it: the port must exist and be up.
    pub fn check_ingress(&self, ingress_port: RouterPortId) -> (r: Result<()>)
        ensures
            r is Ok <==> ingress_port < self@.ports.len() && self@.ports[ingress_port as int].up,
            r is Err ==> r->Err_0 == Error::LinkDown,
    {
        if (ingress_port as usize) < self.ports.len() && self.ports[ingress_port as usize].up {
            Ok(())
        } else {
            Err(Error::LinkDown)
        }
    }

    /// What becomes of a packet that entered on `ingress_port`, given what
    /// the forwarding pipeline output for it: nothing means a drop, more than
    /// one output is refused, an output to the CPU port is punted, one to a
    /// missing or down port dropped, any other forwarded. The output bytes
    /// are decoded with the local prefix of the packet that went in.
    pub fn dispose_pipeline_outputs(
        &self,
        ingress_port: RouterPortId,
        local_prefix: u64,
        outputs: Vec<(Vec<u8>, u16)>,
    ) -> (r: Result<RouterDisposition>)
        requires
            self.wf(),
        ensures
            outputs@.len() == 0 ==> r == Ok::<RouterDisposition, Error>(RouterDisposition::Drop),
            outputs@.len() > 1 ==> r == Err::<RouterDisposition, Error>(Error::InvalidState),
            outputs@.len() == 1 ==> match spec_packet_decode(
                outputs@[0].0@,
                GdpWireConfig { local_form_bit: true },
                local_prefix,
            ) {
                Err(e) => r == Err::<RouterDisposition, Error>(e),
                Ok(pv) => {
                    let port = outputs@[0].1;
                    &&& r is Ok
                    &&& port == self@.ports.len() ==> (r->Ok_0 matches RouterDisposition::Punt { ingress_port: i, packet }
                        && i == ingress_port && packet@ == pv)
                    &&& port > self@.ports.len() || (port < self@.ports.len() && !self@.ports[port as int].up)
                        ==> r->Ok_0 == RouterDisposition::Drop
                    &&& port < self@.ports.len() && self@.ports[port as int].up ==> (
                    r->Ok_0 matches RouterDisposition::Forward { egress_port, packet } && egress_port == port
                        && packet@ == pv)
                },
            },
    {
        if outputs.len() == 0 {
            return Ok(RouterDisposition::Drop);
        }
        if outputs.len() != 1 {
            return Err(Error::InvalidState);
        }
        let cfg = GdpWireConfig::default();
        let packet = GdpPacket::decode(outputs[0].0.as_slice(), cfg, local_prefix)?;
        let port = outputs[0].1;
        if port == self.cpu_port {
            return Ok(RouterDisposition::Punt { ingress_port, packet });
        }
        if port >= self.physical_ports || !self.ports[port as usize].up {
            return Ok(RouterDisposition::Drop);
        }
        Ok(RouterDisposition::Forward { egress_port: port, packet })
    }

    /// The known nodes in increasing order of link-local address.
    pub fn nodes(&self) -> (r: Vec<RouterNodeRecord>)
        ensures
            exists|keys: Seq<u64>| {
                &&& keys.to_set() == self@.nodes.dom()
                &&& keys.no_duplicates()
                &&& forall|i: int, j: int| 0 <= i < j < keys.len() ==> keys[i] < keys[j]
                &&& r@ == keys.map_values(|k: u64| self@.nodes[k])
            },
    {
        broadcast use vstd::laws_cmp::group_laws_cmp;
        broadcast use vstd::std_specs::btree::group_btree_axioms;

        let values = self.nodes.values();
        let ghost keys = choose|key_seq: Seq<u64>| {
            &&& increasing_seq(key_seq)
            &&& key_seq.to_set() == self.nodes@.dom()
            &&& key_seq.no_duplicates()
            &&& IteratorSpec::remaining(&values) == key_seq.map(|i: int, k: u64| &self.nodes@[k])
        };
        let mut r: Vec<RouterNodeRecord> = Vec::new();
        for v in it: values
            invariant
                it.seq() == keys.map(|i: int, k: u64| &self.nodes@[k]),
                r@.len() == it.index(),
                forall|i: int| 0 <= i < it.index() ==> r@[i] == self.nodes@[keys[i]],
        {
            r.push(*v);
        }
        assert(r@ =~= keys.map_values(|k: u64| self@.nodes[k]));
        proof {
            lemma_increasing_keys(keys);
        }
        r
    }
}

/// The /64 host prefix of an address has length 64 and determines the address.
proof fn lemma_host_prefix(a: GdpAddress, b: GdpAddress)
    ensures
        host_prefix(a).spec_prefix_len() == 64,
        host_prefix(a).spec_network() == a,
        host_prefix(a) == host_prefix(b) ==> a == b,
{
    GdpPrefix::lemma_spec_new(a, 64, host_prefix(a));
    GdpPrefix::lemma_spec_new(b, 64, host_prefix(b));
    let x = a.0;
    let y = b.0;
    assert(x & (0xffff_ffff_ffff_ffffu64 << 0u64) == x) by (bit_vector);
    assert(y & (0xffff_ffff_ffff_ffffu64 << 0u64) == y) by (bit_vector);
}

/// The bootstrap destination lies in the link-local range.
proof fn lemma_bootstrap_link_local()
    ensures
        in_link_local_range(spec_bootstrap()),
{
    assert(0xfe80_0000_0000_0000u64 >> 48u64 == 0xfe80u64) by (bit_vector);
}

/// Entries for the first `n` ports' own addresses punt distinct host
/// prefixes, each of an address one of those ports owns.
proof fn lemma_local_entries(ports: Seq<RouterPortConfig>, n: int)
    requires
        0 <= n <= ports.len(),
        forall|i: int| 0 <= i < n ==> #[trigger] port_ok(ports, i),
    ensures
        forall|m: int| 0 <= m < local_entries(ports.take(n)).len() ==> {
            &&& (#[trigger] local_entries(ports.take(n))[m]).origin == FibOrigin::RouterLocal
            &&& exists|a: GdpAddress| owned_before(ports, n, a) && local_entries(ports.take(n))[m].prefix == host_prefix(a)
        },
        forall|m1: int, m2: int| 0 <= m1 < m2 < local_entries(ports.take(n)).len() ==>
            (#[trigger] local_entries(ports.take(n))[m1]).prefix != (#[trigger] local_entries(ports.take(n))[m2]).prefix,
    decreases n,
{
    if n > 0 {
        lemma_local_entries(ports, n - 1);
        let t = ports.take(n);
        assert(t.drop_last() =~= ports.take(n - 1));
        let prev = local_entries(ports.take(n - 1));
        let p = ports[n - 1];
        let l = local_entries(t);
        assert(l == prev + port_local_entries(p));
        assert(port_ok(ports, n - 1));
        assert(port_owns(ports[n - 1], p.link_local));
        assert forall|m: int| 0 <= m < l.len() implies {
            &&& (#[trigger] l[m]).origin == FibOrigin::RouterLocal
            &&& exists|a: GdpAddress| owned_before(ports, n, a) && l[m].prefix == host_prefix(a)
        } by {
            if m < prev.len() {
                assert(l[m] == prev[m]);
                let a = choose|a: GdpAddress| owned_before(ports, n - 1, a) && prev[m].prefix == host_prefix(a);
                let k = choose|k: int| 0 <= k < n - 1 && #[trigger] port_owns(ports[k], a);
                assert(port_owns(ports[k], a));
                assert(owned_before(ports, n, a));
            } else if m == prev.len() {
                assert(owned_before(ports, n, p.link_local));
            } else {
                let a = p.routed_address->Some_0;
                assert(port_owns(ports[n - 1], a));
                assert(owned_before(ports, n, a));
            }
        }
        assert forall|m1: int, m2: int| 0 <= m1 < m2 < l.len() implies (#[trigger] l[m1]).prefix != (#[trigger] l[m2]).prefix by {
            if m2 >= prev.len() {
                if m1 < prev.len() {
                    let a = choose|a: GdpAddress| owned_before(ports, n - 1, a) && prev[m1].prefix == host_prefix(a);
                    let b = if m2 == prev.len() { p.link_local } else { p.routed_address->Some_0 };
                    assert(l[m2].prefix == host_prefix(b));
                    lemma_host_prefix(a, b);
                } else {
                    lemma_host_prefix(p.link_local, p.routed_address->Some_0);
                }
            } else {
                assert(l[m1] == prev[m1] && l[m2] == prev[m2]);
            }
        }
    }
}

/// Entries for the first `n` ports' connected networks name distinct
/// prefixes, each the connected network of one of those ports.
proof fn lemma_connected_entries(ports: Seq<RouterPortConfig>, n: int)
    requires
        0 <= n <= ports.len(),
        forall|i: int| 0 <= i < n ==> #[trigger] port_ok(ports, i),
    ensures
        forall|m: int| 0 <= m < connected_entries(ports.take(n)).len() ==> connected_before(
            ports,
            n,
            (#[trigger] connected_entries(ports.take(n))[m]).prefix,
        ),
        forall|m1: int, m2: int| 0 <= m1 < m2 < connected_entries(ports.take(n)).len() ==>
            (#[trigger] connected_entries(ports.take(n))[m1]).prefix != (#[trigger] connected_entries(ports.take(n))[m2]).prefix,
    decreases n,
{
    if n > 0 {
        lemma_connected_entries(ports, n - 1);
        let t = ports.take(n);
        assert(t.drop_last() =~= ports.take(n - 1));
        let prev = connected_entries(ports.take(n - 1));
        let p = ports[n - 1];
        let c = connected_entries(t);
        assert(c == prev + port_connected_entries(p));
        assert(port_ok(ports, n - 1));
        assert forall|m: int| 0 <= m < c.len() implies connected_before(ports, n, (#[trigger] c[m]).prefix) by {
            if m < prev.len() {
                assert(c[m] == prev[m]);
                let k = choose|k: int| 0 <= k < n - 1 && #[trigger] ports[k].connected_prefix == Some(prev[m].prefix);
                assert(ports[k].connected_prefix == Some(c[m].prefix));
            } else {
                assert(ports[n - 1].connected_prefix == Some(c[m].prefix));
            }
        }
        assert forall|m1: int, m2: int| 0 <= m1 < m2 < c.len() implies (#[trigger] c[m1]).prefix != (#[trigger] c[m2]).prefix by {
            if m2 >= prev.len() {
                assert(c[m1] == prev[m1]);
                if c[m1].prefix == c[m2].prefix {
                    assert(connected_before(ports, n - 1, prev[m1].prefix));
                }
            } else {
                assert(c[m1] == prev[m1] && c[m2] == prev[m2]);
            }
        }
    }
}

/// Compiling a valid startup configuration programs each prefix once: no two
/// entries of the forwarding table name the same prefix, so no entry shadows
/// another.
pub proof fn law_startup_fib_prefixes_unique(ports: Seq<RouterPortConfig>, routes: Seq<StaticRouteConfig>)
    requires
        startup_valid(ports, routes),
    ensures
        forall|i: int, j: int| 0 <= i < j < startup_fib(ports, routes).len() ==>
            (#[trigger] startup_fib(ports, routes)[i]).prefix != (#[trigger] startup_fib(ports, routes)[j]).prefix,
{
    assert(ports.take(ports.len() as int) =~= ports);
    lemma_local_entries(ports, ports.len() as int);
    lemma_connected_entries(ports, ports.len() as int);
    lemma_bootstrap_link_local();
    let b = seq![bootstrap_entry()];
    let l = local_entries(ports);
    let c = connected_entries(ports);
    let st = routes.map_values(|r: StaticRouteConfig| static_entry(r));
    let f = startup_fib(ports, routes);
    assert(f == b + l + c + st);
    let lb = 1int;
    let lc = lb + l.len();
    let ls = lc + c.len();
    assert forall|i: int, j: int| 0 <= i < j < f.len() implies (#[trigger] f[i]).prefix != (#[trigger] f[j]).prefix by {
        // Which part of the table each index falls in, and what it names.
        let ei = f[i];
        let ej = f[j];
        if j < lb {
        } else if j < lc {
            let a = choose|a: GdpAddress| owned_before(ports, ports.len() as int, a) && l[j - lb].prefix == host_prefix(a);
            assert(ej == l[j - lb]);
            let k = choose|k: int| 0 <= k < ports.len() && #[trigger] port_owns(ports[k], a);
            assert(port_ok(ports, k));
            if i < lb {
                lemma_host_prefix(spec_bootstrap(), a);
            } else {
                assert(ei == l[i - lb]);
            }
        } else if j < ls {
            assert(ej == c[j - lc]);
            let k = choose|k: int| 0 <= k < ports.len() && #[trigger] ports[k].connected_prefix == Some(ej.prefix);
            assert(port_ok(ports, k));
            if i < lb {
                lemma_host_prefix(spec_bootstrap(), spec_bootstrap());
            } else if i < lc {
                assert(ei == l[i - lb]);
                let a = choose|a: GdpAddress| owned_before(ports, ports.len() as int, a) && l[i - lb].prefix == host_prefix(a);
                lemma_host_prefix(a, a);
            } else {
                assert(ei == c[i - lc]);
            }
        } else {
            let r = routes[j - ls];
            assert(ej == st[j - ls]);
            assert(route_ok(ports, routes, j - ls));
            if i < lb {
                lemma_host_prefix(spec_bootstrap(), r.prefix.spec_network());
                if r.prefix.spec_prefix_len() == 64 && ei.prefix == r.prefix {
                    assert(host_prefix(spec_bootstrap()).spec_network() == spec_bootstrap());
                }
            } else if i < lc {
                assert(ei == l[i - lb]);
                let a = choose|a: GdpAddress| owned_before(ports, ports.len() as int, a) && l[i - lb].prefix == host_prefix(a);
                lemma_host_prefix(a, a);
            } else if i < ls {
                assert(ei == c[i - lc]);
            } else {
                assert(ei == st[i - ls]);
                assert(routes[i - ls].prefix == ei.prefix);
            }
        }
    }
}

/// Keys that a map's iterator yields in increasing order are strictly increasing numbers.
proof fn lemma_increasing_keys(keys: Seq<u64>)
    requires
        increasing_seq(keys),
    ensures
        forall|i: int, j: int| 0 <= i < j < keys.len() ==> keys[i] < keys[j],
{
    broadcast use vstd::laws_cmp::group_laws_cmp;

    vstd::std_specs::btree::axiom_increasing_seq_meaning(keys);
    assert forall|i: int, j: int| 0 <= i < j < keys.len() implies keys[i] < keys[j] by {
        assert(vstd::std_specs::cmp::OrdSpec::cmp_spec(&keys[i], &keys[j]) is Less);
    }
}

/// Forwarding table compiled from a valid startup configuration.
fn compile_startup_fib(startup: &RouterStartupConfig) -> (fib: Vec<FibEntry>)
    ensures
        fib@ == startup_fib(startup.ports@, startup.routes@),
{
    let ports = &startup.ports;
    let mut fib: Vec<FibEntry> = Vec::new();
    fib.push(FibEntry { prefix: host_route(router_bootstrap_address()), egress_port: None, origin: FibOrigin::Bootstrap });
    let mut i: usize = 0;
    while i < startup.ports.len()
        invariant
            i <= startup.ports.len(),
            fib@ == seq![bootstrap_entry()] + local_entries(startup.ports@.take(i as int)),
        decreases startup.ports.len() - i,
    {
        let port = startup.ports[i];
        fib.push(FibEntry { prefix: host_route(port.link_local), egress_port: None, origin: FibOrigin::RouterLocal });
        match port.routed_address {
            Some(a) => {
                fib.push(FibEntry { prefix: host_route(a), egress_port: None, origin: FibOrigin::RouterLocal });
            },
            None => {},
        }
        proof {
            let t = startup.ports@.take(i + 1);
            assert(t.drop_last() =~= startup.ports@.take(i as int));
            assert(fib@ =~= seq![bootstrap_entry()] + local_entries(t));
        }
        i = i + 1;
    }
    assert(startup.ports@.take(startup.ports.len() as int) =~= startup.ports@);
    let ghost base = fib@;
    let mut i: usize = 0;
    while i < startup.ports.len()
        invariant
            i <= startup.ports.len(),
            fib@ == base + connected_entries(startup.ports@.take(i as int)),
        decreases startup.ports.len() - i,
    {
        let port = startup.ports[i];
        match port.connected_prefix {
            Some(c) => {
                fib.push(FibEntry { prefix: c, egress_port: Some(port.id), origin: FibOrigin::Connected });
            },
            None => {},
        }
        proof {
            let t = startup.ports@.take(i + 1);
            assert(t.drop_last() =~= startup.ports@.take(i as int));
            assert(fib@ =~= base + connected_entries(t));
        }
        i = i + 1;
    }
    assert(startup.ports@.take(startup.ports.len() as int) =~= startup.ports@);
    let ghost base2 = fib@;
    let mut j: usize = 0;
    while j < startup.routes.len()
        invariant
            j <= startup.routes.len(),
            fib@ == base2 + startup.routes@.take(j as int).map_values(|r: StaticRouteConfig| static_entry(r)),
        decreases startup.routes.len() - j,
    {
        let route = startup.routes[j];
        fib.push(FibEntry { prefix: route.prefix, egress_port: Some(route.egress_port), origin: FibOrigin::Static });
        proof {
            assert(startup.routes@.take(j + 1).map_values(|r: StaticRouteConfig| static_entry(r)) =~= startup.routes@.take(
                j as int,
            ).map_values(|r: StaticRouteConfig| static_entry(r)).push(static_entry(route)));
            assert(fib@ =~= base2 + startup.routes@.take(j + 1).map_values(|r: StaticRouteConfig| static_entry(r)));
        }
        j = j + 1;
    }
    assert(startup.routes@.take(startup.routes.len() as int) =~= startup.routes@);
    fib
}

} // verus!

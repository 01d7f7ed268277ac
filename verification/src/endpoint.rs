use vstd::prelude::*;

use crate::dlp_control::initial_link_config;
use crate::error::{Error, Result};
use crate::link::{
    fresh_dlp_state, link_down_state, sat_add, DlpConfig, DlpEndpoint, DlpState, LinkTraffic, TxFrameView, VcMode, Vcid,
};
use crate::routing::{count_some, lookup_prefix, Route, RouteTable};
use crate::time::Instant;
use crate::wire::bytes::copy_range;
use crate::wire::gctl::{gctl_view, spec_gctl_encode_exact, GctlMessage, GctlMessageView, GctlType};
use crate::wire::gdp::{
    spec_packet_encode, GdpAddress, GdpAddresses, GdpHeader, GdpPacket, GdpPacketView, GdpType,
    GdpWireConfig, SizeClass,
};

verus! {

/// Configuration of an endpoint's link.
#[derive(Debug, Clone, Copy)]
pub struct EndpointConfig {
    /// Ordinary receive capacity in physical flits; link-local credit is derived from it.
    pub rx_buffer_flits: u32,
    /// Reserved receive window of the control channel.
    pub control_window_flits: u32,
    /// Largest virtual-channel profile the endpoint supports.
    pub vc_mode: VcMode,
    /// Polarity of the GDP address-form bit.
    pub gdp_wire: GdpWireConfig,
    /// Prefix of the local GDP addressing context, if any.
    pub local_context_prefix: Option<u64>,
}

impl EndpointConfig {
    /// Receive capacity `rx_buffer_flits`, two virtual channels, the standard
    /// 32-flit control window and standard GDP polarity.
    pub fn new(rx_buffer_flits: u32) -> (r: Self)
        ensures
            r.rx_buffer_flits == rx_buffer_flits,
            r.control_window_flits == 32,
            r.vc_mode == VcMode::Two,
            r.gdp_wire.local_form_bit,
            r.local_context_prefix is None,
    {
        EndpointConfig {
            rx_buffer_flits,
            control_window_flits: 32,
            vc_mode: VcMode::Two,
            gdp_wire: GdpWireConfig::standard(),
            local_context_prefix: None,
        }
    }
}

} // verus!

verus! {

/// Small endpoint-local routing table, deliberately comparable in scope to
/// smoltcp's interface routing table rather than a router/control-plane RIB.
pub const ENDPOINT_ROUTE_CAPACITY: usize = 8;

/// Hop limit given to GCTL packets the endpoint originates.
pub const ENDPOINT_HOP_LIMIT: u8 = 64;

/// Endpoint with a DLP link and optional static/default route lookup.
///
/// Routing remains intentionally small:
/// - an empty table preserves legacy point-to-point direct delivery;
/// - once any route is configured, the route table is authoritative;
/// - GDP destination addresses are never rewritten by route selection.
#[derive(Debug, Clone)]
pub struct Endpoint {
    address: GdpAddress,
    config: EndpointConfig,
    dlp: DlpEndpoint,
    routes: RouteTable<ENDPOINT_ROUTE_CAPACITY>,
    peer_link_local: Option<GdpAddress>,
    credit_request_pending: bool,
}

/// Next hop for `destination` under `slots`: direct delivery while no route is
/// configured, otherwise the best route's router (the destination itself for a
/// connected route), or none.
pub open spec fn spec_next_hop(slots: Seq<Option<Route>>, destination: GdpAddress, now: Instant) -> Option<GdpAddress> {
    if count_some(slots) == 0 {
        Some(destination)
    } else {
        spec_route(slots, destination, now)
    }
}

/// Router chosen by the route table alone.
pub open spec fn spec_route(slots: Seq<Option<Route>>, destination: GdpAddress, now: Instant) -> Option<GdpAddress> {
    match lookup_prefix(slots, slots.len() as int, destination, now) {
        Some(r) => match r.next_hop {
            Some(h) => Some(h),
            None => Some(destination),
        },
        None => None,
    }
}

impl Endpoint {
    pub closed spec fn spec_address(&self) -> GdpAddress {
        self.address
    }

    pub closed spec fn spec_dlp(&self) -> DlpState {
        self.dlp@
    }

    /// Link-local address of the attached peer, if a link is attached.
    pub closed spec fn spec_peer(&self) -> Option<GdpAddress> {
        self.peer_link_local
    }

    /// Whether a request for more transmit credit is outstanding.
    pub closed spec fn spec_credit_request_pending(&self) -> bool {
        self.credit_request_pending
    }

    /// Slots of the route table.
    pub closed spec fn route_slots(&self) -> Seq<Option<Route>> {
        self.routes.slots()
    }

    pub closed spec fn wf(&self) -> bool {
        &&& self.dlp.wf()
        &&& self.routes.wf()
    }

    /// An endpoint at `address` with its link up and an empty route table.
    pub fn new(address: GdpAddress, config: EndpointConfig) -> (r: Result<Self>)
        ensures
            (config.rx_buffer_flits == 0 || config.control_window_flits == 0) ==> r is Err
                && r->Err_0 == Error::InvalidField,
            !(config.rx_buffer_flits == 0 || config.control_window_flits == 0) ==> r is Ok && ({
                let e = r->Ok_0;
                &&& e.wf()
                &&& e.spec_address() == address
                &&& e.spec_dlp() == fresh_dlp_state(initial_link_config(config))
                &&& e.spec_peer() is None
                &&& !e.spec_credit_request_pending()
                &&& count_some(e.route_slots()) == 0
                &&& e.route_slots().len() == ENDPOINT_ROUTE_CAPACITY
            }),
    {
        let link_config = DlpConfig {
            gdp: config.gdp_wire,
            local_prefix: match config.local_context_prefix {
                Some(p) => p,
                None => 0,
            },
            vc_mode: config.vc_mode,
            rx_buffer_flits: config.rx_buffer_flits,
            control_window_flits: config.control_window_flits,
        };
        let dlp = DlpEndpoint::new(link_config)?;
        let routes: RouteTable<ENDPOINT_ROUTE_CAPACITY> = RouteTable::new();
        proof {
            lemma_no_routes(routes.slots());
        }
        Ok(Endpoint { address, config, dlp, routes, peer_link_local: None, credit_request_pending: false })
    }

    /// A native point-to-point link to `peer_link_local` is attached: the
    /// link comes up and the peer's reserved control receive window
    /// becomes control transmit credit. A zero window is refused.
    pub fn link_attached(&mut self, peer_link_local: GdpAddress, peer_control_window_flits: u32) -> (r: Result<()>)
        requires
            old(self).wf(),
        ensures
            final(self).wf(),
            peer_control_window_flits == 0 ==> r == Err::<(), Error>(Error::InvalidField) && *final(self) == *old(self),
            peer_control_window_flits > 0 ==> {
                &&& r is Ok
                &&& final(self).spec_dlp() == (DlpState {
                    link_up: true,
                    control_tx_credit: sat_add(old(self).spec_dlp().control_tx_credit, peer_control_window_flits),
                    ..old(self).spec_dlp()
                })
                &&& final(self).spec_peer() == Some(peer_link_local)
                &&& !final(self).spec_credit_request_pending()
                &&& final(self).route_slots() == old(self).route_slots()
                &&& final(self).spec_address() == old(self).spec_address()
            },
    {
        if peer_control_window_flits == 0 {
            return Err(Error::InvalidField);
        }
        self.dlp.set_link_up(true);
        self.dlp.grant_control_tx_credit(peer_control_window_flits);
        self.peer_link_local = Some(peer_link_local);
        self.credit_request_pending = false;
        Ok(())
    }

    /// The native link is no longer usable: the peer is forgotten and the
    /// link goes down.
    pub fn link_detached(&mut self)
        requires
            old(self).wf(),
        ensures
            final(self).wf(),
            final(self).spec_dlp() == link_down_state(old(self).spec_dlp()),
            final(self).spec_peer() is None,
            !final(self).spec_credit_request_pending(),
            final(self).route_slots() == old(self).route_slots(),
            final(self).spec_address() == old(self).spec_address(),
    {
        self.peer_link_local = None;
        self.credit_request_pending = false;
        self.dlp.set_link_up(false);
    }

    pub fn address(&self) -> (r: GdpAddress)
        ensures
            r == self.spec_address(),
    {
        self.address
    }

    /// The DLP link endpoint.
    pub fn dlp(&self) -> (r: &DlpEndpoint)
        ensures
            r@ == self.spec_dlp(),
    {
        &self.dlp
    }

    /// Mutable access to the DLP link endpoint.
    pub fn dlp_mut(&mut self) -> (r: &mut DlpEndpoint)
        ensures
            r@ == old(self).spec_dlp(),
            old(self).wf() ==> r.wf(),
            final(self).spec_dlp() == final(r)@,
            final(self).route_slots() == old(self).route_slots(),
            final(self).spec_address() == old(self).spec_address(),
            old(self).wf() && final(r).wf() ==> final(self).wf(),
    {
        &mut self.dlp
    }

    /// The route table.
    pub fn routes(&self) -> (r: &RouteTable<ENDPOINT_ROUTE_CAPACITY>)
        ensures
            r.slots() == self.route_slots(),
            self.wf() ==> r.wf(),
    {
        &self.routes
    }

    /// Mutable access to the route table.
    pub fn routes_mut(&mut self) -> (r: &mut RouteTable<ENDPOINT_ROUTE_CAPACITY>)
        ensures
            r.slots() == old(self).route_slots(),
            old(self).wf() ==> r.wf(),
            final(self).route_slots() == final(r).slots(),
            final(self).spec_dlp() == old(self).spec_dlp(),
            final(self).spec_address() == old(self).spec_address(),
            old(self).wf() && final(r).wf() ==> final(self).wf(),
    {
        &mut self.routes
    }

    /// Look up a configured next-hop router for `destination`.
    pub fn route(&self, destination: GdpAddress, now: Instant) -> (r: Option<GdpAddress>)
        requires
            self.wf(),
        ensures
            r == spec_route(self.route_slots(), destination, now),
    {
        proof {
            self.routes.lemma_len();
        }
        match self.routes.lookup(destination, now) {
            Some(route) => match route.next_hop {
                Some(h) => Some(h),
                None => Some(destination),
            },
            None => None,
        }
    }

    /// Resolve the adjacent peer to which a packet should be sent.
    ///
    /// With no configured routes, preserve the historical point-to-point
    /// behavior and send directly to the GDP destination. Once routing is
    /// configured, the table is authoritative and an unmatched destination is
    /// unreachable. A directly reachable routed destination can be represented
    /// with a /64 route whose `via_router` equals the destination itself.
    pub fn next_hop(&self, destination: GdpAddress, now: Instant) -> (r: Option<GdpAddress>)
        requires
            self.wf(),
        ensures
            r == spec_next_hop(self.route_slots(), destination, now),
    {
        if self.routes.is_empty() {
            Some(destination)
        } else {
            self.route(destination, now)
        }
    }

    fn require_next_hop(&self, destination: GdpAddress, now: Instant) -> (r: Result<GdpAddress>)
        requires
            self.wf(),
        ensures
            match spec_next_hop(self.route_slots(), destination, now) {
                Some(h) => r == Ok::<GdpAddress, Error>(h),
                None => r == Err::<GdpAddress, Error>(Error::NoRoute),
            },
    {
        match self.next_hop(destination, now) {
            Some(h) => Ok(h),
            None => Err(Error::NoRoute),
        }
    }

    /// Route-aware GCTL transmission with an explicit routing timestamp: the
    /// message, padded to `class`, is queued on the control channel for
    /// `remote`; the destination is never rewritten.
    pub fn send_gctl_at(&mut self, remote: GdpAddress, msg: GctlMessage, class: SizeClass, now: Instant) -> (r: Result<()>)
        requires
            old(self).wf(),
        ensures
            final(self).wf(),
            final(self).route_slots() == old(self).route_slots(),
            final(self).spec_address() == old(self).spec_address(),
            gctl_sent(old(self).spec_dlp(), final(self).spec_dlp(), old(self).route_slots(), old(self).spec_address(), remote, msg@, class, now, r),
    {
        proof {
            self.routes.lemma_len();
        }
        let _next_hop = self.require_next_hop(remote, now)?;
        let payload = msg.encode_exact(class.bytes())?;
        let header = GdpHeader::global(GdpType::Gctl, class, ENDPOINT_HOP_LIMIT, self.address, remote);
        let packet = match GdpPacket::new(header, payload) {
            Ok(p) => p,
            Err(e) => {
                return Err(e);
            },
        };
        proof {
            crate::link::Vcid::lemma_spec_new(Vcid::spec_new(0));
        }
        match self.dlp.queue_control_packet(&packet) {
            Ok(_) => Ok(()),
            Err(e) => Err(e),
        }
    }

    /// Route-aware GCTL echo transmission with an explicit routing timestamp.
    pub fn send_echo_at(&mut self, remote: GdpAddress, transaction_id: u32, data: &[u8], class: SizeClass, now: Instant) -> (r: Result<()>)
        requires
            old(self).wf(),
        ensures
            final(self).wf(),
            final(self).route_slots() == old(self).route_slots(),
            final(self).spec_address() == old(self).spec_address(),
            gctl_sent(old(self).spec_dlp(), final(self).spec_dlp(), old(self).route_slots(), old(self).spec_address(), remote, gctl_view(GctlType::EchoRequest, transaction_id, data@), class, now, r),
    {
        let body = copy_range(data, 0, data.len());
        proof {
            assert(data@.subrange(0, data@.len() as int) =~= data@);
        }
        let msg = GctlMessage::new(GctlType::EchoRequest, transaction_id, body);
        self.send_gctl_at(remote, msg, class, now)
    }
}

/// The GDP packet carrying GCTL bytes `b` from `source` to `remote`.
pub open spec fn gctl_packet(source: GdpAddress, remote: GdpAddress, class: SizeClass, b: Seq<u8>) -> GdpPacketView {
    GdpPacketView {
        header: GdpHeader {
            version: 0,
            packet_type: GdpType::Gctl,
            size_class: class,
            hop_limit: ENDPOINT_HOP_LIMIT,
            addresses: GdpAddresses::Global { destination: remote, source },
        },
        payload: b,
    }
}

/// What sending a GCTL message does to the link and returns: refused without
/// a next hop; otherwise encoded to exactly `class` and queued on the control
/// channel.
pub open spec fn gctl_sent(
    s: DlpState,
    s2: DlpState,
    slots: Seq<Option<Route>>,
    source: GdpAddress,
    remote: GdpAddress,
    m: GctlMessageView,
    class: SizeClass,
    now: Instant,
    r: Result<()>,
) -> bool {
    if spec_next_hop(slots, remote, now) is None {
        r == Err::<(), Error>(Error::NoRoute) && s2 == s
    } else {
        match spec_gctl_encode_exact(m, class.spec_bytes()) {
            Err(e) => r == Err::<(), Error>(e) && s2 == s,
            Ok(b) => {
                let p = gctl_packet(source, remote, class, b);
                if !s.link_up {
                    r == Err::<(), Error>(Error::LinkDown) && s2 == s
                } else {
                    match spec_packet_encode(p, s.cfg) {
                        Err(e) => r == Err::<(), Error>(e) && s2 == s,
                        Ok(bytes) => r == Ok::<(), Error>(()) && s2 == DlpState {
                            control_queue: s.control_queue.push(
                                TxFrameView {
                                    vcid: Vcid::spec_new(0),
                                    traffic: LinkTraffic::Control,
                                    bytes,
                                    flit_offset: 0,
                                },
                            ),
                            ..s
                        },
                    }
                }
            },
        }
    }
}

proof fn lemma_no_routes(s: Seq<Option<Route>>)
    requires
        forall|i: int| 0 <= i < s.len() ==> s[i] is None,
    ensures
        count_some(s) == 0,
    decreases s.len(),
{
    if s.len() > 0 {
        lemma_no_routes(s.drop_last());
    }
}

} // verus!

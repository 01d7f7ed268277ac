use std::collections::{BTreeMap, VecDeque};

use vstd::prelude::*;

use crate::error::{Error, Result};
use crate::routing::spec_route_mask;
use vstd::std_specs::btree::increasing_seq;
use vstd::std_specs::iter::IteratorSpec;
use crate::wire::gdp::{
    spec_packet_decode, GdpAddress, GdpHeader, GdpPacket, GdpPacketView, GdpType, GdpWireConfig, SizeClass,
};

verus! {

pub type RouterPortId = u16;

pub type AdjacencyId = u16;

pub type RouteId = u32;

/// Egress queue a routed packet waits in, served in this order.
#[derive(Debug, Clone, Copy, PartialEq, Eq, Structural)]
pub enum QueueClass {
    Control,
    Interactive,
    Bulk,
}

/// What an ingress policy does with a packet type.
#[derive(Debug, Clone, Copy, PartialEq, Eq, Structural)]
pub enum PolicyAction {
    Allow,
    Drop,
    Punt,
}

/// Where a route sends matching packets.
#[derive(Debug, Clone, Copy, PartialEq, Eq, Structural)]
pub enum RouteTarget {
    Adjacency(AdjacencyId),
    Cpu,
    Drop,
}

/// A next hop reachable on a router port.
#[derive(Debug, Clone, Copy, PartialEq, Eq, Structural)]
pub struct RouterAdjacency {
    pub id: AdjacencyId,
    pub port: RouterPortId,
    pub next_hop: GdpAddress,
}

/// An installed route.
#[derive(Debug, Clone, Copy, PartialEq, Eq, Structural)]
pub struct RouterRoute {
    pub id: RouteId,
    pub prefix: u64,
    pub prefix_len: u8,
    pub preference: u16,
    pub target: RouteTarget,
}

/// Router-wide packet counters.
#[derive(Debug, Clone, Copy, PartialEq, Eq, Structural)]
pub struct RouterCounters {
    pub rx_packets: u64,
    pub forwarded_packets: u64,
    pub cpu_punts: u64,
    pub drops: u64,
    pub queue_drops: u64,
    pub route_rebuilds: u64,
}

impl Default for RouterCounters {
    fn default() -> (r: Self)
        ensures
            r == (RouterCounters {
                rx_packets: 0,
                forwarded_packets: 0,
                cpu_punts: 0,
                drops: 0,
                queue_drops: 0,
                route_rebuilds: 0,
            }),
    {
        RouterCounters {
            rx_packets: 0,
            forwarded_packets: 0,
            cpu_punts: 0,
            drops: 0,
            queue_drops: 0,
            route_rebuilds: 0,
        }
    }
}

/// Per-port packet counters.
#[derive(Debug, Clone, Copy, PartialEq, Eq, Structural)]
pub struct PortCounters {
    pub rx_packets: u64,
    pub tx_packets: u64,
    pub drops: u64,
}

impl Default for PortCounters {
    fn default() -> (r: Self)
        ensures
            r == (PortCounters { rx_packets: 0, tx_packets: 0, drops: 0 }),
    {
        PortCounters { rx_packets: 0, tx_packets: 0, drops: 0 }
    }
}


/// `a + b`, held at `u64::MAX`.
pub open spec fn sat64(a: u64, b: nat) -> u64 {
    if a + b > u64::MAX {
        u64::MAX
    } else {
        (a + b) as u64
    }
}

/// Queue class of a routed packet: GCTL control first, then the small size
/// classes, then bulk.
pub open spec fn spec_classify(header: GdpHeader) -> QueueClass {
    if header.packet_type == GdpType::Gctl {
        QueueClass::Control
    } else {
        match header.size_class {
            SizeClass::Empty | SizeClass::Tiny3 | SizeClass::Ctrl32 | SizeClass::Ctrl64 => QueueClass::Interactive,
            _ => QueueClass::Bulk,
        }
    }
}

/// Queue class of a routed packet.
pub fn classify_queue(packet: &GdpPacket) -> (r: QueueClass)
    ensures
        r == spec_classify(packet.header),
{
    match packet.header.packet_type {
        GdpType::Gctl => QueueClass::Control,
        _ => match packet.header.size_class {
            SizeClass::Empty | SizeClass::Tiny3 | SizeClass::Ctrl32 | SizeClass::Ctrl64 => QueueClass::Interactive,
            _ => QueueClass::Bulk,
        },
    }
}

/// `prefix` with all bits past `len` cleared.
fn normalize_prefix(prefix: u64, len: u8) -> (r: u64)
    requires
        len <= 64,
    ensures
        r == prefix & spec_route_mask(len),
{
    if len == 0 {
        proof {
            assert(prefix & 0u64 == 0u64) by (bit_vector);
        }
        0
    } else {
        let shift: u64 = (64 - len) as u64;
        prefix & (0xffff_ffff_ffff_ffffu64 << shift)
    }
}

/// Values of the packets of `q`.
pub open spec fn packet_views(q: Seq<GdpPacket>) -> Seq<GdpPacketView> {
    q.map_values(|p: GdpPacket| p@)
}

/// Value of the packet in `o`, if any.
pub open spec fn opt_view(o: Option<GdpPacket>) -> Option<GdpPacketView> {
    match o {
        Some(p) => Some(p@),
        None => None,
    }
}

/// Egress state of a router port as plain values.
pub struct PortView {
    pub up: bool,
    pub control: Seq<GdpPacketView>,
    pub interactive: Seq<GdpPacketView>,
    pub bulk: Seq<GdpPacketView>,
    pub counters: PortCounters,
}

/// Packets waiting on the port, all classes together.
pub open spec fn port_queued(p: PortView) -> nat {
    p.control.len() + p.interactive.len() + p.bulk.len()
}

/// A port that just came up: empty queues, zero counters.
pub open spec fn fresh_port() -> PortView {
    PortView {
        up: true,
        control: Seq::empty(),
        interactive: Seq::empty(),
        bulk: Seq::empty(),
        counters: PortCounters { rx_packets: 0, tx_packets: 0, drops: 0 },
    }
}

/// `p` with `packet` queued behind the other packets of its class.
pub open spec fn port_enqueued(p: PortView, class: QueueClass, packet: GdpPacketView) -> PortView {
    match class {
        QueueClass::Control => PortView { control: p.control.push(packet), ..p },
        QueueClass::Interactive => PortView { interactive: p.interactive.push(packet), ..p },
        QueueClass::Bulk => PortView { bulk: p.bulk.push(packet), ..p },
    }
}

/// Result and new state of serving a port: the oldest packet of the first
/// non-empty class, in control, interactive, bulk order.
pub open spec fn port_served(p: PortView) -> (Option<GdpPacketView>, PortView) {
    let c = PortCounters { tx_packets: sat64(p.counters.tx_packets, 1), ..p.counters };
    if p.control.len() > 0 {
        (Some(p.control[0]), PortView { control: p.control.drop_first(), counters: c, ..p })
    } else if p.interactive.len() > 0 {
        (Some(p.interactive[0]), PortView { interactive: p.interactive.drop_first(), counters: c, ..p })
    } else if p.bulk.len() > 0 {
        (Some(p.bulk[0]), PortView { bulk: p.bulk.drop_first(), counters: c, ..p })
    } else {
        (None, p)
    }
}

/// Egress side of one router port.
#[derive(Debug)]
struct RouterPort {
    up: bool,
    control: VecDeque<GdpPacket>,
    interactive: VecDeque<GdpPacket>,
    bulk: VecDeque<GdpPacket>,
    counters: PortCounters,
}

impl RouterPort {
    spec fn view(&self) -> PortView {
        PortView {
            up: self.up,
            control: packet_views(self.control@),
            interactive: packet_views(self.interactive@),
            bulk: packet_views(self.bulk@),
            counters: self.counters,
        }
    }

    fn new() -> (r: Self)
        ensures
            r.view() == fresh_port(),
    {
        let r = RouterPort {
            up: true,
            control: VecDeque::new(),
            interactive: VecDeque::new(),
            bulk: VecDeque::new(),
            counters: PortCounters::default(),
        };
        assert(r.view().control =~= Seq::<GdpPacketView>::empty());
        assert(r.view().interactive =~= Seq::<GdpPacketView>::empty());
        assert(r.view().bulk =~= Seq::<GdpPacketView>::empty());
        r
    }

    fn queued(&self) -> (r: usize)
        requires
            port_queued(self.view()) <= usize::MAX,
        ensures
            r == port_queued(self.view()),
    {
        self.control.len() + self.interactive.len() + self.bulk.len()
    }

    /// Drop every queued packet, counting them as drops; the number dropped.
    fn clear_queues(&mut self) -> (r: usize)
        requires
            port_queued(old(self).view()) <= usize::MAX,
        ensures
            r == port_queued(old(self).view()),
            final(self).view() == (PortView {
                control: Seq::empty(),
                interactive: Seq::empty(),
                bulk: Seq::empty(),
                counters: PortCounters { drops: sat64(old(self).view().counters.drops, r as nat), ..old(self).view().counters },
                ..old(self).view()
            }),
    {
        let dropped = self.queued();
        self.control.clear();
        self.interactive.clear();
        self.bulk.clear();
        self.counters.drops = self.counters.drops.saturating_add(dropped as u64);
        assert(self.view().control =~= Seq::<GdpPacketView>::empty());
        assert(self.view().interactive =~= Seq::<GdpPacketView>::empty());
        assert(self.view().bulk =~= Seq::<GdpPacketView>::empty());
        dropped
    }

    /// Queue `packet` in `class` unless `limit` packets already wait.
    fn push(&mut self, class: QueueClass, packet: GdpPacket, limit: usize) -> (r: Result<()>)
        requires
            port_queued(old(self).view()) <= usize::MAX,
        ensures
            port_queued(old(self).view()) >= limit ==> r == Err::<(), Error>(Error::BufferFull) && final(self).view()
                == (PortView {
                counters: PortCounters { drops: sat64(old(self).view().counters.drops, 1), ..old(self).view().counters },
                ..old(self).view()
            }),
            port_queued(old(self).view()) < limit ==> r is Ok && final(self).view() == port_enqueued(
                old(self).view(),
                class,
                packet@,
            ),
    {
        if self.queued() >= limit {
            self.counters.drops = self.counters.drops.saturating_add(1);
            return Err(Error::BufferFull);
        }
        let ghost pv = packet@;
        match class {
            QueueClass::Control => self.control.push_back(packet),
            QueueClass::Interactive => self.interactive.push_back(packet),
            QueueClass::Bulk => self.bulk.push_back(packet),
        }
        proof {
            let o = old(self).view();
            match class {
                QueueClass::Control => assert(self.view().control =~= o.control.push(pv)),
                QueueClass::Interactive => assert(self.view().interactive =~= o.interactive.push(pv)),
                QueueClass::Bulk => assert(self.view().bulk =~= o.bulk.push(pv)),
            }
        }
        Ok(())
    }

    fn pop(&mut self) -> (r: Option<GdpPacket>)
        ensures
            (opt_view(r), final(self).view()) == port_served(old(self).view()),
    {
        let p = if self.control.len() > 0 {
            self.control.pop_front()
        } else if self.interactive.len() > 0 {
            self.interactive.pop_front()
        } else {
            self.bulk.pop_front()
        };
        if p.is_some() {
            self.counters.tx_packets = self.counters.tx_packets.saturating_add(1);
        }
        proof {
            let o = old(self).view();
            if o.control.len() > 0 {
                assert(self.view().control =~= o.control.drop_first());
            } else if o.interactive.len() > 0 {
                assert(self.view().interactive =~= o.interactive.drop_first());
            } else if o.bulk.len() > 0 {
                assert(self.view().bulk =~= o.bulk.drop_first());
            }
        }
        p
    }
}

/// Control-plane state of a P4 router as plain values.
pub struct P4RouterView {
    pub physical_ports: u16,
    pub cpu_port: u16,
    pub queue_limit: usize,
    pub cpu_queue_limit: usize,
    pub ports: Seq<PortView>,
    pub cpu_queue: Seq<GdpPacketView>,
    pub adjacencies: Map<AdjacencyId, RouterAdjacency>,
    pub routes: Map<RouteId, RouterRoute>,
    /// Ingress policies keyed by `port * 256 + packet type`.
    pub policies: Map<u32, PolicyAction>,
    pub next_route_id: RouteId,
    pub counters: RouterCounters,
    /// The route programmed into the forwarding pipeline for each prefix.
    pub programmed: Seq<RouterRoute>,
}

/// Key of the policy for packets of wire type `packet_type` entering on `port`.
pub open spec fn policy_key(port: RouterPortId, packet_type: u8) -> u32 {
    (port * 256 + packet_type) as u32
}

/// Key of the policy for `packet_type` entering on `port`.
fn policy_key_of(port: RouterPortId, packet_type: GdpType) -> (r: u32)
    ensures
        r == policy_key(port, packet_type.spec_to_wire()),
{
    port as u32 * 256 + packet_type.to_wire() as u32
}

/// The route id given out after `id`: the next one, skipping zero.
pub open spec fn following_route_id(id: RouteId) -> RouteId {
    if id == u32::MAX {
        1
    } else {
        (id + 1) as u32
    }
}

/// Route `t` can carry traffic: its adjacency is installed on a port that is
/// up, or it punts or drops.
pub open spec fn target_active(v: P4RouterView, t: RouteTarget) -> bool {
    match t {
        RouteTarget::Adjacency(a) => v.adjacencies.contains_key(a) && v.adjacencies[a].port < v.ports.len()
            && v.ports[v.adjacencies[a].port as int].up,
        _ => true,
    }
}

/// Routes `a` and `b` are for the same prefix.
pub open spec fn same_prefix(a: RouterRoute, b: RouterRoute) -> bool {
    a.prefix == b.prefix && a.prefix_len == b.prefix_len
}

/// `a` wins over `b`: lower preference, then lower id.
pub open spec fn route_beats(a: RouterRoute, b: RouterRoute) -> bool {
    a.preference < b.preference || (a.preference == b.preference && a.id < b.id)
}

/// Installed route `r` is active and wins over every other active route for
/// its prefix.
pub open spec fn programmed_winner(v: P4RouterView, r: RouterRoute) -> bool {
    &&& v.routes.contains_key(r.id)
    &&& v.routes[r.id] == r
    &&& target_active(v, r.target)
    &&& forall|k: RouteId|
        #![trigger v.routes[k]]
        v.routes.contains_key(k) && k != r.id && same_prefix(v.routes[k], r) && target_active(v, v.routes[k].target)
            ==> route_beats(r, v.routes[k])
}

/// `p` lists each winning route once and nothing else.
pub open spec fn programmed_table(v: P4RouterView, p: Seq<RouterRoute>) -> bool {
    &&& p.no_duplicates()
    &&& forall|i: int| 0 <= i < p.len() ==> programmed_winner(v, #[trigger] p[i])
    &&& forall|r: RouterRoute| #[trigger] programmed_winner(v, r) ==> p.contains(r)
}

/// Route `k` of `v` is no active rival that beats `r`.
pub open spec fn rival_ok(v: P4RouterView, r: RouterRoute, k: RouteId) -> bool {
    v.routes.contains_key(k) && k != r.id && same_prefix(v.routes[k], r) && target_active(v, v.routes[k].target)
        ==> route_beats(r, v.routes[k])
}

/// The winners only depend on the routes, the adjacencies and which ports are up.
proof fn lemma_table_stable(v: P4RouterView, w: P4RouterView, p: Seq<RouterRoute>)
    requires
        v.routes == w.routes,
        v.adjacencies == w.adjacencies,
        v.ports.len() == w.ports.len(),
        forall|i: int| 0 <= i < v.ports.len() ==> v.ports[i].up == w.ports[i].up,
        programmed_table(v, p),
    ensures
        programmed_table(w, p),
{
    assert forall|t: RouteTarget| target_active(v, t) == target_active(w, t) by {}
    assert forall|r: RouterRoute| programmed_winner(v, r) == programmed_winner(w, r) by {
        assert forall|k: RouteId| target_active(v, v.routes[k].target) == target_active(w, w.routes[k].target) by {}
    }
}

/// `w` is `v` after a forwarding-plane rebuild: the rebuild is counted and
/// the pipeline holds the winning route of each prefix.
pub open spec fn rebuilt(v: P4RouterView, w: P4RouterView) -> bool {
    &&& w == (P4RouterView {
        counters: RouterCounters { route_rebuilds: sat64(v.counters.route_rebuilds, 1), ..v.counters },
        programmed: w.programmed,
        ..v
    })
    &&& programmed_table(w, w.programmed)
}

/// `v` after the forwarding pipeline sent `packet` to `port`: a punt joins
/// the CPU queue unless it is full, a packet for a missing or down port is
/// dropped, any other joins its class queue on the port unless the port's
/// queues are full. Every outcome is counted.
pub open spec fn deliver_one(v: P4RouterView, packet: GdpPacketView, port: u16) -> P4RouterView {
    let c = v.counters;
    if port == v.cpu_port {
        if v.cpu_queue.len() >= v.cpu_queue_limit {
            P4RouterView {
                counters: RouterCounters { queue_drops: sat64(c.queue_drops, 1), drops: sat64(c.drops, 1), ..c },
                ..v
            }
        } else {
            P4RouterView {
                cpu_queue: v.cpu_queue.push(packet),
                counters: RouterCounters { cpu_punts: sat64(c.cpu_punts, 1), ..c },
                ..v
            }
        }
    } else if port >= v.physical_ports || !v.ports[port as int].up {
        P4RouterView { counters: RouterCounters { drops: sat64(c.drops, 1), ..c }, ..v }
    } else {
        let p = v.ports[port as int];
        if port_queued(p) >= v.queue_limit {
            P4RouterView {
                ports: v.ports.update(
                    port as int,
                    PortView { counters: PortCounters { drops: sat64(p.counters.drops, 1), ..p.counters }, ..p },
                ),
                counters: RouterCounters { queue_drops: sat64(c.queue_drops, 1), drops: sat64(c.drops, 1), ..c },
                ..v
            }
        } else {
            P4RouterView {
                ports: v.ports.update(port as int, port_enqueued(p, spec_classify(packet.header), packet)),
                counters: RouterCounters { forwarded_packets: sat64(c.forwarded_packets, 1), ..c },
                ..v
            }
        }
    }
}

/// Bytes and port of each pipeline output, as plain values.
pub open spec fn outputs_view(outputs: Seq<(Vec<u8>, u16)>) -> Seq<(Seq<u8>, u16)> {
    outputs.map_values(|o: (Vec<u8>, u16)| (o.0@, o.1))
}

/// Result and final state of handing the pipeline outputs `outs`, in order,
/// to their queues; output bytes that do not decode as a GDP packet stop
/// the work with the decoding error.
pub open spec fn deliver_all(v: P4RouterView, outs: Seq<(Seq<u8>, u16)>, local_prefix: u64) -> (Result<()>, P4RouterView)
    decreases outs.len(),
{
    if outs.len() == 0 {
        (Ok(()), v)
    } else {
        match spec_packet_decode(outs[0].0, GdpWireConfig { local_form_bit: true }, local_prefix) {
            Err(e) => (Err(e), v),
            Ok(pv) => deliver_all(deliver_one(v, pv, outs[0].1), outs.drop_first(), local_prefix),
        }
    }
}

/// `v` with a packet counted as received on `port`.
pub open spec fn counted_received(v: P4RouterView, port: RouterPortId) -> P4RouterView {
    let p = v.ports[port as int];
    P4RouterView {
        ports: v.ports.update(
            port as int,
            PortView { counters: PortCounters { rx_packets: sat64(p.counters.rx_packets, 1), ..p.counters }, ..p },
        ),
        counters: RouterCounters { rx_packets: sat64(v.counters.rx_packets, 1), ..v.counters },
        ..v
    }
}

/// `v` with a packet counted as dropped on `port`.
pub open spec fn dropped_on(v: P4RouterView, port: RouterPortId) -> P4RouterView {
    let p = v.ports[port as int];
    P4RouterView {
        ports: v.ports.update(
            port as int,
            PortView { counters: PortCounters { drops: sat64(p.counters.drops, 1), ..p.counters }, ..p },
        ),
        counters: RouterCounters { drops: sat64(v.counters.drops, 1), ..v.counters },
        ..v
    }
}

/// Multi-port GDP router: ports with class queues, adjacencies, routes and
/// ingress policies, and the CPU punt queue. Per-packet forwarding is done
/// by a P4 pipeline that is programmed from this state; the pipeline itself
/// is not part of this type.
pub struct P4Router {
    physical_ports: u16,
    cpu_port: u16,
    queue_limit: usize,
    cpu_queue_limit: usize,
    ports: Vec<RouterPort>,
    cpu_queue: VecDeque<GdpPacket>,
    adjacencies: BTreeMap<AdjacencyId, RouterAdjacency>,
    routes: BTreeMap<RouteId, RouterRoute>,
    policies: BTreeMap<u32, PolicyAction>,
    next_route_id: RouteId,
    counters: RouterCounters,
    programmed: Vec<RouterRoute>,
}

impl View for P4Router {
    type V = P4RouterView;

    closed spec fn view(&self) -> P4RouterView {
        P4RouterView {
            physical_ports: self.physical_ports,
            cpu_port: self.cpu_port,
            queue_limit: self.queue_limit,
            cpu_queue_limit: self.cpu_queue_limit,
            ports: self.ports@.map_values(|p: RouterPort| p.view()),
            cpu_queue: packet_views(self.cpu_queue@),
            adjacencies: self.adjacencies@,
            routes: self.routes@,
            policies: self.policies@,
            next_route_id: self.next_route_id,
            counters: self.counters,
            programmed: self.programmed@,
        }
    }
}

impl P4Router {
    /// One port per physical port, the CPU port after them, queue limits
    /// positive, every queue short enough to count.
    pub closed spec fn wf(&self) -> bool {
        &&& self.wf_base()
        &&& programmed_table(self@, self.programmed@)
    }

    /// Shape of the state, whatever the pipeline holds.
    closed spec fn wf_base(&self) -> bool {
        &&& forall|k: RouteId| #[trigger] self.routes@.contains_key(k) ==> self.routes@[k].id == k
        &&& self.ports@.len() == self.physical_ports
        &&& self.cpu_port == self.physical_ports
        &&& self.physical_ports < u16::MAX
        &&& self.queue_limit > 0
        &&& self.cpu_queue_limit > 0
        &&& forall|k: int| 0 <= k < self.ports@.len() ==> port_queued(#[trigger] self.ports@[k].view()) <= self.queue_limit
    }

    /// A router with `physical_ports` ports, each queueing up to
    /// `queue_limit` packets, and nothing installed.
    pub fn new(physical_ports: u16, queue_limit: usize) -> (r: Result<Self>)
        ensures
            (physical_ports == 0 || queue_limit == 0 || physical_ports == u16::MAX) ==> r == Err::<Self, Error>(
                Error::InvalidField,
            ),
            !(physical_ports == 0 || queue_limit == 0 || physical_ports == u16::MAX) ==> r is Ok && r->Ok_0.wf()
                && r->Ok_0@ == (P4RouterView {
                physical_ports,
                cpu_port: physical_ports,
                queue_limit,
                cpu_queue_limit: queue_limit,
                ports: Seq::new(physical_ports as nat, |i: int| fresh_port()),
                cpu_queue: Seq::empty(),
                adjacencies: Map::empty(),
                routes: Map::empty(),
                policies: Map::empty(),
                next_route_id: 1,
                counters: RouterCounters {
                    rx_packets: 0,
                    forwarded_packets: 0,
                    cpu_punts: 0,
                    drops: 0,
                    queue_drops: 0,
                    route_rebuilds: 0,
                },
                programmed: Seq::empty(),
            }),
    {
        if physical_ports == 0 || queue_limit == 0 || physical_ports == u16::MAX {
            return Err(Error::InvalidField);
        }
        let mut ports: Vec<RouterPort> = Vec::new();
        let mut i: u16 = 0;
        while i < physical_ports
            invariant
                i <= physical_ports,
                ports@.len() == i,
                forall|k: int| 0 <= k < i ==> (#[trigger] ports@[k]).view() == fresh_port(),
            decreases physical_ports - i,
        {
            ports.push(RouterPort::new());
            i = i + 1;
        }
        let r = P4Router {
            physical_ports,
            cpu_port: physical_ports,
            queue_limit,
            cpu_queue_limit: queue_limit,
            ports,
            cpu_queue: VecDeque::new(),
            adjacencies: BTreeMap::new(),
            routes: BTreeMap::new(),
            policies: BTreeMap::new(),
            next_route_id: 1,
            counters: RouterCounters::default(),
            programmed: Vec::new(),
        };
        assert(r@.ports =~= Seq::new(physical_ports as nat, |i: int| fresh_port()));
        assert(r@.cpu_queue =~= Seq::<GdpPacketView>::empty());
        Ok(r)
    }

    /// Whether `port` is one of the router's ports.
    fn has_port(&self, port: RouterPortId) -> (r: bool)
        ensures
            r == (port < self@.ports.len()),
    {
        (port as usize) < self.ports.len()
    }

    /// At every moment the forwarding pipeline holds, for each prefix, the
    /// installed route that wins among those that can carry traffic, and no
    /// other route: a route over a port that went down gives way at once to
    /// the next-best route for its prefix.
    pub proof fn law_programmed_routes_win(&self)
        requires
            self.wf(),
        ensures
            programmed_table(self@, self@.programmed),
    {
    }

    /// The routes programmed into the forwarding pipeline, one per prefix.
    pub fn programmed_routes(&self) -> (r: &[RouterRoute])
        ensures
            r@ == self@.programmed,
    {
        self.programmed.as_slice()
    }

    pub fn physical_port_count(&self) -> (r: u16)
        ensures
            r == self@.physical_ports,
    {
        self.physical_ports
    }

    pub fn cpu_port(&self) -> (r: u16)
        ensures
            r == self@.cpu_port,
    {
        self.cpu_port
    }

    pub fn counters(&self) -> (r: RouterCounters)
        ensures
            r == self@.counters,
    {
        self.counters
    }

    /// Counters of port `port`.
    pub fn port_counters(&self, port: RouterPortId) -> (r: Result<PortCounters>)
        ensures
            port < self@.ports.len() ==> r == Ok::<PortCounters, Error>(self@.ports[port as int].counters),
            port >= self@.ports.len() ==> r == Err::<PortCounters, Error>(Error::InvalidField),
    {
        if (port as usize) < self.ports.len() {
            Ok(self.ports[port as usize].counters)
        } else {
            Err(Error::InvalidField)
        }
    }

    pub fn adjacency(&self, id: AdjacencyId) -> (r: Option<RouterAdjacency>)
        ensures
            r == (if self@.adjacencies.contains_key(id) { Some(self@.adjacencies[id]) } else { None::<RouterAdjacency> }),
    {
        broadcast use vstd::laws_cmp::group_laws_cmp;

        match self.adjacencies.get(&id) {
            Some(a) => Some(*a),
            None => None,
        }
    }

    pub fn route(&self, id: RouteId) -> (r: Option<RouterRoute>)
        ensures
            r == (if self@.routes.contains_key(id) { Some(self@.routes[id]) } else { None::<RouterRoute> }),
    {
        broadcast use vstd::laws_cmp::group_laws_cmp;

        match self.routes.get(&id) {
            Some(a) => Some(*a),
            None => None,
        }
    }

    /// Limit the CPU punt queue to `limit` packets; zero is refused.
    pub fn set_cpu_queue_limit(&mut self, limit: usize) -> (r: Result<()>)
        requires
            old(self).wf(),
        ensures
            final(self).wf(),
            limit == 0 ==> r == Err::<(), Error>(Error::InvalidField) && final(self)@ == old(self)@,
            limit > 0 ==> r is Ok && final(self)@ == (P4RouterView { cpu_queue_limit: limit, ..old(self)@ }),
    {
        if limit == 0 {
            return Err(Error::InvalidField);
        }
        self.cpu_queue_limit = limit;
        proof {
            lemma_table_stable(old(self)@, self@, self.programmed@);
        }
        Ok(())
    }

    /// Program the forwarding plane anew from the installed state.
    fn rebuild_pipeline(&mut self) -> (r: Result<()>)
        requires
            old(self).wf_base(),
        ensures
            final(self).wf(),
            r is Ok,
            rebuilt(old(self)@, final(self)@),
    {
        let table = self.winning_routes();
        let ghost before = self@;
        self.programmed = table;
        self.counters.route_rebuilds = self.counters.route_rebuilds.saturating_add(1);
        proof {
            lemma_table_stable(before, self@, table@);
        }
        Ok(())
    }

    /// Whether route target `t` can carry traffic.
    fn target_is_active(&self, t: RouteTarget) -> (r: bool)
        ensures
            r == target_active(self@, t),
    {
        match t {
            RouteTarget::Adjacency(a) => match self.adjacency(a) {
                Some(adj) => match self.port_is_up(adj.port) {
                    Ok(up) => up,
                    Err(_) => false,
                },
                None => false,
            },
            _ => true,
        }
    }

    /// Whether `r` wins over every other active route for its prefix.
    fn beats_rivals(&self, r: RouterRoute) -> (b: bool)
        requires
            self.wf_base(),
        ensures
            b == (forall|k: RouteId|
                #![trigger self@.routes[k]]
                self@.routes.contains_key(k) && k != r.id && same_prefix(self@.routes[k], r) && target_active(
                    self@,
                    self@.routes[k].target,
                ) ==> route_beats(r, self@.routes[k])),
    {
        broadcast use vstd::laws_cmp::group_laws_cmp;
        broadcast use vstd::std_specs::btree::group_btree_axioms;

        let values = self.routes.values();
        let ghost keys = choose|key_seq: Seq<u32>| {
            &&& increasing_seq(key_seq)
            &&& key_seq.to_set() == self.routes@.dom()
            &&& key_seq.no_duplicates()
            &&& IteratorSpec::remaining(&values) == key_seq.map(|i: int, k: u32| &self.routes@[k])
        };
        for x in it: values
            invariant
                self.wf_base(),
                keys.to_set() == self.routes@.dom(),
                it.seq() == keys.map(|i: int, k: u32| &self.routes@[k]),
                forall|m: int|
                    0 <= m < it.index() ==> rival_ok(self@, r, #[trigger] keys[m]),
        {
            let rival = !(x.id == r.id) && x.prefix == r.prefix && x.prefix_len == r.prefix_len
                && self.target_is_active(x.target);
            if rival && !(r.preference < x.preference || (r.preference == x.preference && r.id < x.id)) {
                proof {
                    let k = keys[it.index()];
                    assert(self@.routes.contains_key(k));
                    assert(self@.routes[k] == *x);
                }
                return false;
            }
        }
        proof {
            assert forall|k: RouteId|
                #![trigger self@.routes[k]]
                self@.routes.contains_key(k) && k != r.id && same_prefix(self@.routes[k], r) && target_active(
                    self@,
                    self@.routes[k].target,
                ) implies route_beats(r, self@.routes[k]) by {
                assert(keys.to_set().contains(k));
                let m = choose|m: int| 0 <= m < keys.len() && keys[m] == k;
                assert(rival_ok(self@, r, keys[m]));
            }
        }
        true
    }

    /// The winning route of every prefix, each once.
    fn winning_routes(&self) -> (r: Vec<RouterRoute>)
        requires
            self.wf_base(),
        ensures
            programmed_table(self@, r@),
    {
        broadcast use vstd::laws_cmp::group_laws_cmp;
        broadcast use vstd::std_specs::btree::group_btree_axioms;

        let values = self.routes.values();
        let ghost keys = choose|key_seq: Seq<u32>| {
            &&& increasing_seq(key_seq)
            &&& key_seq.to_set() == self.routes@.dom()
            &&& key_seq.no_duplicates()
            &&& IteratorSpec::remaining(&values) == key_seq.map(|i: int, k: u32| &self.routes@[k])
        };
        let mut best: Vec<RouterRoute> = Vec::new();
        for x in it: values
            invariant
                self.wf_base(),
                keys.to_set() == self.routes@.dom(),
                keys.no_duplicates(),
                it.seq() == keys.map(|i: int, k: u32| &self.routes@[k]),
                forall|i: int| 0 <= i < best@.len() ==> programmed_winner(self@, #[trigger] best@[i]),
                forall|m: int|
                    0 <= m < it.index() && programmed_winner(self@, self@.routes[#[trigger] keys[m]]) ==> best@.contains(
                        self@.routes[keys[m]],
                    ),
                forall|i: int| 0 <= i < best@.len() ==> exists|m: int| 0 <= m < it.index() && (#[trigger] best@[i]).id == keys[m],
                best@.no_duplicates(),
        {
            let ghost idx = it.index();
            proof {
                assert(self@.routes.contains_key(keys[idx]));
                assert(self@.routes[keys[idx]] == *x);
            }
            if self.target_is_active(x.target) && self.beats_rivals(*x) {
                let ghost before = best@;
                best.push(*x);
                proof {
                    assert forall|i: int, j: int| 0 <= i < j < best@.len() implies best@[i] != best@[j] by {
                        if j == best@.len() - 1 {
                            let m = choose|m: int| 0 <= m < idx && before[i].id == keys[m];
                            assert(keys[m] != keys[idx]);
                        } else {
                            assert(before[i] != before[j]);
                        }
                    }
                    assert forall|i: int| 0 <= i < best@.len() implies exists|m: int| 0 <= m < idx + 1 && (#[trigger] best@[i]).id == keys[m] by {
                        if i < before.len() {
                            let m = choose|m: int| 0 <= m < idx && before[i].id == keys[m];
                            assert(0 <= m < idx + 1 && best@[i].id == keys[m]);
                        } else {
                            assert(best@[i].id == keys[idx]);
                        }
                    }
                    assert forall|m: int|
                        0 <= m < idx + 1 && programmed_winner(self@, self@.routes[#[trigger] keys[m]]) implies best@.contains(
                            self@.routes[keys[m]],
                        ) by {
                        if m < idx {
                            assert(before.contains(self@.routes[keys[m]]));
                            let i = choose|i: int| 0 <= i < before.len() && before[i] == self@.routes[keys[m]];
                            assert(best@[i] == before[i]);
                        } else {
                            assert(best@.last() == *x);
                        }
                    }
                }
            } else {
                proof {
                    assert forall|i: int| 0 <= i < best@.len() implies exists|m: int| 0 <= m < idx + 1 && (#[trigger] best@[i]).id == keys[m] by {
                        let m = choose|m: int| 0 <= m < idx && best@[i].id == keys[m];
                        assert(0 <= m < idx + 1 && best@[i].id == keys[m]);
                    }
                }
            }
        }
        proof {
            assert forall|r: RouterRoute| #[trigger] programmed_winner(self@, r) implies best@.contains(r) by {
                assert(keys.to_set().contains(r.id));
                let m = choose|m: int| 0 <= m < keys.len() && keys[m] == r.id;
                assert(self@.routes[keys[m]] == r);
            }
        }
        best
    }

    /// Install (or replace) adjacency `id`: `next_hop` behind `port`.
    pub fn install_adjacency(&mut self, id: AdjacencyId, port: RouterPortId, next_hop: GdpAddress) -> (r: Result<()>)
        requires
            old(self).wf(),
        ensures
            final(self).wf(),
            port >= old(self)@.ports.len() ==> r == Err::<(), Error>(Error::InvalidField) && final(self)@ == old(self)@,
            port < old(self)@.ports.len() ==> r is Ok && rebuilt(
                P4RouterView {
                    adjacencies: old(self)@.adjacencies.insert(id, RouterAdjacency { id, port, next_hop }),
                    ..old(self)@
                }, final(self)@),
    {
        broadcast use vstd::laws_cmp::group_laws_cmp;

        if !self.has_port(port) {
            return Err(Error::InvalidField);
        }
        self.adjacencies.insert(id, RouterAdjacency { id, port, next_hop });
        self.rebuild_pipeline()
    }

    pub fn remove_adjacency(&mut self, id: AdjacencyId) -> (r: Result<()>)
        requires
            old(self).wf(),
        ensures
            final(self).wf(),
            r is Ok,
            rebuilt(P4RouterView { adjacencies: old(self)@.adjacencies.remove(id), ..old(self)@ }, final(self)@),
    {
        broadcast use vstd::laws_cmp::group_laws_cmp;

        self.adjacencies.remove(&id);
        self.rebuild_pipeline()
    }

    /// Install a route and give back its id. A prefix longer than 64 bits,
    /// or an adjacency that is not installed, is refused.
    pub fn install_route(&mut self, prefix: u64, prefix_len: u8, preference: u16, target: RouteTarget) -> (r: Result<RouteId>)
        requires
            old(self).wf(),
        ensures
            final(self).wf(),
            (prefix_len > 64 || (target matches RouteTarget::Adjacency(a) && !old(self)@.adjacencies.contains_key(a)))
                ==> r == Err::<RouteId, Error>(Error::InvalidField) && final(self)@ == old(self)@,
            !(prefix_len > 64 || (target matches RouteTarget::Adjacency(a) && !old(self)@.adjacencies.contains_key(a)))
                ==> {
                let id = old(self)@.next_route_id;
                &&& r == Ok::<RouteId, Error>(id)
                &&& rebuilt(
                    P4RouterView {
                        routes: old(self)@.routes.insert(
                            id,
                            RouterRoute { id, prefix: prefix & spec_route_mask(prefix_len), prefix_len, preference, target },
                        ),
                        next_route_id: following_route_id(id),
                        ..old(self)@
                    }, final(self)@)
            },
    {
        broadcast use vstd::laws_cmp::group_laws_cmp;

        if prefix_len > 64 {
            return Err(Error::InvalidField);
        }
        match target {
            RouteTarget::Adjacency(a) => {
                if !self.adjacencies.contains_key(&a) {
                    return Err(Error::InvalidField);
                }
            },
            _ => {},
        }
        let id = self.next_route_id;
        self.next_route_id = if id == u32::MAX {
            1
        } else {
            id + 1
        };
        let route = RouterRoute { id, prefix: normalize_prefix(prefix, prefix_len), prefix_len, preference, target };
        self.routes.insert(id, route);
        self.rebuild_pipeline()?;
        Ok(id)
    }

    /// Remove route `id`; an unknown id is refused.
    pub fn remove_route(&mut self, id: RouteId) -> (r: Result<()>)
        requires
            old(self).wf(),
        ensures
            final(self).wf(),
            !old(self)@.routes.contains_key(id) ==> r == Err::<(), Error>(Error::InvalidField) && final(self)@ == old(self)@,
            old(self)@.routes.contains_key(id) ==> r is Ok && rebuilt(
                P4RouterView { routes: old(self)@.routes.remove(id), ..old(self)@ }, final(self)@),
    {
        broadcast use vstd::laws_cmp::group_laws_cmp;

        if self.routes.remove(&id).is_none() {
            assert(self.routes@ =~= old(self).routes@);
            return Err(Error::InvalidField);
        }
        self.rebuild_pipeline()
    }

    /// Set what happens to packets of `packet_type` entering on `ingress_port`.
    pub fn set_policy(&mut self, ingress_port: RouterPortId, packet_type: GdpType, action: PolicyAction) -> (r: Result<()>)
        requires
            old(self).wf(),
        ensures
            final(self).wf(),
            ingress_port >= old(self)@.ports.len() ==> r == Err::<(), Error>(Error::InvalidField) && final(self)@
                == old(self)@,
            ingress_port < old(self)@.ports.len() ==> r is Ok && rebuilt(
                P4RouterView {
                    policies: old(self)@.policies.insert(policy_key(ingress_port, packet_type.spec_to_wire()), action),
                    ..old(self)@
                }, final(self)@),
    {
        broadcast use vstd::laws_cmp::group_laws_cmp;

        if !self.has_port(ingress_port) {
            return Err(Error::InvalidField);
        }
        let key = policy_key_of(ingress_port, packet_type);
        self.policies.insert(key, action);
        self.rebuild_pipeline()
    }

    /// Forget the policy for `packet_type` entering on `ingress_port`.
    pub fn clear_policy(&mut self, ingress_port: RouterPortId, packet_type: GdpType) -> (r: Result<()>)
        requires
            old(self).wf(),
        ensures
            final(self).wf(),
            r is Ok,
            rebuilt(
                P4RouterView {
                    policies: old(self)@.policies.remove(policy_key(ingress_port, packet_type.spec_to_wire())),
                    ..old(self)@
                }, final(self)@),
    {
        broadcast use vstd::laws_cmp::group_laws_cmp;

        let key = policy_key_of(ingress_port, packet_type);
        self.policies.remove(&key);
        self.rebuild_pipeline()
    }

    pub fn port_is_up(&self, port: RouterPortId) -> (r: Result<bool>)
        ensures
            port < self@.ports.len() ==> r == Ok::<bool, Error>(self@.ports[port as int].up),
            port >= self@.ports.len() ==> r == Err::<bool, Error>(Error::InvalidField),
    {
        if (port as usize) < self.ports.len() {
            Ok(self.ports[port as usize].up)
        } else {
            Err(Error::InvalidField)
        }
    }

    pub fn queued_on_port(&self, port: RouterPortId) -> (r: Result<usize>)
        requires
            self.wf(),
        ensures
            port < self@.ports.len() ==> r == Ok::<usize, Error>(port_queued(self@.ports[port as int]) as usize),
            port >= self@.ports.len() ==> r == Err::<usize, Error>(Error::InvalidField),
    {
        if (port as usize) < self.ports.len() {
            assert(port_queued(self.ports@[port as int].view()) <= self.queue_limit);
            Ok(self.ports[port as usize].queued())
        } else {
            Err(Error::InvalidField)
        }
    }

    /// Take the next packet to send on `port`; a port that is down refuses.
    pub fn poll_egress(&mut self, port: RouterPortId) -> (r: Result<Option<GdpPacket>>)
        requires
            old(self).wf(),
        ensures
            final(self).wf(),
            port >= old(self)@.ports.len() ==> r == Err::<Option<GdpPacket>, Error>(Error::InvalidField) && final(self)@ == old(self)@,
            port < old(self)@.ports.len() && !old(self)@.ports[port as int].up ==> r == Err::<
                Option<GdpPacket>,
                Error,
            >(Error::LinkDown) && final(self)@ == old(self)@,
            port < old(self)@.ports.len() && old(self)@.ports[port as int].up ==> {
                let served = port_served(old(self)@.ports[port as int]);
                &&& r is Ok && opt_view(r->Ok_0) == served.0
                &&& final(self)@ == (P4RouterView {
                    ports: old(self)@.ports.update(port as int, served.1),
                    ..old(self)@
                })
            },
    {
        let i = port as usize;
        if i >= self.ports.len() {
            return Err(Error::InvalidField);
        }
        if !self.ports[i].up {
            return Err(Error::LinkDown);
        }
        let mut p = self.ports.remove(i);
        let packet = p.pop();
        self.ports.insert(i, p);
        proof {
            assert(self.ports@.map_values(|q: RouterPort| q.view()) =~= old(self)@.ports.update(
                port as int,
                port_served(old(self)@.ports[port as int]).1,
            ));
            assert forall|k: int| 0 <= k < self.ports@.len() implies port_queued(#[trigger] self.ports@[k].view())
                <= self.queue_limit by {
                if k != i {
                    assert(self.ports@[k] == old(self).ports@[k]);
                }
            }
            lemma_table_stable(old(self)@, self@, self.programmed@);
        }
        Ok(packet)
    }

    pub fn poll_cpu(&mut self) -> (r: Option<GdpPacket>)
        requires
            old(self).wf(),
        ensures
            final(self).wf(),
            old(self)@.cpu_queue.len() == 0 ==> r is None && final(self)@ == old(self)@,
            old(self)@.cpu_queue.len() > 0 ==> opt_view(r) == Some(old(self)@.cpu_queue[0]) && final(self)@ == (P4RouterView {
                cpu_queue: old(self)@.cpu_queue.drop_first(),
                ..old(self)@
            }),
    {
        let r = self.cpu_queue.pop_front();
        proof {
            if old(self)@.cpu_queue.len() > 0 {
                assert(self@.cpu_queue =~= old(self)@.cpu_queue.drop_first());
            }
            lemma_table_stable(old(self)@, self@, self.programmed@);
        }
        r
    }

    pub fn cpu_queue_len(&self) -> (r: usize)
        ensures
            r == self@.cpu_queue.len(),
    {
        self.cpu_queue.len()
    }

    /// Replace the counters of port `i`.
    fn set_port_counters(&mut self, i: usize, c: PortCounters)
        requires
            old(self).wf(),
            i < old(self)@.ports.len(),
        ensures
            final(self).wf(),
            final(self)@ == (P4RouterView {
                ports: old(self)@.ports.update(i as int, PortView { counters: c, ..old(self)@.ports[i as int] }),
                ..old(self)@
            }),
    {
        let mut p = self.ports.remove(i);
        p.counters = c;
        self.ports.insert(i, p);
        proof {
            assert(self.ports@.map_values(|q: RouterPort| q.view()) =~= old(self)@.ports.update(
                i as int,
                PortView { counters: c, ..old(self)@.ports[i as int] },
            ));
            assert forall|k: int| 0 <= k < self.ports@.len() implies port_queued(#[trigger] self.ports@[k].view())
                <= self.queue_limit by {
                if k != i {
                    assert(self.ports@[k] == old(self).ports@[k]);
                }
            }
            lemma_table_stable(old(self)@, self@, self.programmed@);
        }
    }

    /// Take in a packet arriving on `ingress_port`, before the forwarding
    /// pipeline sees it: a port that is down drops it, counted, and refuses;
    /// otherwise it is counted as received.
    pub fn accept_ingress(&mut self, ingress_port: RouterPortId) -> (r: Result<()>)
        requires
            old(self).wf(),
        ensures
            final(self).wf(),
            ingress_port >= old(self)@.ports.len() ==> r == Err::<(), Error>(Error::InvalidField) && final(self)@
                == old(self)@,
            ingress_port < old(self)@.ports.len() && !old(self)@.ports[ingress_port as int].up ==> r == Err::<
                (),
                Error,
            >(Error::LinkDown) && final(self)@ == dropped_on(old(self)@, ingress_port),
            ingress_port < old(self)@.ports.len() && old(self)@.ports[ingress_port as int].up ==> r is Ok && final(self)@
                == counted_received(old(self)@, ingress_port),
    {
        let i = ingress_port as usize;
        if i >= self.ports.len() {
            return Err(Error::InvalidField);
        }
        let mut c = self.ports[i].counters;
        if !self.ports[i].up {
            c.drops = c.drops.saturating_add(1);
            self.set_port_counters(i, c);
            let ghost mid = self@;
            self.counters.drops = self.counters.drops.saturating_add(1);
            proof {
                lemma_table_stable(mid, self@, self.programmed@);
            }
            return Err(Error::LinkDown);
        }
        c.rx_packets = c.rx_packets.saturating_add(1);
        self.set_port_counters(i, c);
        let ghost mid = self@;
        self.counters.rx_packets = self.counters.rx_packets.saturating_add(1);
        proof {
            lemma_table_stable(mid, self@, self.programmed@);
        }
        Ok(())
    }

    /// Queue one packet the pipeline sent to `port`.
    fn deliver(&mut self, packet: GdpPacket, port: u16)
        requires
            old(self).wf(),
        ensures
            final(self).wf(),
            final(self)@ == deliver_one(old(self)@, packet@, port),
    {
        if port == self.cpu_port {
            if self.cpu_queue.len() >= self.cpu_queue_limit {
                self.counters.queue_drops = self.counters.queue_drops.saturating_add(1);
                self.counters.drops = self.counters.drops.saturating_add(1);
                proof {
                    lemma_table_stable(old(self)@, self@, self.programmed@);
                }
                return;
            }
            let ghost before = self.cpu_queue@;
            let ghost pv = packet@;
            self.cpu_queue.push_back(packet);
            self.counters.cpu_punts = self.counters.cpu_punts.saturating_add(1);
            assert(packet_views(self.cpu_queue@) =~= packet_views(before).push(pv));
            proof {
                lemma_table_stable(old(self)@, self@, self.programmed@);
            }
            return;
        }
        if port >= self.physical_ports || !self.ports[port as usize].up {
            self.counters.drops = self.counters.drops.saturating_add(1);
            proof {
                lemma_table_stable(old(self)@, self@, self.programmed@);
            }
            return;
        }
        let class = classify_queue(&packet);
        let i = port as usize;
        let mut p = self.ports.remove(i);
        assert(port_queued(p.view()) <= self.queue_limit);
        let res = p.push(class, packet, self.queue_limit);
        self.ports.insert(i, p);
        match res {
            Ok(()) => {
                self.counters.forwarded_packets = self.counters.forwarded_packets.saturating_add(1);
            },
            Err(_) => {
                self.counters.queue_drops = self.counters.queue_drops.saturating_add(1);
                self.counters.drops = self.counters.drops.saturating_add(1);
            },
        }
        proof {
            let o = old(self)@;
            let q = if port_queued(o.ports[i as int]) >= o.queue_limit {
                PortView {
                    counters: PortCounters { drops: sat64(o.ports[i as int].counters.drops, 1), ..o.ports[i as int].counters },
                    ..o.ports[i as int]
                }
            } else {
                port_enqueued(o.ports[i as int], spec_classify(packet@.header), packet@)
            };
            assert(self.ports@.map_values(|x: RouterPort| x.view()) =~= o.ports.update(i as int, q));
            assert forall|k: int| 0 <= k < self.ports@.len() implies port_queued(#[trigger] self.ports@[k].view())
                <= self.queue_limit by {
                if k != i {
                    assert(self.ports@[k] == old(self).ports@[k]);
                }
            }
            lemma_table_stable(old(self)@, self@, self.programmed@);
        }
    }

    /// Hand the forwarding pipeline's outputs for a packet accepted on
    /// `ingress_port` to their queues, in order. No output means the
    /// pipeline dropped the packet. The bytes of each output are decoded with
    /// the local prefix of the packet that went in.
    pub fn deliver_pipeline_outputs(
        &mut self,
        ingress_port: RouterPortId,
        local_prefix: u64,
        outputs: Vec<(Vec<u8>, u16)>,
    ) -> (r: Result<()>)
        requires
            old(self).wf(),
            ingress_port < old(self)@.ports.len(),
        ensures
            final(self).wf(),
            outputs@.len() == 0 ==> r is Ok && final(self)@ == dropped_on(old(self)@, ingress_port),
            outputs@.len() > 0 ==> (r, final(self)@) == deliver_all(old(self)@, outputs_view(outputs@), local_prefix),
    {
        if outputs.len() == 0 {
            let i = ingress_port as usize;
            let mut c = self.ports[i].counters;
            c.drops = c.drops.saturating_add(1);
            self.set_port_counters(i, c);
            let ghost mid = self@;
            self.counters.drops = self.counters.drops.saturating_add(1);
            proof {
                lemma_table_stable(mid, self@, self.programmed@);
            }
            return Ok(());
        }
        let ghost ov = outputs_view(outputs@);
        let cfg = GdpWireConfig::default();
        assert(ov.skip(0) =~= ov);
        let mut i: usize = 0;
        while i < outputs.len()
            invariant
                self.wf(),
                i <= outputs@.len(),
                ov == outputs_view(outputs@),
                cfg.local_form_bit,
                deliver_all(old(self)@, ov, local_prefix) == deliver_all(self@, ov.skip(i as int), local_prefix),
            decreases outputs.len() - i,
        {
            let port = outputs[i].1;
            let packet = match GdpPacket::decode(outputs[i].0.as_slice(), cfg, local_prefix) {
                Ok(p) => p,
                Err(e) => {
                    assert(ov.skip(i as int)[0] == ov[i as int]);
                    return Err(e);
                },
            };
            proof {
                assert(ov.skip(i as int)[0] == ov[i as int]);
                assert(ov.skip(i as int).drop_first() =~= ov.skip(i + 1));
            }
            self.deliver(packet, port);
            i = i + 1;
        }
        assert(ov.skip(outputs.len() as int) =~= Seq::<(Seq<u8>, u16)>::empty());
        Ok(())
    }

    /// Bring `port` up or down. Taking it down discards its queued packets,
    /// counting them as queue drops; the forwarding plane is then rebuilt so
    /// routes over the dead link stop being used.
    pub fn set_port_up(&mut self, port: RouterPortId, up: bool) -> (r: Result<()>)
        requires
            old(self).wf(),
        ensures
            final(self).wf(),
            port >= old(self)@.ports.len() ==> r == Err::<(), Error>(Error::InvalidField) && final(self)@ == old(self)@,
            port < old(self)@.ports.len() ==> r is Ok && ({
                let p = old(self)@.ports[port as int];
                let dropped = if up { 0 } else { port_queued(p) };
                let q = if up {
                    PortView { up: true, ..p }
                } else {
                    PortView {
                        up: false,
                        control: Seq::empty(),
                        interactive: Seq::empty(),
                        bulk: Seq::empty(),
                        counters: PortCounters { drops: sat64(p.counters.drops, dropped), ..p.counters },
                    }
                };
                rebuilt(
                    P4RouterView {
                        ports: old(self)@.ports.update(port as int, q),
                        counters: if dropped == 0 {
                            old(self)@.counters
                        } else {
                            RouterCounters {
                                queue_drops: sat64(old(self)@.counters.queue_drops, dropped),
                                drops: sat64(old(self)@.counters.drops, dropped),
                                ..old(self)@.counters
                            }
                        },
                        ..old(self)@
                    }, final(self)@)
            }),
    {
        let i = port as usize;
        if i >= self.ports.len() {
            return Err(Error::InvalidField);
        }
        let mut p = self.ports.remove(i);
        assert(port_queued(p.view()) <= self.queue_limit);
        p.up = up;
        let dropped = if up {
            0
        } else {
            p.clear_queues()
        };
        self.ports.insert(i, p);
        if dropped != 0 {
            self.counters.queue_drops = self.counters.queue_drops.saturating_add(dropped as u64);
            self.counters.drops = self.counters.drops.saturating_add(dropped as u64);
        }
        proof {
            assert forall|k: int| 0 <= k < self.ports@.len() implies port_queued(#[trigger] self.ports@[k].view())
                <= self.queue_limit by {
                if k != i {
                    assert(self.ports@[k] == old(self).ports@[k]);
                }
            }
            let p0 = old(self)@.ports[port as int];
            let d = if up { 0 } else { port_queued(p0) };
            let q = if up {
                PortView { up: true, ..p0 }
            } else {
                PortView {
                    up: false,
                    control: Seq::empty(),
                    interactive: Seq::empty(),
                    bulk: Seq::empty(),
                    counters: PortCounters { drops: sat64(p0.counters.drops, d), ..p0.counters },
                }
            };
            assert(self.ports@.map_values(|x: RouterPort| x.view()) =~= old(self)@.ports.update(port as int, q));
        }
        self.rebuild_pipeline()
    }
}

} // verus!

verus! {

/// Which queue a routed packet waits in: GCTL packets are control traffic;
/// any other packet whose size class carries at most 64 bytes is interactive,
/// and a larger one is bulk.
pub proof fn law_classify_by_size(h: GdpHeader)
    ensures
        h.packet_type == GdpType::Gctl ==> spec_classify(h) == QueueClass::Control,
        h.packet_type != GdpType::Gctl && h.size_class.spec_bytes() <= 64 ==> spec_classify(h)
            == QueueClass::Interactive,
        h.packet_type != GdpType::Gctl && h.size_class.spec_bytes() > 64 ==> spec_classify(h)
            == QueueClass::Bulk,
{
}

/// A small non-GCTL packet overtakes bulk traffic: queued on a port with no
/// control or interactive packet waiting, it is the next one served, however
/// many bulk packets wait there.
pub proof fn law_small_packet_served_before_bulk(p: PortView, x: GdpPacketView)
    requires
        x.header.packet_type != GdpType::Gctl,
        x.header.size_class.spec_bytes() <= 64,
        p.control.len() == 0,
        p.interactive.len() == 0,
    ensures
        port_served(port_enqueued(p, spec_classify(x.header), x)).0 == Some(x),
{
    law_classify_by_size(x.header);
}

} // verus!

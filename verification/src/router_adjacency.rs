//! One router-to-router adjacency kept alive by HELLO messages.

use vstd::prelude::*;

use crate::dynamic_routing::{LinkId, RouteMetric, RouterId};
use crate::error::{Error, Result};
use crate::time::{Duration, Instant};
use crate::wire::gctl_routing::{RouterHello, RoutingGctlBody, RoutingGctlMessage};

verus! {

#[derive(Debug, Clone, Copy, PartialEq, Eq, Structural)]
pub enum NeighborState {
    Down,
    Up,
}

/// The router at the other end of the link, as its last HELLO described it.
#[derive(Debug, Clone, Copy, PartialEq, Eq, Structural)]
pub struct RouterNeighbor {
    pub router_id: RouterId,
    pub remote_link_id: LinkId,
    pub metric: RouteMetric,
    pub hold_time_ms: u32,
    pub last_seen: Instant,
    pub state: NeighborState,
}

/// The local end of one adjacency.
#[derive(Debug, Clone, Copy, PartialEq, Eq, Structural)]
pub struct RouterAdjacency {
    local_router_id: RouterId,
    local_link_id: LinkId,
    local_metric: RouteMetric,
    local_hold_time_ms: u32,
    neighbor: Option<RouterNeighbor>,
}

/// An adjacency as plain values.
pub struct RouterAdjacencyView {
    pub local_router_id: RouterId,
    pub local_link_id: LinkId,
    pub local_metric: RouteMetric,
    pub local_hold_time_ms: u32,
    pub neighbor: Option<RouterNeighbor>,
}

impl View for RouterAdjacency {
    type V = RouterAdjacencyView;

    closed spec fn view(&self) -> RouterAdjacencyView {
        RouterAdjacencyView {
            local_router_id: self.local_router_id,
            local_link_id: self.local_link_id,
            local_metric: self.local_metric,
            local_hold_time_ms: self.local_hold_time_ms,
            neighbor: self.neighbor,
        }
    }
}

/// The HELLO this end sends.
pub open spec fn local_hello_of(v: RouterAdjacencyView) -> RouterHello {
    RouterHello {
        router_id: v.local_router_id,
        link_id: v.local_link_id,
        hold_time_ms: v.local_hold_time_ms,
        metric: v.local_metric,
    }
}

/// A peer HELLO is acceptable when it comes from another router and
/// announces a hold time.
pub open spec fn peer_acceptable(v: RouterAdjacencyView, peer: RouterHello) -> bool {
    peer.router_id != v.local_router_id && peer.hold_time_ms != 0
}

/// The neighbor a HELLO received at `now` establishes.
pub open spec fn neighbor_from(peer: RouterHello, now: Instant) -> RouterNeighbor {
    RouterNeighbor {
        router_id: peer.router_id,
        remote_link_id: peer.link_id,
        metric: peer.metric,
        hold_time_ms: peer.hold_time_ms,
        last_seen: now,
        state: NeighborState::Up,
    }
}

/// An up neighbor whose hold time has run out at `now`.
pub open spec fn neighbor_expired(n: RouterNeighbor, now: Instant) -> bool {
    n.state == NeighborState::Up && (if now.ms() >= n.last_seen.ms() {
        now.ms() - n.last_seen.ms()
    } else {
        0
    }) >= n.hold_time_ms
}

impl RouterAdjacency {
    /// A new adjacency with no neighbor; a zero hold time is refused.
    pub fn new(local_router_id: RouterId, local_link_id: LinkId, local_metric: RouteMetric, local_hold_time_ms: u32) -> (r:
        Result<Self>)
        ensures
            local_hold_time_ms == 0 ==> r == Err::<Self, Error>(Error::InvalidField),
            local_hold_time_ms != 0 ==> (r matches Ok(a) && a@ == (RouterAdjacencyView {
                local_router_id,
                local_link_id,
                local_metric,
                local_hold_time_ms,
                neighbor: None,
            })),
    {
        if local_hold_time_ms == 0 {
            return Err(Error::InvalidField);
        }
        Ok(RouterAdjacency { local_router_id, local_link_id, local_metric, local_hold_time_ms, neighbor: None })
    }

    pub fn local_router_id(&self) -> (r: RouterId)
        ensures
            r == self@.local_router_id,
    {
        self.local_router_id
    }

    pub fn local_link_id(&self) -> (r: LinkId)
        ensures
            r == self@.local_link_id,
    {
        self.local_link_id
    }

    pub fn neighbor(&self) -> (r: Option<RouterNeighbor>)
        ensures
            r == self@.neighbor,
    {
        self.neighbor
    }

    /// The neighbor's state; `Down` when there is none.
    pub fn state(&self) -> (r: NeighborState)
        ensures
            r == match self@.neighbor {
                Some(n) => n.state,
                None => NeighborState::Down,
            },
    {
        match self.neighbor {
            Some(neighbor) => neighbor.state,
            None => NeighborState::Down,
        }
    }

    /// A HELLO announcing this end.
    pub fn hello(&self, transaction_id: u32) -> (r: RoutingGctlMessage)
        ensures
            r == (RoutingGctlMessage { transaction_id, body: RoutingGctlBody::RouterHello(local_hello_of(self@)) }),
    {
        RoutingGctlMessage::router_hello(transaction_id, self.local_hello())
    }

    /// Handles a routing message: a HELLO (answered with an acknowledging
    /// HELLO) or a HELLO acknowledgement from an acceptable peer makes it
    /// the up neighbor; route messages are not for the adjacency.
    pub fn receive(&mut self, now: Instant, message: RoutingGctlMessage) -> (r: Result<Option<RoutingGctlMessage>>)
        ensures
            match message.body {
                RoutingGctlBody::RouterHello(peer) => if peer_acceptable(old(self)@, peer) {
                    r == Ok::<Option<RoutingGctlMessage>, Error>(
                        Some(
                            RoutingGctlMessage {
                                transaction_id: message.transaction_id,
                                body: RoutingGctlBody::RouterHelloAck(local_hello_of(old(self)@)),
                            },
                        ),
                    ) && final(self)@ == (RouterAdjacencyView {
                        neighbor: Some(neighbor_from(peer, now)),
                        ..old(self)@
                    })
                } else {
                    r == Err::<Option<RoutingGctlMessage>, Error>(Error::InvalidField) && final(self)@ == old(
                        self,
                    )@
                },
                RoutingGctlBody::RouterHelloAck(peer) => if peer_acceptable(old(self)@, peer) {
                    r == Ok::<Option<RoutingGctlMessage>, Error>(None) && final(self)@ == (RouterAdjacencyView {
                        neighbor: Some(neighbor_from(peer, now)),
                        ..old(self)@
                    })
                } else {
                    r == Err::<Option<RoutingGctlMessage>, Error>(Error::InvalidField) && final(self)@ == old(
                        self,
                    )@
                },
                _ => r == Err::<Option<RoutingGctlMessage>, Error>(Error::Unsupported) && final(self)@ == old(
                    self,
                )@,
            },
    {
        match message.body {
            RoutingGctlBody::RouterHello(peer) => {
                if let Err(e) = self.accept_peer(now, peer) {
                    return Err(e);
                }
                Ok(Some(RoutingGctlMessage::router_hello_ack(message.transaction_id, self.local_hello())))
            },
            RoutingGctlBody::RouterHelloAck(peer) => {
                if let Err(e) = self.accept_peer(now, peer) {
                    return Err(e);
                }
                Ok(None)
            },
            RoutingGctlBody::RouteAdvertise(_) | RoutingGctlBody::RouteWithdraw(_) => Err(Error::Unsupported),
        }
    }

    /// Marks an up neighbor down once its hold time ran out; `true` when it
    /// went down now.
    pub fn expire(&mut self, now: Instant) -> (r: bool)
        ensures
            match old(self)@.neighbor {
                Some(n) => if neighbor_expired(n, now) {
                    r && final(self)@ == (RouterAdjacencyView {
                        neighbor: Some(RouterNeighbor { state: NeighborState::Down, ..n }),
                        ..old(self)@
                    })
                } else {
                    !r && final(self)@ == old(self)@
                },
                None => !r && final(self)@ == old(self)@,
            },
    {
        let mut neighbor = match self.neighbor {
            Some(n) => n,
            None => return false,
        };
        if neighbor.state == NeighborState::Down {
            return false;
        }
        let elapsed = now.saturating_duration_since(neighbor.last_seen);
        if elapsed.total_millis() >= Duration::from_millis(neighbor.hold_time_ms as u64).total_millis() {
            neighbor.state = NeighborState::Down;
            self.neighbor = Some(neighbor);
            true
        } else {
            false
        }
    }

    fn local_hello(&self) -> (r: RouterHello)
        ensures
            r == local_hello_of(self@),
    {
        RouterHello {
            router_id: self.local_router_id,
            link_id: self.local_link_id,
            hold_time_ms: self.local_hold_time_ms,
            metric: self.local_metric,
        }
    }

    fn accept_peer(&mut self, now: Instant, peer: RouterHello) -> (r: Result<()>)
        ensures
            !peer_acceptable(old(self)@, peer) ==> r == Err::<(), Error>(Error::InvalidField) && final(self)@
                == old(self)@,
            peer_acceptable(old(self)@, peer) ==> r == Ok::<(), Error>(()) && final(self)@ == (RouterAdjacencyView {
                neighbor: Some(neighbor_from(peer, now)),
                ..old(self)@
            }),
    {
        if peer.router_id == self.local_router_id || peer.hold_time_ms == 0 {
            return Err(Error::InvalidField);
        }
        self.neighbor = Some(
            RouterNeighbor {
                router_id: peer.router_id,
                remote_link_id: peer.link_id,
                metric: peer.metric,
                hold_time_ms: peer.hold_time_ms,
                last_seen: now,
                state: NeighborState::Up,
            },
        );
        Ok(())
    }
}

} // verus!

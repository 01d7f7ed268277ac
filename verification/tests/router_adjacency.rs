use smolgnet::dynamic_routing::{LinkId, RouteMetric, RouterId};
use smolgnet::error::Error;
use smolgnet::router_adjacency::{NeighborState, RouterAdjacency};
use smolgnet::time::Instant;
use smolgnet::wire::gctl_routing::{RouterHello, RoutingGctlBody, RoutingGctlMessage};

fn hello(id: u64, hold: u32) -> RouterHello {
    RouterHello { router_id: RouterId(id), link_id: LinkId(9), hold_time_ms: hold, metric: RouteMetric(3) }
}

#[test]
fn hello_brings_the_neighbor_up_and_is_acknowledged() {
    let mut adj = RouterAdjacency::new(RouterId(1), LinkId(2), RouteMetric(10), 1000).unwrap();
    assert_eq!(adj.state(), NeighborState::Down);
    let reply = adj
        .receive(Instant::from_millis(5), RoutingGctlMessage::router_hello(77, hello(4, 300)))
        .unwrap()
        .unwrap();
    assert_eq!(reply.transaction_id, 77);
    assert!(matches!(reply.body, RoutingGctlBody::RouterHelloAck(h) if h.router_id == RouterId(1) && h.hold_time_ms == 1000));
    assert_eq!(adj.state(), NeighborState::Up);
    assert_eq!(adj.neighbor().unwrap().router_id, RouterId(4));
    assert!(!adj.expire(Instant::from_millis(304)));
    assert!(adj.expire(Instant::from_millis(305)));
    assert_eq!(adj.state(), NeighborState::Down);
    assert!(!adj.expire(Instant::from_millis(1000)));
}

#[test]
fn bad_hellos_and_route_messages_are_refused() {
    let mut adj = RouterAdjacency::new(RouterId(1), LinkId(2), RouteMetric(10), 1000).unwrap();
    assert_eq!(RouterAdjacency::new(RouterId(1), LinkId(2), RouteMetric(10), 0), Err(Error::InvalidField));
    assert_eq!(
        adj.receive(Instant::zero(), RoutingGctlMessage::router_hello(1, hello(1, 300))),
        Err(Error::InvalidField)
    );
    assert_eq!(
        adj.receive(Instant::zero(), RoutingGctlMessage::router_hello_ack(1, hello(5, 0))),
        Err(Error::InvalidField)
    );
    assert_eq!(adj.receive(Instant::zero(), RoutingGctlMessage::router_hello_ack(1, hello(5, 10))), Ok(None));
    assert_eq!(adj.hello(3), RoutingGctlMessage::router_hello(3, RouterHello {
        router_id: RouterId(1),
        link_id: LinkId(2),
        hold_time_ms: 1000,
        metric: RouteMetric(10),
    }));
}

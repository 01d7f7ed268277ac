use smolgnet::dynamic_routing::{RouteMetric, RouteOrigin, RouterId};
use smolgnet::error::Error;
use smolgnet::router_rib::{RouteUpdate, RouterRib};
use smolgnet::routing::GdpPrefix;
use smolgnet::wire::gctl_routing::{RouteAdvertise, RouteWithdraw};
use smolgnet::wire::gdp::GdpAddress;

fn prefix(v: u64, len: u8) -> GdpPrefix {
    GdpPrefix::new(GdpAddress(v), len).unwrap()
}

fn advert(from: u64, p: GdpPrefix, metric: u32) -> RouteAdvertise {
    RouteAdvertise { advertiser: RouterId(from), prefix: p, origin: RouteOrigin::Connected, metric: RouteMetric(metric) }
}

#[test]
fn connected_route_beats_learned_and_lower_metric_wins() {
    let mut rib = RouterRib::new(RouterId(1));
    let p = prefix(0x1234_0000_0000_0000, 16);
    rib.receive_advertisement(RouterId(2), 7, advert(2, p, 50)).unwrap();
    rib.receive_advertisement(RouterId(3), 8, advert(3, p, 20)).unwrap();
    let selected = rib.selected_routes();
    assert_eq!(selected.len(), 1);
    assert_eq!(selected[0].egress_port, 8);
    assert_eq!(selected[0].learned_from, Some(RouterId(3)));
    rib.add_connected(p, 1);
    let selected = rib.selected_routes();
    assert_eq!(selected[0].origin, RouteOrigin::Connected);
    assert_eq!(selected[0].egress_port, 1);
    assert!(rib.learned_fib().is_empty());
    assert_eq!(rib.routes().len(), 3);
}

#[test]
fn advertisements_are_refused_from_self_or_for_static_routes() {
    let mut rib = RouterRib::new(RouterId(1));
    let p = prefix(0x1234_0000_0000_0000, 16);
    assert_eq!(rib.receive_advertisement(RouterId(1), 0, advert(1, p, 1)), Err(Error::InvalidField));
    assert_eq!(rib.receive_advertisement(RouterId(2), 0, advert(3, p, 1)), Err(Error::InvalidField));
    let mut st = advert(2, p, 1);
    st.origin = RouteOrigin::Static;
    assert_eq!(rib.receive_advertisement(RouterId(2), 0, st), Err(Error::InvalidField));
    assert!(rib.routes().is_empty());
}

#[test]
fn readvertisement_replaces_and_withdrawal_removes() {
    let mut rib = RouterRib::new(RouterId(1));
    let p = prefix(0x1234_0000_0000_0000, 16);
    rib.receive_advertisement(RouterId(2), 7, advert(2, p, 50)).unwrap();
    rib.receive_advertisement(RouterId(2), 9, advert(2, p, 10)).unwrap();
    assert_eq!(rib.routes().len(), 1);
    assert_eq!(rib.routes()[0].egress_port, 9);
    assert_eq!(rib.receive_withdrawal(RouterId(2), RouteWithdraw { advertiser: RouterId(2), prefix: p }), Ok(true));
    assert_eq!(rib.receive_withdrawal(RouterId(2), RouteWithdraw { advertiser: RouterId(2), prefix: p }), Ok(false));
    assert!(rib.routes().is_empty());
}

#[test]
fn losing_a_neighbor_reports_each_changed_prefix_once_in_order() {
    let mut rib = RouterRib::new(RouterId(1));
    let a = prefix(0x2000_0000_0000_0000, 8);
    let b = prefix(0x1000_0000_0000_0000, 8);
    rib.receive_advertisement(RouterId(2), 7, advert(2, a, 5)).unwrap();
    rib.receive_advertisement(RouterId(2), 7, advert(2, b, 5)).unwrap();
    rib.add_static(a, 3, RouteMetric(9));
    let changed = rib.remove_learned_from(RouterId(2));
    assert_eq!(changed, vec![b, a]);
    assert_eq!(rib.routes().len(), 1);
}

#[test]
fn split_horizon_and_updates() {
    let mut rib = RouterRib::new(RouterId(1));
    let learned = prefix(0x1000_0000_0000_0000, 8);
    let connected = prefix(0x2000_0000_0000_0000, 8);
    let gone = prefix(0x3000_0000_0000_0000, 8);
    rib.receive_advertisement(RouterId(2), 7, advert(2, learned, 5)).unwrap();
    rib.add_connected(connected, 1);
    let to_two = rib.advertisements_for(RouterId(2), RouteMetric(10));
    assert_eq!(to_two.len(), 1);
    assert_eq!(to_two[0].prefix, connected);
    assert_eq!(to_two[0].metric, RouteMetric(10));
    let to_three = rib.advertisements_for(RouterId(3), RouteMetric(u32::MAX));
    assert_eq!(to_three.len(), 2);
    assert_eq!(to_three[0].metric, RouteMetric(u32::MAX));
    let updates = rib.updates_for(RouterId(2), RouteMetric(1), &[gone, learned, connected, gone]);
    assert_eq!(updates.len(), 3);
    assert!(matches!(updates[0], RouteUpdate::Withdraw(w) if w.prefix == learned && w.advertiser == RouterId(1)));
    assert!(matches!(updates[1], RouteUpdate::Advertise(a) if a.prefix == connected && a.metric == RouteMetric(1)));
    assert!(matches!(updates[2], RouteUpdate::Withdraw(w) if w.prefix == gone));
}

use smolgnet::dynamic_router::DynamicP4Router;
use smolgnet::dynamic_routing::{RouteMetric, RouteOrigin, RouterId};
use smolgnet::error::Error;
use smolgnet::routing::GdpPrefix;
use smolgnet::static_router::{RouterAttachment, RouterPortConfig, StaticRouteConfig};
use smolgnet::wire::gctl_routing::RouteAdvertise;
use smolgnet::wire::gdp::GdpAddress;

fn ports() -> Vec<RouterPortConfig> {
    vec![
        RouterPortConfig::new(0, RouterAttachment::Direct, GdpAddress(0xfe80_0000_0000_0001))
            .with_connected_network(
                GdpPrefix::new(GdpAddress(0x2001_0db8_0000_0000), 32).unwrap(),
                GdpAddress(0x2001_0db8_0000_0001),
            ),
        RouterPortConfig::new(1, RouterAttachment::Direct, GdpAddress(0xfe80_0000_0000_0002)),
    ]
}

fn learned_prefix() -> GdpPrefix {
    GdpPrefix::new(GdpAddress(0x3000_0000_0000_0000), 16).unwrap()
}

fn advert(from: u64, prefix: GdpPrefix) -> RouteAdvertise {
    RouteAdvertise {
        advertiser: RouterId(from),
        prefix,
        origin: RouteOrigin::Learned,
        metric: RouteMetric(5),
    }
}

#[test]
fn learned_routes_are_selected_and_forwarded() {
    let mut router = DynamicP4Router::new(RouterId(1), ports(), vec![]).unwrap();
    assert_eq!(router.router_id(), RouterId(1));
    assert!(router.learned_routes().is_empty());
    assert_eq!(router.selected_fib().len(), 1);
    router.receive_advertisement(RouterId(2), 1, advert(2, learned_prefix())).unwrap();
    let learned = router.learned_routes();
    assert_eq!(learned.len(), 1);
    assert_eq!(learned[0].prefix, learned_prefix());
    assert_eq!(learned[0].egress_port, 1);
    assert_eq!(learned[0].learned_from, Some(RouterId(2)));
    assert_eq!(router.selected_fib().len(), 2);
    let to_three = router.advertisements_for(RouterId(3), RouteMetric(1));
    assert_eq!(to_three.len(), 2);
    assert_eq!(router.advertisements_for(RouterId(2), RouteMetric(1)).len(), 1);
}

#[test]
fn refused_and_unbuildable_advertisements() {
    let mut router = DynamicP4Router::new(RouterId(1), ports(), vec![]).unwrap();
    assert_eq!(
        router.receive_advertisement(RouterId(1), 1, advert(1, learned_prefix())),
        Err(Error::InvalidField)
    );
    assert_eq!(
        router.receive_advertisement(RouterId(2), 1, advert(3, learned_prefix())),
        Err(Error::InvalidField)
    );
    assert!(router.rib().routes().len() == 1);
    assert_eq!(
        router.receive_advertisement(RouterId(2), 9, advert(2, learned_prefix())),
        Err(Error::InvalidField)
    );
    assert_eq!(router.learned_routes().len(), 1);
    assert!(DynamicP4Router::new(
        RouterId(1),
        ports(),
        vec![StaticRouteConfig::direct(learned_prefix(), 7)]
    )
    .is_err());
}

#[test]
fn random_router_ids_are_never_zero() {
    for _ in 0..16 {
        assert_ne!(RouterId::random().unwrap().0, 0);
    }
}

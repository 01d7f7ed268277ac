use smolgnet::cycle_router::{CycleAwareRouter, RouterVc0Policy};
use smolgnet::error::Error;
use smolgnet::routing::GdpPrefix;
use smolgnet::static_router::{
    router_bootstrap_address, FibOrigin, NodeState, RouterAttachment, RouterPortConfig,
    RouterStartupConfig, StaticP4Router, StaticRouteConfig, SwitchRegistrationState,
};
use smolgnet::static_router::RouterDisposition;
use smolgnet::wire::gdp::{GdpAddress, GdpHeader, GdpPacket, GdpType, GdpWireConfig, SizeClass};

const PORT0_LL: GdpAddress = GdpAddress(0xfe80_0000_0000_0001);
const PORT1_LL: GdpAddress = GdpAddress(0xfe80_0000_0000_0002);
const ROUTER0: GdpAddress = GdpAddress(0x2001_0db8_0000_0001);

fn net0() -> GdpPrefix {
    GdpPrefix::new(GdpAddress(0x2001_0db8_0000_0000), 32).unwrap()
}

fn remote() -> GdpPrefix {
    GdpPrefix::new(GdpAddress(0x2002_0000_0000_0000), 16).unwrap()
}

fn startup() -> RouterStartupConfig {
    RouterStartupConfig::new(
        vec![
            RouterPortConfig::new(0, RouterAttachment::Direct, PORT0_LL)
                .with_connected_network(net0(), ROUTER0),
            RouterPortConfig::new(1, RouterAttachment::Switch, PORT1_LL),
        ],
        vec![StaticRouteConfig::via(remote(), 1, GdpAddress(0xfe80_0000_0000_0009))],
    )
}

#[test]
fn valid_startup_compiles_the_forwarding_table_in_order() {
    let router = StaticP4Router::new(startup()).unwrap();
    assert_eq!(router.physical_port_count(), 2);
    assert_eq!(router.cpu_port(), 2);
    assert_eq!(router.fib_generation(), 1);
    let fib = router.fib();
    assert_eq!(fib.len(), 6);
    assert_eq!(fib[0].origin, FibOrigin::Bootstrap);
    assert_eq!(fib[0].prefix, GdpPrefix::new(router_bootstrap_address(), 64).unwrap());
    assert_eq!(fib[1].prefix, GdpPrefix::new(PORT0_LL, 64).unwrap());
    assert_eq!(fib[2].prefix, GdpPrefix::new(ROUTER0, 64).unwrap());
    assert_eq!(fib[3].prefix, GdpPrefix::new(PORT1_LL, 64).unwrap());
    assert!(fib[1..4].iter().all(|e| e.origin == FibOrigin::RouterLocal && e.egress_port.is_none()));
    assert_eq!((fib[4].prefix, fib[4].egress_port, fib[4].origin), (net0(), Some(0), FibOrigin::Connected));
    assert_eq!((fib[5].prefix, fib[5].egress_port, fib[5].origin), (remote(), Some(1), FibOrigin::Static));
    let p1 = router.port(1).unwrap();
    assert!(p1.up);
    assert_eq!(p1.switch_registration, SwitchRegistrationState::Unregistered);
    assert_eq!(router.port(0).unwrap().switch_registration, SwitchRegistrationState::NotRequired);
    assert_eq!(router.port(2), Err(Error::InvalidField));
}

#[test]
fn invalid_startup_configurations_are_refused() {
    assert_eq!(RouterStartupConfig::new(vec![], vec![]).validate(), Err(Error::InvalidField));
    let mut wrong_id = startup();
    wrong_id.ports[1].id = 7;
    assert_eq!(wrong_id.validate(), Err(Error::InvalidField));
    let mut global_link_local = startup();
    global_link_local.ports[1].link_local = GdpAddress(0x2001_0000_0000_0002);
    assert_eq!(global_link_local.validate(), Err(Error::InvalidField));
    let mut duplicate = startup();
    duplicate.ports[1].link_local = PORT0_LL;
    assert_eq!(duplicate.validate(), Err(Error::InvalidField));
    let mut outside = startup();
    outside.ports[0].routed_address = Some(GdpAddress(0x3000_0000_0000_0001));
    assert_eq!(outside.validate(), Err(Error::InvalidField));
    let mut half = startup();
    half.ports[0].routed_address = None;
    assert_eq!(half.validate(), Err(Error::InvalidField));
    let mut bad_egress = startup();
    bad_egress.routes[0].egress_port = 2;
    assert_eq!(bad_egress.validate(), Err(Error::InvalidField));
    let mut shadowed = startup();
    shadowed.routes.push(StaticRouteConfig::direct(net0(), 1));
    assert_eq!(shadowed.validate(), Err(Error::InvalidField));
    let mut owned_host = startup();
    owned_host.routes.push(StaticRouteConfig::direct(GdpPrefix::new(ROUTER0, 64).unwrap(), 1));
    assert_eq!(owned_host.validate(), Err(Error::InvalidField));
    let mut bootstrap_host = startup();
    bootstrap_host
        .routes
        .push(StaticRouteConfig::direct(GdpPrefix::new(router_bootstrap_address(), 64).unwrap(), 1));
    assert_eq!(bootstrap_host.validate(), Err(Error::InvalidField));
    assert_eq!(startup().validate(), Ok(()));
    assert!(StaticP4Router::new(duplicate).is_err());
}

#[test]
fn nodes_are_recorded_once_and_configured_inside_the_connected_network() {
    let mut router = StaticP4Router::new(startup()).unwrap();
    let node = GdpAddress(0xfe80_0000_0000_0042);
    let rec = router.record_node(0, node).unwrap();
    assert_eq!(rec.state, NodeState::Observed);
    assert_eq!(router.record_node(0, node), Ok(rec));
    assert_eq!(router.record_node(1, node), Err(Error::InvalidState));
    assert_eq!(router.record_node(0, PORT1_LL), Err(Error::InvalidField));
    assert_eq!(router.record_node(0, router_bootstrap_address()), Err(Error::InvalidField));
    assert_eq!(router.record_node(5, GdpAddress(0xfe80_0000_0000_0043)), Err(Error::InvalidField));

    assert_eq!(
        router.configure_node_address(node, GdpAddress(0x3000_0000_0000_0001)),
        Err(Error::InvalidField)
    );
    assert_eq!(router.configure_node_address(node, ROUTER0), Err(Error::InvalidField));
    let addr = GdpAddress(0x2001_0db8_0000_0042);
    let configured = router.configure_node_address(node, addr).unwrap();
    assert_eq!(configured.routed_address, Some(addr));
    assert_eq!(configured.state, NodeState::Configured);
    assert_eq!(router.node(node), Some(configured));
    assert_eq!(router.node_by_routed_address(addr), Some(configured));
    assert_eq!(router.configure_node_address(node, addr), Err(Error::InvalidField));

    let other = GdpAddress(0xfe80_0000_0000_0007);
    router.record_node(1, other).unwrap();
    assert_eq!(
        router.configure_node_address(other, GdpAddress(0x2001_0db8_0000_0043)),
        Err(Error::InvalidState)
    );
    let listed: Vec<u64> = router.nodes().iter().map(|n| n.link_local.0).collect();
    assert_eq!(listed, vec![other.0, node.0]);
    assert_eq!(router.remove_node(node), Some(configured));
    assert_eq!(router.node_by_routed_address(addr), None);
    assert_eq!(
        router.configure_node_address(node, addr),
        Err(Error::InvalidState)
    );
}

#[test]
fn cycle_aware_router_reserves_vc0_for_escape_by_default() {
    assert_eq!(RouterVc0Policy::default(), RouterVc0Policy::EscapeOnly);
    let escape = CycleAwareRouter::new(startup(), RouterVc0Policy::default()).unwrap();
    assert_eq!(escape.normal_data_vcids(), vec![1, 2, 3]);
    assert_eq!(escape.escape_vcid(), Some(0));
    assert_eq!(escape.physical_port_count(), 2);
    assert_eq!(escape.startup_config().routes.len(), 1);
    let mut normal = CycleAwareRouter::new(startup(), RouterVc0Policy::NormalData).unwrap();
    assert_eq!(normal.vc0_policy(), RouterVc0Policy::NormalData);
    assert_eq!(normal.normal_data_vcids(), vec![0, 1, 2, 3]);
    assert_eq!(normal.escape_vcid(), None);
    normal.inner_mut().record_node(1, GdpAddress(0xfe80_0000_0000_0044)).unwrap();
    assert!(normal.inner().node(GdpAddress(0xfe80_0000_0000_0044)).is_some());
    assert!(CycleAwareRouter::new(RouterStartupConfig::new(vec![], vec![]), RouterVc0Policy::NormalData).is_err());
}

#[test]
fn pipeline_outputs_become_forward_punt_or_drop() {
    let router = StaticP4Router::new(startup()).unwrap();
    assert_eq!(router.check_ingress(0), Ok(()));
    assert_eq!(router.check_ingress(2), Err(Error::LinkDown));
    let header = GdpHeader::global(GdpType::Gts, SizeClass::Ctrl32, 9, PORT0_LL, ROUTER0);
    let packet = GdpPacket::new(header, vec![4; SizeClass::Ctrl32.bytes()]).unwrap();
    let bytes = packet.encode(GdpWireConfig::default()).unwrap();
    assert_eq!(router.dispose_pipeline_outputs(0, 0, vec![]), Ok(RouterDisposition::Drop));
    assert_eq!(
        router.dispose_pipeline_outputs(0, 0, vec![(bytes.clone(), 1), (bytes.clone(), 0)]),
        Err(Error::InvalidState)
    );
    assert_eq!(
        router.dispose_pipeline_outputs(0, 0, vec![(bytes.clone(), 1)]),
        Ok(RouterDisposition::Forward { egress_port: 1, packet: packet.clone() })
    );
    assert_eq!(
        router.dispose_pipeline_outputs(1, 0, vec![(bytes.clone(), 2)]),
        Ok(RouterDisposition::Punt { ingress_port: 1, packet: packet.clone() })
    );
    assert_eq!(router.dispose_pipeline_outputs(1, 0, vec![(bytes, 5)]), Ok(RouterDisposition::Drop));
    assert_eq!(router.dispose_pipeline_outputs(1, 0, vec![(vec![0; 2], 1)]), Err(Error::InvalidLength));
}

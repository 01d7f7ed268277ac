use smolgnet::error::Error;
use smolgnet::p4_router::{P4Router, PolicyAction, RouteTarget};
use smolgnet::wire::gdp::{GdpAddress, GdpHeader, GdpPacket, GdpType, GdpWireConfig, SizeClass};

fn packet(ty: GdpType, class: SizeClass, fill: u8) -> GdpPacket {
    let header = GdpHeader::global(ty, class, 16, GdpAddress(1), GdpAddress(0x2001_0000_0000_0005));
    GdpPacket::new(header, vec![fill; class.bytes()]).unwrap()
}

#[test]
fn construction_limits_and_empty_state() {
    assert!(P4Router::new(0, 4).is_err());
    assert!(P4Router::new(2, 0).is_err());
    assert!(P4Router::new(u16::MAX, 4).is_err());
    let router = P4Router::new(3, 4).unwrap();
    assert_eq!(router.physical_port_count(), 3);
    assert_eq!(router.cpu_port(), 3);
    assert_eq!(router.cpu_queue_len(), 0);
    assert!(router.programmed_routes().is_empty());
    assert_eq!(router.port_counters(3), Err(Error::InvalidField));
    assert_eq!(router.port_is_up(1), Ok(true));
}

#[test]
fn best_active_route_per_prefix_is_programmed_and_fails_over() {
    let mut r = P4Router::new(2, 4).unwrap();
    r.install_adjacency(1, 0, GdpAddress(0xfe80_0000_0000_0001)).unwrap();
    r.install_adjacency(2, 1, GdpAddress(0xfe80_0000_0000_0002)).unwrap();
    assert_eq!(r.install_adjacency(3, 2, GdpAddress(9)), Err(Error::InvalidField));
    assert_eq!(r.install_route(0, 65, 1, RouteTarget::Cpu), Err(Error::InvalidField));
    assert_eq!(r.install_route(0, 8, 1, RouteTarget::Adjacency(9)), Err(Error::InvalidField));
    let primary = r.install_route(0x2001_0000_0000_00ff, 16, 10, RouteTarget::Adjacency(1)).unwrap();
    let backup = r.install_route(0x2001_ffff_0000_0000, 16, 20, RouteTarget::Adjacency(2)).unwrap();
    assert_eq!(r.route(primary).unwrap().prefix, 0x2001_0000_0000_0000);
    assert_eq!(r.route(backup).unwrap().prefix, 0x2001_0000_0000_0000);
    assert_eq!(r.programmed_routes().len(), 1);
    assert_eq!(r.programmed_routes()[0].id, primary);
    r.set_port_up(0, false).unwrap();
    assert_eq!(r.programmed_routes().len(), 1);
    assert_eq!(r.programmed_routes()[0].id, backup);
    r.set_port_up(0, true).unwrap();
    assert_eq!(r.programmed_routes()[0].id, primary);
    r.remove_route(primary).unwrap();
    assert_eq!(r.programmed_routes()[0].id, backup);
    assert_eq!(r.remove_route(primary), Err(Error::InvalidField));
    let rebuilds = r.counters().route_rebuilds;
    assert!(rebuilds >= 6);
    r.set_policy(0, GdpType::Gctl, PolicyAction::Punt).unwrap();
    r.clear_policy(0, GdpType::Gctl).unwrap();
    assert_eq!(r.set_policy(5, GdpType::Gctl, PolicyAction::Drop), Err(Error::InvalidField));
    assert_eq!(r.counters().route_rebuilds, rebuilds + 2);
}

#[test]
fn pipeline_outputs_are_queued_by_class_and_served_in_priority_order() {
    let mut r = P4Router::new(2, 2).unwrap();
    let cfg = GdpWireConfig::default();
    let bulk = packet(GdpType::Gts, SizeClass::Msg128, 1);
    let ctrl = packet(GdpType::Gctl, SizeClass::Ctrl32, 2);
    let small = packet(GdpType::Gts, SizeClass::Ctrl64, 3);
    r.accept_ingress(0).unwrap();
    r.deliver_pipeline_outputs(
        0,
        0,
        vec![
            (bulk.encode(cfg).unwrap(), 1),
            (ctrl.encode(cfg).unwrap(), 1),
            (small.encode(cfg).unwrap(), 1),
            (ctrl.encode(cfg).unwrap(), 2),
        ],
    )
    .unwrap();
    assert_eq!(r.queued_on_port(1), Ok(2));
    assert_eq!(r.cpu_queue_len(), 1);
    let c = r.counters();
    assert_eq!((c.rx_packets, c.forwarded_packets, c.cpu_punts, c.queue_drops, c.drops), (1, 2, 1, 1, 1));
    assert_eq!(r.port_counters(1).unwrap().drops, 1);
    assert_eq!(r.poll_egress(1).unwrap(), Some(ctrl.clone()));
    assert_eq!(r.poll_egress(1).unwrap(), Some(bulk));
    assert_eq!(r.poll_egress(1).unwrap(), None);
    assert_eq!(r.poll_cpu(), Some(ctrl));
    assert_eq!(r.port_counters(1).unwrap().tx_packets, 2);
    r.deliver_pipeline_outputs(1, 0, vec![]).unwrap();
    assert_eq!(r.port_counters(1).unwrap().drops, 2);
    assert_eq!(r.deliver_pipeline_outputs(0, 0, vec![(vec![1, 2, 3], 1)]), Err(Error::InvalidLength));
}

#[test]
fn down_port_refuses_traffic_and_discards_its_queue() {
    let mut r = P4Router::new(2, 4).unwrap();
    let cfg = GdpWireConfig::default();
    let p = packet(GdpType::Gts, SizeClass::Msg128, 7);
    r.deliver_pipeline_outputs(0, 0, vec![(p.encode(cfg).unwrap(), 1), (p.encode(cfg).unwrap(), 1)]).unwrap();
    r.set_port_up(1, false).unwrap();
    assert_eq!(r.queued_on_port(1), Ok(0));
    assert_eq!(r.counters().queue_drops, 2);
    assert_eq!(r.poll_egress(1), Err(Error::LinkDown));
    assert_eq!(r.accept_ingress(1), Err(Error::LinkDown));
    assert_eq!(r.port_counters(1).unwrap().drops, 3);
    r.deliver_pipeline_outputs(0, 0, vec![(p.encode(cfg).unwrap(), 1)]).unwrap();
    assert_eq!(r.queued_on_port(1), Ok(0));
    assert_eq!(r.set_cpu_queue_limit(0), Err(Error::InvalidField));
    assert_eq!(r.accept_ingress(9), Err(Error::InvalidField));
}

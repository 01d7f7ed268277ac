use smolgnet::error::Error;
use smolgnet::endpoint::{Endpoint, EndpointConfig};
use smolgnet::routing::{GdpPrefix, Route};
use smolgnet::time::Instant;
use smolgnet::wire::gdp::{GdpAddress, GdpPacket, GdpWireConfig, SizeClass};

fn endpoint() -> Endpoint {
    Endpoint::new(GdpAddress(0x0102_0304_0000_0001), EndpointConfig::new(256)).unwrap()
}

#[test]
fn direct_send_is_preserved_without_routes() {
    let endpoint = endpoint();
    let destination = GdpAddress(0x9999_0000_0000_0001);
    assert!(endpoint.routes().is_empty());
    assert_eq!(endpoint.route(destination, Instant::zero()), None);
    assert_eq!(endpoint.next_hop(destination, Instant::zero()), Some(destination));
}

#[test]
fn endpoint_default_router_is_selected() {
    let mut endpoint = endpoint();
    let router = GdpAddress(0x0102_0304_0000_00fe);
    endpoint.routes_mut().add_default_route(router).unwrap();

    assert_eq!(
        endpoint.next_hop(GdpAddress(0x9999_0000_0000_0001), Instant::zero()),
        Some(router)
    );
}

#[test]
fn endpoint_specific_route_overrides_default() {
    let mut endpoint = endpoint();
    let default_router = GdpAddress(0x0102_0304_0000_00fe);
    let specific_router = GdpAddress(0x0102_0304_0000_00fd);

    endpoint.routes_mut().add_default_route(default_router).unwrap();
    endpoint
        .routes_mut()
        .add(Route::new(
            GdpPrefix::new(GdpAddress(0x1234_0000_0000_0000), 16).unwrap(),
            specific_router,
        ))
        .unwrap();

    assert_eq!(
        endpoint.next_hop(GdpAddress(0x1234_abcd_0000_0001), Instant::zero()),
        Some(specific_router)
    );
    assert_eq!(
        endpoint.next_hop(GdpAddress(0x9999_0000_0000_0001), Instant::zero()),
        Some(default_router)
    );
}

#[test]
fn expired_specific_route_falls_back_to_default() {
    let mut endpoint = endpoint();
    let default_router = GdpAddress(0x0102_0304_0000_00fe);
    let specific_router = GdpAddress(0x0102_0304_0000_00fd);
    let prefix = GdpPrefix::new(GdpAddress(0x1234_0000_0000_0000), 16).unwrap();
    let mut specific = Route::new(prefix, specific_router);
    specific.expires_at = Some(Instant::from_millis(10));

    endpoint.routes_mut().add_default_route(default_router).unwrap();
    endpoint.routes_mut().add(specific).unwrap();

    assert_eq!(
        endpoint.next_hop(GdpAddress(0x1234_abcd_0000_0001), Instant::from_millis(5)),
        Some(specific_router)
    );
    assert_eq!(
        endpoint.next_hop(GdpAddress(0x1234_abcd_0000_0001), Instant::from_millis(11)),
        Some(default_router)
    );
}

#[test]
fn route_aware_send_keeps_original_gdp_destination() {
    let mut endpoint = endpoint();
    let destination = GdpAddress(0x1234_abcd_0000_0001);
    let router = GdpAddress(0x0102_0304_0000_00fe);
    endpoint.routes_mut().add_default_route(router).unwrap();
    assert_eq!(endpoint.next_hop(destination, Instant::zero()), Some(router));

    endpoint
        .send_echo_at(destination, 7, b"route", SizeClass::Ctrl32, Instant::zero())
        .unwrap();

    endpoint.dlp_mut().grant_control_tx_credit(32);
    let frame = endpoint.dlp_mut().poll_tx_frame().unwrap().unwrap();
    let packet = GdpPacket::decode(&frame.bytes, GdpWireConfig::default(), 0).unwrap();
    assert_eq!(packet.header.addresses.effective_destination(), destination);
    assert_ne!(packet.header.addresses.effective_destination(), router);
}

#[test]
fn configured_table_without_match_reports_no_route() {
    let mut endpoint = endpoint();
    endpoint
        .routes_mut()
        .add(Route::new(
            GdpPrefix::new(GdpAddress(0x1234_0000_0000_0000), 16).unwrap(),
            GdpAddress(0x0102_0304_0000_00fd),
        ))
        .unwrap();
    let destination = GdpAddress(0x9999_0000_0000_0001);
    assert_eq!(endpoint.next_hop(destination, Instant::zero()), None);
    assert_eq!(
        endpoint.send_echo_at(destination, 1, b"x", SizeClass::Ctrl32, Instant::zero()),
        Err(smolgnet::error::Error::NoRoute)
    );
}

#[test]
fn attached_link_grants_the_peer_control_window_and_detach_drops_it() {
    let mut ep = endpoint();
    let before = ep.dlp().control_tx_credit();
    assert_eq!(ep.link_attached(GdpAddress(0xfe80_0000_0000_0002), 0), Err(Error::InvalidField));
    assert_eq!(ep.dlp().control_tx_credit(), before);
    ep.link_attached(GdpAddress(0xfe80_0000_0000_0002), 16).unwrap();
    assert_eq!(ep.dlp().control_tx_credit(), before + 16);
    ep.link_detached();
    assert_eq!(ep.dlp().control_tx_credit(), 0);
    assert_eq!(ep.dlp().data_tx_credit(), 0);
}

use smolgnet::dlp_control::{DlpControlState, DlpDirectCable, DlpManagedEndpoint, DlpNegotiatedProfile};
use smolgnet::link::VcMode;
use smolgnet::endpoint::EndpointConfig;
use smolgnet::error::Error;
use smolgnet::wire::gdp::GdpAddress;

fn managed(last: u64) -> DlpManagedEndpoint {
    DlpManagedEndpoint::new(GdpAddress(0x0102_0304_0000_0000 | last), EndpointConfig::new(256), 16).unwrap()
}

#[test]
fn direct_cable_brings_two_fresh_ends_up_with_data_credit() {
    let mut a = managed(1);
    let mut b = managed(2);
    let mut cable = DlpDirectCable::new();
    assert_eq!(a.control_state(), DlpControlState::Down);
    cable.attach(&mut a, &mut b).unwrap();
    assert_eq!(a.control_state(), DlpControlState::Up);
    assert_eq!(b.control_state(), DlpControlState::Up);
    assert!(a.dlp().data_tx_credit() > 0);
    assert!(b.dlp().data_tx_credit() > 0);
}

#[test]
fn attaching_an_attached_cable_again_changes_nothing() {
    let mut a = managed(1);
    let mut b = managed(2);
    let mut cable = DlpDirectCable::new();
    cable.attach(&mut a, &mut b).unwrap();
    let credit = (a.dlp().data_tx_credit(), b.dlp().data_tx_credit());
    cable.attach(&mut a, &mut b).unwrap();
    assert_eq!((a.dlp().data_tx_credit(), b.dlp().data_tx_credit()), credit);
    assert_eq!(a.control_state(), DlpControlState::Up);
}

#[test]
fn error_names_match_their_variants() {
    assert_eq!(Error::NoRoute.name(), "NoRoute");
    assert_eq!(Error::InvalidLength.name(), "InvalidLength");
    assert_eq!(Error::WouldBlock.name(), "WouldBlock");
}

#[test]
fn direct_cable_negotiates_the_common_profile() {
    let mut ca = EndpointConfig::new(256);
    ca.vc_mode = VcMode::Four;
    let mut cb = EndpointConfig::new(128);
    cb.vc_mode = VcMode::Two;
    let mut a = DlpManagedEndpoint::new(GdpAddress(1), ca, 16).unwrap();
    let mut b = DlpManagedEndpoint::new(GdpAddress(2), cb, 64).unwrap();
    let mut cable = DlpDirectCable::new();
    cable.attach(&mut a, &mut b).unwrap();
    assert_eq!(
        a.negotiated_profile(),
        Some(DlpNegotiatedProfile {
            vc_mode: VcMode::Two,
            burst_flits: 16,
            peer_rx_buffer_flits: 128,
            peer_control_window_flits: 32,
        })
    );
    assert_eq!(
        b.negotiated_profile(),
        Some(DlpNegotiatedProfile {
            vc_mode: VcMode::Two,
            burst_flits: 16,
            peer_rx_buffer_flits: 256,
            peer_control_window_flits: 32,
        })
    );
    assert_eq!(a.dlp().data_tx_credit(), 128);
    assert_eq!(b.dlp().data_tx_credit(), 256);

    let mut c4 = EndpointConfig::new(64);
    c4.vc_mode = VcMode::Four;
    let mut c = DlpManagedEndpoint::new(GdpAddress(3), c4, 32).unwrap();
    let mut d = DlpManagedEndpoint::new(GdpAddress(4), c4, 32).unwrap();
    DlpDirectCable::new().attach(&mut c, &mut d).unwrap();
    assert_eq!(c.negotiated_profile().unwrap().vc_mode, VcMode::Four);
    assert_eq!(d.negotiated_profile().unwrap().vc_mode, VcMode::Four);
}

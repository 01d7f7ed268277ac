use smolgnet::dlp_gdp::{DlpGdpPort, GdpPacketPort};
use smolgnet::dlp_v01::{DlpLink, DlpLinkState};
use smolgnet::error::Error;
use smolgnet::link::{DlpConfig, VcMode};
use smolgnet::wire::gdp::{GdpAddress, GdpHeader, GdpPacket, GdpType, SizeClass};

fn packet(kind: GdpType, fill: u8) -> GdpPacket {
    let header = GdpHeader::global(kind, SizeClass::Ctrl32, 16, GdpAddress(1), GdpAddress(2));
    GdpPacket::new(header, vec![fill; SizeClass::Ctrl32.bytes()]).unwrap()
}

fn up_port() -> DlpGdpPort {
    let mut p = DlpGdpPort::new(DlpConfig::new(64, VcMode::Two).unwrap()).unwrap();
    p.begin_recovery().unwrap();
    p.complete_recovery().unwrap();
    p
}

#[test]
fn link_life_cycle_gates_traffic() {
    let mut link = DlpLink::new(DlpConfig::new(64, VcMode::Two).unwrap()).unwrap();
    assert_eq!(link.state(), DlpLinkState::Down);
    assert_eq!(link.queue_data_packet(&packet(GdpType::Gts, 1)), Err(Error::LinkDown));
    assert_eq!(link.complete_recovery(), Err(Error::InvalidState));
    link.begin_recovery().unwrap();
    assert_eq!(link.state(), DlpLinkState::Recovering);
    assert_eq!(link.poll_tx(), Err(Error::LinkDown));
    link.complete_recovery().unwrap();
    assert_eq!(link.state(), DlpLinkState::Up);
    assert!(link.queue_data_packet(&packet(GdpType::Gts, 1)).unwrap() > 0);
    link.reset();
    assert_eq!(link.state(), DlpLinkState::Down);
    assert_eq!(link.generation(), 1);
    assert_eq!(link.endpoint().queued_data_flits(), 0);
}

#[test]
fn port_moves_complete_packets_between_two_links() {
    let mut a = up_port();
    let mut b = up_port();
    DlpGdpPort::grant_peer_data_credit(&mut b, &mut a, 64).unwrap();
    DlpGdpPort::grant_peer_control_credit(&mut a, 64).unwrap();
    let data = packet(GdpType::Gts, 7);
    let control = packet(GdpType::Gctl, 9);
    a.transmit_gdp(data.clone()).unwrap();
    a.transmit_gdp(control.clone()).unwrap();
    while let Some(frame) = a.physical_poll_tx_frame().unwrap() {
        b.physical_receive_frame(frame).unwrap();
    }
    let first = b.poll_gdp().unwrap();
    let second = b.poll_gdp().unwrap();
    assert!(b.poll_gdp().is_none());
    assert_eq!(first, control);
    assert_eq!(second, data);
}

#[test]
fn reset_discards_packets_of_the_old_generation() {
    let mut a = up_port();
    let mut b = up_port();
    DlpGdpPort::grant_peer_control_credit(&mut a, 64).unwrap();
    a.transmit_gdp(packet(GdpType::Gctl, 3)).unwrap();
    let frame = a.physical_poll_tx_frame().unwrap().unwrap();
    b.physical_receive_frame(frame).unwrap();
    b.reset();
    assert_eq!(b.generation(), 1);
    assert_eq!(b.state(), DlpLinkState::Down);
    assert!(b.poll_gdp().is_none());
    assert_eq!(b.transmit_gdp(packet(GdpType::Gts, 1)), Err(Error::LinkDown));
}

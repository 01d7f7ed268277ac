use smolgnet::error::Error;
use smolgnet::link::{DlpConfig, DlpEndpoint, VcMode};
use smolgnet::wire::gdp::{GdpAddress, GdpHeader, GdpPacket, GdpType, SizeClass};

fn packet(kind: GdpType, fill: u8) -> GdpPacket {
    let header = GdpHeader::global(kind, SizeClass::Ctrl32, 16, GdpAddress(1), GdpAddress(2));
    GdpPacket::new(header, vec![fill; SizeClass::Ctrl32.bytes()]).unwrap()
}

#[test]
fn queued_data_packet_arrives_whole_at_the_peer() {
    let cfg = DlpConfig::new(64, VcMode::Two).unwrap();
    let mut a = DlpEndpoint::new(cfg).unwrap();
    let mut b = DlpEndpoint::new(cfg).unwrap();
    let p = packet(GdpType::Gts, 0x5a);

    let flits = a.queue_data_packet(&p).unwrap();
    assert_eq!(a.poll_tx_frame(), Err(Error::NoCredit));
    a.grant_data_tx_credit(flits as u32);
    b.note_data_credit_granted(flits as u32).unwrap();

    let frame = a.poll_tx_frame().unwrap().unwrap();
    assert_eq!(b.receive_frame(frame).unwrap(), p);
    assert!(a.poll_tx_frame().unwrap().is_none());
}

#[test]
fn queued_control_packet_arrives_whole_at_the_peer() {
    let cfg = DlpConfig::new(64, VcMode::Two).unwrap();
    let mut a = DlpEndpoint::new(cfg).unwrap();
    let mut b = DlpEndpoint::new(cfg).unwrap();
    let p = packet(GdpType::Gctl, 0x11);

    let flits = a.queue_control_packet(&p).unwrap();
    a.grant_control_tx_credit(flits as u32);
    let frame = a.poll_tx_frame().unwrap().unwrap();
    assert_eq!(b.receive_frame(frame).unwrap(), p);
}

#[test]
fn packet_sent_flit_by_flit_is_reassembled_and_its_buffer_released() {
    let cfg = DlpConfig::new(64, VcMode::Four).unwrap();
    let mut tx = DlpEndpoint::new(cfg).unwrap();
    let mut rx = DlpEndpoint::new(cfg).unwrap();
    let p = packet(GdpType::Gts, 0x3c);
    let n = tx.queue_data_packet(&p).unwrap();
    rx.note_data_credit_granted(n as u32).unwrap();
    tx.grant_data_tx_credit(n as u32);
    for i in 0..n {
        let flit = tx.poll_tx().unwrap().unwrap();
        let got = rx.receive(flit).unwrap();
        if i + 1 < n {
            assert!(got.is_none());
        } else {
            assert_eq!(got, Some(p.clone()));
        }
    }
    assert_eq!(rx.rx_buffer_in_use(), 0);
    assert_eq!(rx.data_credit_outstanding(), 0);
}

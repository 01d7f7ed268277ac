use smolgnet::error::Error;
use smolgnet::gts::GtsStream;
use smolgnet::ip_compat::{overlay_profile, GtsIpDevice, IpCompatDatagram};
use smolgnet::wire::gdp::SizeClass;
use smolgnet::wire::gts::GtsPacket;

#[test]
fn sends_ip_only_as_an_unreliable_gts_datagram() {
    let profile = overlay_profile(SizeClass::Legacy1500);
    let adapter = IpCompatDatagram::new(profile).unwrap();
    let mut sender = GtsStream::new(0, profile, true, 0, 0).unwrap();
    let packet = [0x45, 0, 0, 20, 0, 0, 0, 0, 64, 6, 0, 0, 0, 0, 0, 1, 0, 0, 0, 2];

    let frame = adapter.send(&mut sender, 9, &packet, 0).unwrap();
    assert!(matches!(frame, GtsPacket::Datagram { sequence: None, .. }));
    assert!(sender.retransmit_due(9, 10_000).is_empty());
}

#[test]
fn receiver_accepts_tcp_ip_packet_after_loss_of_an_earlier_datagram() {
    let profile = overlay_profile(SizeClass::Legacy1500);
    let adapter = IpCompatDatagram::new(profile).unwrap();
    let mut sender = GtsStream::new(0, profile, true, 0, 0).unwrap();
    let mut receiver = GtsStream::new(0, profile, false, 0, 0).unwrap();
    let lost = [0x45, 0, 0, 20, 0, 0, 0, 0, 64, 6, 0, 0, 0, 0, 0, 1, 0, 0, 0, 2];
    let delivered = [0x45, 0, 0, 20, 0, 1, 0, 0, 64, 6, 0, 0, 0, 0, 0, 1, 0, 0, 0, 2];

    let _dropped = adapter.send(&mut sender, 9, &lost, 0).unwrap();
    let frame = adapter.send(&mut sender, 9, &delivered, 1).unwrap();
    assert_eq!(receiver.receive_packet(&frame).unwrap(), None);
    assert_eq!(adapter.receive(receiver.recv().unwrap()).unwrap(), delivered);
}

#[test]
fn rejects_non_ip_and_oversize_messages() {
    let adapter = IpCompatDatagram::new(overlay_profile(SizeClass::Ctrl64)).unwrap();
    assert_eq!(adapter.validate_ip_packet(&[0; 20]), Err(Error::InvalidField));
    assert_eq!(adapter.validate_ip_packet(&[0x60; 53]), Err(Error::MessageTooLarge));
}

#[test]
fn overlay_requires_the_exact_profile_and_bounds_the_mtu() {
    let adapter = IpCompatDatagram::new(overlay_profile(SizeClass::Ctrl64)).unwrap();
    assert_eq!(adapter.max_ip_packet(), 52);
    let mut p = overlay_profile(SizeClass::Ctrl64);
    p.sequenced = true;
    assert_eq!(IpCompatDatagram::new(p), Err(Error::ProfileViolation));
    assert_eq!(adapter.validate_ip_packet(&[0x60; 40]), Ok(()));
    assert_eq!(adapter.validate_ip_packet(&[0x60; 39]), Err(Error::InvalidField));
    assert_eq!(adapter.validate_ip_packet(&[]), Err(Error::InvalidField));
}

#[test]
fn device_egress_becomes_one_unreliable_gts_datagram() {
    let adapter = IpCompatDatagram::new(overlay_profile(SizeClass::Legacy1500)).unwrap();
    let mut device = GtsIpDevice::new(adapter);
    let mut stream = GtsStream::new(0, overlay_profile(SizeClass::Legacy1500), true, 0, 0).unwrap();
    assert_eq!(device.transmit_to_gts(&adapter, &mut stream, 7, 0), Ok(None));
    device.accept_egress(vec![0x45, 0, 0, 20, 0, 0, 0, 0, 64, 6, 0, 0, 0, 0, 0, 1, 0, 0, 0, 2]);
    device.accept_egress(vec![0x45; 4000]);
    assert_eq!(device.pending_egress(), 1);
    let frame = device.transmit_to_gts(&adapter, &mut stream, 7, 0).unwrap().unwrap();
    assert!(matches!(frame, GtsPacket::Datagram { sequence: None, .. }));
    assert_eq!(device.pending_egress(), 0);
    device.receive_from_gts(&adapter, vec![0x45; 20]).unwrap();
    assert_eq!(device.receive_from_gts(&adapter, vec![1; 20]), Err(Error::InvalidField));
    assert_eq!(device.pending_ingress(), 1);
    assert_eq!(device.pop_ingress(), Some(vec![0x45; 20]));
    assert_eq!(device.pop_ingress(), None);
}

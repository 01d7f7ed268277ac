use smolgnet::gnet_udp::{
    decode, decode_received, encode, receive, send, DecodeError, Frame, ReceiveError, TrafficClass,
    TransmitError, UdpRecvError, HEADER_LEN,
};
use smoltcp::socket::udp::{PacketBuffer, PacketMetadata, SendError, Socket, UdpMetadata};
use smoltcp::wire::{IpEndpoint, Ipv4Address};

#[test]
fn preserves_a_complete_frame_and_link_metadata() {
    let frame = Frame { vcid: 2, traffic: TrafficClass::Data, payload: b"encoded GDP/GTS packet" };
    let mut encoded = [0u8; HEADER_LEN + 22];
    encode(frame, &mut encoded).unwrap();
    assert_eq!(decode(&encoded).unwrap(), frame);
}

#[test]
fn rejects_a_trailing_or_short_udp_payload() {
    let mut encoded = [0u8; HEADER_LEN + 1];
    encode(Frame { vcid: 0, traffic: TrafficClass::Control, payload: b"x" }, &mut encoded).unwrap();
    assert_eq!(decode(&encoded[..HEADER_LEN]), Err(DecodeError::LengthMismatch));
    let mut with_trailer = encoded.to_vec();
    with_trailer.push(0);
    assert_eq!(decode(&with_trailer), Err(DecodeError::LengthMismatch));
}

#[test]
fn rejects_non_gnet_udp_traffic() {
    assert_eq!(decode(b"not a GNet payload"), Err(DecodeError::BadMagic));
}

#[test]
fn encode_checks_channel_and_buffer_size() {
    let mut small = [0u8; HEADER_LEN];
    let frame = Frame { vcid: 1, traffic: TrafficClass::Data, payload: b"GTS DATA" };
    assert_eq!(encode(frame, &mut small), Err(TransmitError::DatagramTooLarge));
    let mut exact = [0u8; HEADER_LEN + 8];
    let bad = Frame { vcid: 4, traffic: TrafficClass::Data, payload: b"GTS DATA" };
    assert_eq!(encode(bad, &mut exact), Err(TransmitError::DatagramTooLarge));
    encode(frame, &mut exact).unwrap();
    assert_eq!(&exact[..HEADER_LEN], &[b'G', b'N', 1, 1, 1, 0, 0, 8]);
}

#[test]
fn decode_reports_each_header_error() {
    assert_eq!(decode(b"GN"), Err(DecodeError::Truncated));
    assert_eq!(decode(&[b'G', b'N', 2, 0, 0, 0, 0, 0]), Err(DecodeError::UnsupportedVersion));
    assert_eq!(decode(&[b'G', b'N', 1, 4, 0, 0, 0, 0]), Err(DecodeError::InvalidVirtualChannel));
    assert_eq!(decode(&[b'G', b'N', 1, 0, 0, 1, 0, 0]), Err(DecodeError::UnsupportedVersion));
    assert_eq!(decode(&[b'G', b'N', 1, 0, 2, 0, 0, 0]), Err(DecodeError::InvalidTrafficClass));
}

#[test]
fn queues_one_complete_frame_on_a_real_smoltcp_udp_socket() {
    let rx = PacketBuffer::new(vec![PacketMetadata::EMPTY], vec![0; 64]);
    let tx = PacketBuffer::new(vec![PacketMetadata::EMPTY], vec![0; 64]);
    let mut socket = Socket::new(rx, tx);
    socket.bind(4_000).unwrap();

    send(
        &mut socket,
        Frame { vcid: 1, traffic: TrafficClass::Data, payload: b"GTS DATA" },
        IpEndpoint::new(Ipv4Address::new(192, 0, 2, 1).into(), 4_001).into(),
    )
    .unwrap();

    assert_eq!(socket.send_queue(), HEADER_LEN + b"GTS DATA".len());
}

#[test]
fn unbound_socket_and_bad_channel_are_reported() {
    let rx = PacketBuffer::new(vec![PacketMetadata::EMPTY], vec![0; 64]);
    let tx = PacketBuffer::new(vec![PacketMetadata::EMPTY], vec![0; 64]);
    let mut socket = Socket::new(rx, tx);
    let peer = IpEndpoint::new(Ipv4Address::new(192, 0, 2, 1).into(), 4_001);
    let frame = Frame { vcid: 1, traffic: TrafficClass::Data, payload: b"x" };
    assert_eq!(
        send(&mut socket, frame, peer.into()),
        Err(TransmitError::Udp(SendError::Unaddressable))
    );
    socket.bind(4_000).unwrap();
    let bad = Frame { vcid: 4, traffic: TrafficClass::Data, payload: b"x" };
    assert_eq!(send(&mut socket, bad, peer.into()), Err(TransmitError::DatagramTooLarge));
    assert!(matches!(receive(&mut socket), Ok(None)));
}

#[test]
fn received_datagrams_are_decoded_or_reported() {
    let meta: UdpMetadata = IpEndpoint::new(Ipv4Address::new(192, 0, 2, 1).into(), 9).into();
    let mut datagram = [0u8; HEADER_LEN + 3];
    encode(Frame { vcid: 3, traffic: TrafficClass::Control, payload: b"abc" }, &mut datagram).unwrap();
    let (frame, m) = decode_received(Ok((&datagram[..], meta))).unwrap().unwrap();
    assert_eq!(frame, Frame { vcid: 3, traffic: TrafficClass::Control, payload: b"abc" });
    assert_eq!(m, meta);
    assert_eq!(
        decode_received(Ok((&b"nope"[..], meta))).err(),
        Some(ReceiveError::Decode(DecodeError::Truncated))
    );
    assert!(matches!(decode_received(Err(UdpRecvError::Exhausted)), Ok(None)));
    assert_eq!(
        decode_received(Err(UdpRecvError::Truncated)).err(),
        Some(ReceiveError::Udp(UdpRecvError::Truncated))
    );
}

use smolgnet::error::Error;
use smolgnet::gts::{GtsStream, GtsTunnel, ReliableRx, ReliableTx, StreamState, TunnelState};
use smolgnet::wire::css::ServiceSelector;
use smolgnet::wire::gdp::SizeClass;
use smolgnet::wire::gts::{Direction, GtsPacket, StreamProfile};

#[test]
fn native_gts_reorders_and_acknowledges_without_transport() {
    let profile = StreamProfile::reliable_variable(SizeClass::Ctrl64, Direction::Bidirectional);
    let mut sender = GtsStream::new(0, profile, true, 2, 2).unwrap();
    let mut receiver = GtsStream::new(0, profile, false, 2, 2).unwrap();
    let first = sender.send_packet(7, b"first".to_vec(), false, 0).unwrap();
    let second = sender.send_packet(7, b"second".to_vec(), false, 1).unwrap();
    let mut ack = None;
    for incoming in [second, first] {
        ack = receiver.receive_packet(&incoming).unwrap().or(ack);
    }
    let ack = ack.expect("in-order delivery creates a GTS acknowledgement");
    match ack {
        GtsPacket::Ack { ack_base, receive_bitmap, receive_credit, .. } => {
            assert_eq!(ack_base, 1);
            sender.on_ack(ack_base, receive_bitmap, receive_credit).unwrap()
        }
        _ => panic!("expected an acknowledgement"),
    }
    assert_eq!(receiver.recv(), Some(b"first".to_vec()));
    assert_eq!(receiver.recv(), Some(b"second".to_vec()));
    assert_eq!(receiver.recv(), None);
    assert!(sender.retransmit_due(7, 500).is_empty());
}

#[test]
fn unacknowledged_data_is_retransmitted_after_the_timeout() {
    let profile = StreamProfile::reliable_variable(SizeClass::Ctrl64, Direction::Bidirectional);
    let mut sender = GtsStream::new(3, profile, true, 2, 2).unwrap();
    sender.send_packet(9, b"hello".to_vec(), true, 100).unwrap();
    assert!(sender.retransmit_due(9, 599).is_empty());
    let again = sender.retransmit_due(9, 600);
    assert_eq!(again.len(), 1);
    match &again[0] {
        GtsPacket::Data { tunnel_id, stream_id, sequence, data, end } => {
            assert_eq!((*tunnel_id, *stream_id, *sequence, *end), (9, 3, 0, true));
            assert_eq!(data.as_slice(), b"hello");
        }
        _ => panic!("expected a data packet"),
    }
    assert!(sender.retransmit_due(9, 1099).is_empty());
}

#[test]
fn reliable_tx_spends_credit_and_ack_frees_it() {
    let mut tx = ReliableTx::new(1);
    assert_eq!(tx.queue(vec![1], false, 0), Ok(0));
    assert_eq!(tx.queue(vec![2], false, 0), Err(Error::WouldBlock));
    assert_eq!(tx.outstanding(), 1);
    tx.on_ack(0, 0, 3);
    assert_eq!(tx.outstanding(), 0);
    assert_eq!(tx.peer_credit(), 3);
    assert_eq!(tx.queue(vec![2], false, 0), Ok(1));
}

#[test]
fn selective_ack_bitmap_frees_only_marked_segments() {
    let mut tx = ReliableTx::new(4);
    for _ in 0..4 {
        tx.queue(vec![0], false, 0).unwrap();
    }
    // Base 0 acknowledges sequence 0; bit 1 acknowledges sequence 2.
    tx.on_ack(0, 0b10, 4);
    assert_eq!(tx.outstanding(), 2);
    let due = tx.due(500);
    let seqs: Vec<u32> = due.iter().map(|d| d.0).collect();
    assert_eq!(seqs, vec![1, 3]);
}

#[test]
fn reliable_rx_window_limits() {
    let mut rx = ReliableRx::new(2);
    assert_eq!(rx.ack(), None);
    assert_eq!(rx.receive(40, vec![1]), Err(Error::BufferFull));
    assert_eq!(rx.receive(2, vec![3]), Ok(false));
    assert_eq!(rx.receive(0, vec![1]), Ok(true));
    assert_eq!(rx.credit(), 0);
    assert_eq!(rx.receive(1, vec![2]), Err(Error::BufferFull));
    let (base, bitmap, credit) = rx.ack().unwrap();
    assert_eq!((base, bitmap, credit), (0, 0b10, 0));
    assert_eq!(rx.recv(), Some(vec![1]));
    assert_eq!(rx.receive(1, vec![2]), Ok(true));
    assert_eq!(rx.recv(), Some(vec![2]));
    assert_eq!(rx.recv(), Some(vec![3]));
    assert_eq!(rx.recv(), None);
    assert_eq!(rx.receive(0, vec![9]), Ok(false));
}

#[test]
fn sequenced_datagrams_drop_stale_arrivals() {
    let profile = StreamProfile {
        unreliable: true,
        variable: true,
        sequenced: true,
        unchecked_payload: false,
        direction: Direction::Bidirectional,
        size_class: SizeClass::Ctrl64,
    };
    let mut a = GtsStream::new(1, profile, true, 0, 0).unwrap();
    let mut b = GtsStream::new(1, profile, false, 0, 0).unwrap();
    let p0 = a.send_packet(5, b"zero".to_vec(), false, 0).unwrap();
    let p1 = a.send_packet(5, b"one".to_vec(), false, 0).unwrap();
    assert!(matches!(a.send_packet(5, b"x".to_vec(), true, 0), Err(Error::ProfileViolation)));
    assert_eq!(b.receive_packet(&p1).unwrap(), None);
    assert_eq!(b.receive_packet(&p0).unwrap(), None);
    assert_eq!(b.recv(), Some(b"one".to_vec()));
    assert_eq!(b.recv(), None);
    assert_eq!(a.peer_credit(), None);
}

#[test]
fn direction_and_profile_are_enforced() {
    let one_way = StreamProfile::reliable_variable(SizeClass::Ctrl64, Direction::OpenerToPeer);
    let mut peer = GtsStream::new(0, one_way, false, 1, 1).unwrap();
    assert!(matches!(peer.send_packet(1, vec![1], false, 0), Err(Error::DirectionViolation)));
    let bad = StreamProfile { sequenced: true, ..one_way };
    assert!(matches!(GtsStream::new(0, bad, true, 1, 1), Err(Error::ProfileViolation)));
    let mut opener = GtsStream::new(0, one_way, true, 1, 1).unwrap();
    opener.mark_opening();
    assert!(matches!(opener.send_packet(1, vec![1], false, 0), Err(Error::InvalidState)));
    opener.apply_open_ack(5).unwrap();
    assert_eq!(opener.state, StreamState::Open);
    assert_eq!(opener.peer_credit(), Some(5));
    assert!(matches!(opener.apply_open_ack(5), Err(Error::InvalidState)));
}

#[test]
fn tunnel_lifecycle_and_stream_ids() {
    let profile = StreamProfile::reliable_variable(SizeClass::Ctrl64, Direction::Bidirectional);
    let mut t = GtsTunnel::initiator(10, 11, ServiceSelector([2; 16]), profile, 4).unwrap();
    assert_eq!(t.state, TunnelState::Connecting);
    assert!(matches!(t.remote_id(), Err(Error::InvalidState)));
    assert!(matches!(t.alloc_stream_id(), Err(Error::InvalidState)));
    t.establish_initiator(20, 21, 6).unwrap();
    assert_eq!(t.remote_id(), Ok(20));
    assert_eq!(t.stream_mut(0).unwrap().peer_credit(), Some(6));
    assert!(matches!(t.establish_initiator(20, 21, 6), Err(Error::InvalidState)));
    assert_eq!(t.alloc_stream_id(), Ok(2));
    assert_eq!(t.alloc_stream_id(), Ok(4));
    t.add_stream(2, profile, true, 1, 1).unwrap();
    assert!(matches!(t.add_stream(2, profile, true, 1, 1), Err(Error::InvalidState)));
    assert!(matches!(t.stream_mut(9), Err(Error::UnknownStream)));
    let r = GtsTunnel::responder(1, 2, 3, 4, ServiceSelector([0; 16]), profile, 1, 1).unwrap();
    assert_eq!(r.state, TunnelState::Established);
    assert_eq!(r.streams.len(), 1);
}

fn wire_context(size_class: smolgnet::wire::gdp::SizeClass) -> smolgnet::wire::gts::GtsContext {
    smolgnet::wire::gts::GtsContext {
        gdp_version: 0,
        size_class,
        source: smolgnet::wire::gdp::GdpAddress(0x100),
        destination: smolgnet::wire::gdp::GdpAddress(0x200),
    }
}

#[test]
fn gts_packets_read_back_what_was_written() {
    let ctx = wire_context(SizeClass::Ctrl64);
    let reliable = StreamProfile::reliable_variable(SizeClass::Ctrl64, Direction::Bidirectional);
    let datagrams = StreamProfile::unreliable_variable(SizeClass::Ctrl64, Direction::Bidirectional, true, true);
    let packets = vec![
        (GtsPacket::Connect {
            initiator_receive_tunnel: 7,
            initiator_reset_id: 9,
            profile: reliable,
            initial_receive_credit: 4,
            css: ServiceSelector::registered(1).unwrap(),
        }, None),
        (GtsPacket::Ack { tunnel_id: 3, stream_id: 2, ack_base: 40, receive_bitmap: 0b101, receive_credit: 6 }, None),
        (GtsPacket::Data { tunnel_id: 3, stream_id: 2, sequence: 41, data: b"payload".to_vec(), end: true }, Some(reliable)),
        (GtsPacket::Datagram { tunnel_id: 3, stream_id: 1, sequence: Some(5), data: b"dg".to_vec() }, Some(datagrams)),
        (GtsPacket::StreamReset { tunnel_id: 3, stream_id: 1, reason: 2, ack: true }, None),
        (GtsPacket::Reset { tunnel_id: 3, reset_id: 77, reason: 1 }, None),
        (GtsPacket::TunnelClose { tunnel_id: 3, ack: false }, None),
    ];
    for (packet, profile) in packets {
        let bytes = packet.encode(ctx, profile).unwrap();
        assert_eq!(bytes.len(), SizeClass::Ctrl64.bytes());
        assert_eq!(GtsPacket::decode(&bytes, ctx, profile).unwrap(), packet);
    }
}

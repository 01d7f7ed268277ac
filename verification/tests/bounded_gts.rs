use smolgnet::bounded_gts::{
    AckState, BoundedGtsSocket, BoundedStreamSlot, RxMeta, StreamState, TunnelRole, TunnelState, TxMeta,
};
use smolgnet::error::Error;
use smolgnet::storage::MessageSlot;
use smolgnet::wire::css::ServiceSelector;
use smolgnet::wire::gdp::SizeClass;
use smolgnet::wire::gts::{Direction, StreamProfile};

fn socket(streams: usize, slots: usize, bytes: usize) -> BoundedGtsSocket {
    BoundedGtsSocket::new(
        TunnelRole::Initiator,
        1,
        2,
        ServiceSelector([1; 16]),
        vec![BoundedStreamSlot::empty(); streams],
        vec![MessageSlot::<TxMeta>::empty(); slots],
        vec![0u8; bytes],
        vec![MessageSlot::<RxMeta>::empty(); slots],
        vec![0u8; bytes],
    )
    .unwrap()
}

#[test]
fn reliable_window_reorders_acks_and_reuses_credit_without_alloc() {
    let mut s = socket(2, 4, 512);
    s.establish(10, 11).unwrap();
    let p = StreamProfile::reliable_variable(SizeClass::Msg128, Direction::Bidirectional);
    s.add_stream(0, p, true, 4, 4).unwrap();

    let a = s.receive(0, Some(1), b"second", false).unwrap().unwrap();
    assert_eq!(a.ack_base, u32::MAX);
    assert_eq!(a.receive_bitmap & 0b10, 0b10);
    let b = s.receive(0, Some(0), b"first", false).unwrap().unwrap();
    assert_eq!(b.ack_base, 1);

    let mut out = [0u8; 32];
    let m1 = s.recv_into(0, &mut out).unwrap().unwrap();
    assert_eq!(&out[..m1.len], b"first");
    let m2 = s.recv_into(0, &mut out).unwrap().unwrap();
    assert_eq!(&out[..m2.len], b"second");
    assert_eq!(s.ack_state(0).unwrap().unwrap().receive_credit, 4);
}

#[test]
fn reliable_tx_retransmits_and_ack_frees_caller_storage() {
    let mut s = socket(2, 2, 256);
    s.establish(10, 11).unwrap();
    let p = StreamProfile::reliable_variable(SizeClass::Msg128, Direction::Bidirectional);
    s.add_stream(0, p, true, 2, 2).unwrap();
    assert_eq!(s.send(0, b"hello", false, 0).unwrap().sequence, Some(0));
    let r = s.retransmit_due(500).unwrap().unwrap();
    assert_eq!(r.sequence, 0);
    assert_eq!(r.data, b"hello");
    s.on_ack(0, AckState { ack_base: 0, receive_bitmap: 0, receive_credit: 2 }).unwrap();
    assert!(s.retransmit_due(1000).unwrap().is_none());
}

#[test]
fn reset_discards_all_bounded_state() {
    let mut s = socket(2, 2, 256);
    s.establish(10, 11).unwrap();
    let p = StreamProfile::reliable_variable(SizeClass::Msg128, Direction::Bidirectional);
    s.add_stream(0, p, true, 2, 2).unwrap();
    s.send(0, b"hello", false, 0).unwrap();
    s.receive(0, Some(0), b"world", false).unwrap();
    s.reset();
    assert_eq!(s.state, TunnelState::Reset);
    assert_eq!(s.stream_state(0).unwrap(), StreamState::Reset);
    assert!(s.retransmit_due(1000).unwrap().is_none());
}

#[test]
fn new_socket_rejects_missing_storage() {
    let r = BoundedGtsSocket::new(
        TunnelRole::Responder,
        1,
        2,
        ServiceSelector([0; 16]),
        Vec::new(),
        vec![MessageSlot::<TxMeta>::empty(); 1],
        vec![0u8; 16],
        vec![MessageSlot::<RxMeta>::empty(); 1],
        vec![0u8; 16],
    );
    assert!(matches!(r, Err(Error::InvalidLength)));
}

#[test]
fn send_spends_credit_and_blocks_without_it() {
    let mut s = socket(2, 4, 512);
    s.establish(10, 11).unwrap();
    let p = StreamProfile::reliable_variable(SizeClass::Msg128, Direction::Bidirectional);
    s.add_stream(0, p, true, 2, 1).unwrap();
    assert_eq!(s.peer_credit(0).unwrap(), 1);
    assert_eq!(s.send(0, b"one", false, 0).unwrap().sequence, Some(0));
    assert_eq!(s.peer_credit(0).unwrap(), 0);
    assert!(matches!(s.send(0, b"two", false, 0), Err(Error::WouldBlock)));
    assert!(matches!(s.send(7, b"two", false, 0), Err(Error::UnknownStream)));
}

#[test]
fn duplicate_and_far_segments_are_handled() {
    let mut s = socket(2, 4, 512);
    s.establish(10, 11).unwrap();
    let p = StreamProfile::reliable_variable(SizeClass::Msg128, Direction::Bidirectional);
    s.add_stream(0, p, true, 4, 4).unwrap();
    assert!(matches!(s.receive(0, Some(40), b"far", false), Err(Error::BufferFull)));
    let a = s.receive(0, Some(0), b"a", false).unwrap().unwrap();
    assert_eq!(a.ack_base, 0);
    let again = s.receive(0, Some(0), b"a", false).unwrap().unwrap();
    assert_eq!(again, a);
    assert!(matches!(s.receive(0, None, b"a", false), Err(Error::ProfileViolation)));
}

#[test]
fn stream_ids_alternate_by_role() {
    let mut s = socket(1, 1, 64);
    assert!(matches!(s.alloc_stream_id(), Err(Error::InvalidState)));
    s.establish(3, 4).unwrap();
    assert_eq!(s.alloc_stream_id().unwrap(), 2);
    assert_eq!(s.alloc_stream_id().unwrap(), 4);
    let p = StreamProfile::reliable_variable(SizeClass::Msg128, Direction::Bidirectional);
    s.add_stream(2, p, true, 1, 1).unwrap();
    assert!(matches!(s.add_stream(4, p, true, 1, 1), Err(Error::BufferFull)));
    assert!(matches!(s.add_stream(2, p, true, 1, 1), Err(Error::InvalidState)));
}

#[test]
fn reset_stream_discards_only_that_stream() {
    let mut s = socket(2, 4, 512);
    s.establish(10, 11).unwrap();
    let p = StreamProfile::reliable_variable(SizeClass::Msg128, Direction::Bidirectional);
    s.add_stream(0, p, true, 2, 2).unwrap();
    s.add_stream(2, p, true, 2, 2).unwrap();
    s.send(0, b"zero", false, 0).unwrap();
    s.send(2, b"two", false, 0).unwrap();
    s.reset_stream(0).unwrap();
    assert_eq!(s.stream_state(0).unwrap(), StreamState::Reset);
    let r = s.retransmit_due(500).unwrap().unwrap();
    assert_eq!(r.stream_id, 2);
    assert_eq!(r.data, b"two");
}

#[test]
fn selective_ack_before_any_in_order_arrival_keeps_the_missing_message() {
    let mut s = socket(2, 4, 256);
    s.establish(10, 11).unwrap();
    let p = StreamProfile::reliable_variable(SizeClass::Msg128, Direction::Bidirectional);
    s.add_stream(0, p, true, 4, 4).unwrap();
    assert_eq!(s.send(0, b"a", false, 0).unwrap().sequence, Some(0));
    assert_eq!(s.send(0, b"b", false, 0).unwrap().sequence, Some(1));
    s.on_ack(0, AckState { ack_base: u32::MAX, receive_bitmap: 0b10, receive_credit: 1 }).unwrap();
    let r = s.retransmit_due(500).unwrap().unwrap();
    assert_eq!(r.sequence, 0);
    assert_eq!(r.data, b"a");
    assert!(s.retransmit_due(500).unwrap().is_none());
}

#[test]
fn initiator_stream_ids_run_through_the_even_ids_then_run_out() {
    let mut s = socket(1, 1, 64);
    s.establish(10, 11).unwrap();
    for k in 1..=126u32 {
        assert_eq!(s.alloc_stream_id().unwrap() as u32, 2 * k);
    }
    assert!(matches!(s.alloc_stream_id(), Err(Error::BufferFull)));
    assert!(matches!(s.alloc_stream_id(), Err(Error::BufferFull)));
}

#[test]
fn send_sequences_count_only_successful_sends() {
    let mut s = socket(2, 4, 256);
    s.establish(10, 11).unwrap();
    let p = StreamProfile::reliable_variable(SizeClass::Msg128, Direction::Bidirectional);
    s.add_stream(0, p, true, 4, 2).unwrap();
    assert_eq!(s.send(0, b"a", false, 0).unwrap().sequence, Some(0));
    assert_eq!(s.send(0, b"b", false, 0).unwrap().sequence, Some(1));
    assert_eq!(s.peer_credit(0).unwrap(), 0);
    assert!(matches!(s.send(0, b"c", false, 0), Err(Error::WouldBlock)));
    s.on_ack(0, AckState { ack_base: 1, receive_bitmap: 0, receive_credit: 2 }).unwrap();
    assert_eq!(s.send(0, b"c", false, 0).unwrap().sequence, Some(2));
    assert_eq!(s.peer_credit(0).unwrap(), 1);
}

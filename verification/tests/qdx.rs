use smolgnet::error::Error;
use smolgnet::link::{GnetFrame, LinkTraffic, Vcid};
use smolgnet::qdx::{VirtualNicShared, VirtualNicSide};

fn frame(fill: u8, len: usize) -> GnetFrame {
    GnetFrame {
        vcid: Vcid::vc1(),
        traffic: LinkTraffic::Data,
        bytes: vec![fill; len],
    }
}

#[test]
fn frames_cross_the_wire_in_order_and_per_direction() {
    let mut wire = VirtualNicShared::new(4).unwrap();
    assert_eq!(wire.capacity_frames(), 4);
    assert!(wire.link_up());
    wire.transmit_frame(VirtualNicSide::A, frame(1, 8)).unwrap();
    wire.transmit_frame(VirtualNicSide::A, frame(2, 8)).unwrap();
    wire.transmit_frame(VirtualNicSide::B, frame(9, 4)).unwrap();
    assert_eq!(wire.pending_rx_frames(VirtualNicSide::B), 2);
    assert_eq!(wire.pending_rx_frames(VirtualNicSide::A), 1);
    assert_eq!(wire.receive_frame(VirtualNicSide::B).unwrap(), Some(frame(1, 8)));
    assert_eq!(wire.receive_frame(VirtualNicSide::B).unwrap(), Some(frame(2, 8)));
    assert_eq!(wire.receive_frame(VirtualNicSide::B).unwrap(), None);
    assert_eq!(wire.receive_frame(VirtualNicSide::A).unwrap(), Some(frame(9, 4)));
}

#[test]
fn full_queue_and_down_link_refuse_frames() {
    assert_eq!(VirtualNicShared::new(0).err(), Some(Error::InvalidField));
    let mut wire = VirtualNicShared::new(1).unwrap();
    wire.transmit_frame(VirtualNicSide::B, frame(1, 4)).unwrap();
    assert_eq!(wire.transmit_frame(VirtualNicSide::B, frame(2, 4)), Err(Error::BufferFull));
    wire.set_link_up(false);
    assert!(!wire.link_up());
    assert_eq!(wire.transmit_frame(VirtualNicSide::A, frame(3, 4)), Err(Error::LinkDown));
    assert_eq!(wire.receive_frame(VirtualNicSide::A), Err(Error::LinkDown));
    wire.set_link_up(true);
    assert_eq!(wire.pending_rx_frames(VirtualNicSide::A), 1);
    assert_eq!(wire.receive_frame(VirtualNicSide::A).unwrap(), Some(frame(1, 4)));
}

use smolgnet::error::Error;
use smolgnet::host_tap::{decode_tap_frame, encode_tap_frame, TapAddressing};
use smolgnet::link::{GnetFrame, LinkTraffic, Vcid};

#[test]
fn tap_codec_roundtrips_qdx_metadata_and_bytes() {
    let addresses = TapAddressing::new([2, 0, 0, 0, 0, 1], [2, 0, 0, 0, 0, 2]);
    let peer_view = TapAddressing::new(addresses.peer_mac, addresses.local_mac);
    let frame = GnetFrame { vcid: Vcid::vc2(), traffic: LinkTraffic::Data, bytes: vec![1, 2, 3, 4, 5] };
    let encoded = encode_tap_frame(&frame, addresses);
    assert_eq!(decode_tap_frame(&encoded, peer_view).unwrap(), frame);
}

#[test]
fn tap_decode_rejects_foreign_and_inconsistent_frames() {
    let a = TapAddressing::new([2, 0, 0, 0, 0, 1], [2, 0, 0, 0, 0, 2]);
    let frame = GnetFrame { vcid: Vcid::control(), traffic: LinkTraffic::Control, bytes: vec![9] };
    let encoded = encode_tap_frame(&frame, a);
    assert_eq!(decode_tap_frame(&encoded, a), Err(Error::InvalidField));
    assert_eq!(decode_tap_frame(&encoded[..10], a), Err(Error::InvalidLength));
    let mut broadcast = encoded.clone();
    broadcast[..6].copy_from_slice(&[0xff; 6]);
    assert_eq!(decode_tap_frame(&broadcast, a).unwrap(), frame);
    let mut mixed = broadcast.clone();
    mixed[16] = 1;
    assert_eq!(decode_tap_frame(&mixed, a), Err(Error::InvalidField));
}

use smolgnet::dlp_v01::DlpLink;
use smolgnet::egress_scheduler::{EgressFlowId, RouterEgressScheduler};
use smolgnet::error::Error;
use smolgnet::link::{DlpConfig, VcMode};
use smolgnet::wire::gdp::{GdpAddress, GdpHeader, GdpPacket, GdpType, SizeClass};

fn packet(fill: u8) -> GdpPacket {
    let header = GdpHeader::global(GdpType::Gts, SizeClass::Ctrl32, 16, GdpAddress(1), GdpAddress(2));
    GdpPacket::new(header, vec![fill; SizeClass::Ctrl32.bytes()]).unwrap()
}

fn up_link(mode: VcMode) -> DlpLink {
    let mut link = DlpLink::new(DlpConfig::new(64, mode).unwrap()).unwrap();
    link.begin_recovery().unwrap();
    link.complete_recovery().unwrap();
    link
}

#[test]
fn busy_flow_shares_the_round_with_a_light_one() {
    let a = EgressFlowId::new(GdpAddress(1), GdpAddress(2), 0);
    let b = EgressFlowId::new(GdpAddress(1), GdpAddress(3), 0);
    let mut s = RouterEgressScheduler::new();
    s.enqueue(a, packet(1));
    s.enqueue(a, packet(2));
    s.enqueue(a, packet(3));
    s.enqueue(b, packet(9));
    assert_eq!(s.flow_count(), 2);
    assert_eq!(s.queued_packets(), 4);
    let mut link = up_link(VcMode::Four);
    assert_eq!(s.schedule_round(&mut link), Ok(3));
    assert_eq!(s.queued_packets(), 1);
    assert_eq!(s.flow_count(), 1);
    assert_eq!(s.schedule_round(&mut link), Err(Error::InvalidState));
    let mut fills = Vec::new();
    let mut other = up_link(VcMode::Four);
    DlpLink::grant_peer_data_credit(&mut other, &mut link, 64).unwrap();
    while let Some(frame) = link.poll_tx_frame().unwrap() {
        fills.push(other.receive_frame(frame).unwrap().payload[0]);
    }
    assert_eq!(fills, vec![1, 9, 2]);
    assert_eq!(s.schedule_round(&mut link), Ok(1));
    assert_eq!(s.queued_packets(), 0);
    assert_eq!(s.flow_count(), 0);
}

#[test]
fn two_vc_mode_admits_one_packet_per_round() {
    let a = EgressFlowId::new(GdpAddress(1), GdpAddress(2), 7);
    let mut s = RouterEgressScheduler::new();
    s.enqueue(a, packet(1));
    s.enqueue(a, packet(2));
    let mut link = up_link(VcMode::Two);
    assert_eq!(s.schedule_round(&mut link), Ok(1));
    assert_eq!(s.queued_packets(), 1);
    let mut empty = RouterEgressScheduler::new();
    let mut fresh = up_link(VcMode::Two);
    assert_eq!(empty.schedule_round(&mut fresh), Ok(0));
}

#[test]
fn a_refused_packet_is_lost_and_its_flow_leaves_the_ready_list() {
    let a = EgressFlowId::new(GdpAddress(1), GdpAddress(2), 0);
    let mut s = RouterEgressScheduler::new();
    s.enqueue(a, packet(1));
    let mut down = DlpLink::new(DlpConfig::new(64, VcMode::Four).unwrap()).unwrap();
    assert_eq!(s.schedule_round(&mut down), Err(Error::LinkDown));
    assert_eq!(s.queued_packets(), 1);
    assert_eq!(s.flow_count(), 1);
    let mut up = up_link(VcMode::Four);
    assert_eq!(s.schedule_round(&mut up), Ok(0));
}

//! IP/TCP/UDP compatibility transport over an unreliable GTS stream.
//!
//! This module stops at the GTS message boundary: it checks whole IP packets
//! and carries each as one GTS DATAGRAM. TCP above it must observe loss and
//! reordering.

use vstd::prelude::*;

use std::collections::VecDeque;

use crate::error::{Error, Result};
use crate::gts::{GtsStream, payload_seq, sent_on_stream};
use crate::wire::bytes::copy_range;
use crate::wire::gdp::SizeClass;
use crate::wire::gts::{Direction, GtsPacket, StreamProfile};

verus! {

/// Unreliable GTS DATAGRAM overhead for an unsequenced variable stream.
const GTS_DATAGRAM_OVERHEAD: usize = 12;

/// The exact stream profile of the overlay: unreliable, variable,
/// unsequenced, checked, bidirectional.
pub open spec fn spec_overlay_profile(max_size_class: SizeClass) -> StreamProfile {
    StreamProfile {
        unreliable: true,
        variable: true,
        sequenced: false,
        unchecked_payload: false,
        direction: Direction::Bidirectional,
        size_class: max_size_class,
    }
}

/// GTS profile required by the IP compatibility overlay.
pub fn overlay_profile(max_size_class: SizeClass) -> (r: StreamProfile)
    ensures
        r == spec_overlay_profile(max_size_class),
{
    StreamProfile::unreliable_variable(max_size_class, Direction::Bidirectional, false, false)
}

/// Whether `packet` is a complete IPv4 (version 4, at least 20 bytes) or
/// IPv6 (version 6, at least 40 bytes) packet within `max` bytes.
pub open spec fn ip_packet_check(max: nat, packet: Seq<u8>) -> Result<()> {
    if packet.len() > max {
        Err(Error::MessageTooLarge)
    } else if packet.len() > 0 && packet[0] >> 4 == 4 && packet.len() >= 20 {
        Ok(())
    } else if packet.len() > 0 && packet[0] >> 4 == 6 && packet.len() >= 40 {
        Ok(())
    } else {
        Err(Error::InvalidField)
    }
}

/// Checks and emits complete IPv4 or IPv6 packets for the compatibility
/// overlay. It owns no transport state.
#[derive(Debug, Clone, Copy, PartialEq, Eq)]
pub struct IpCompatDatagram {
    max_ip_packet: usize,
}

impl IpCompatDatagram {
    /// Largest IP packet one DATAGRAM of the negotiated size class carries.
    pub closed spec fn spec_max_ip_packet(&self) -> nat {
        self.max_ip_packet as nat
    }

    /// The adapter for the exact overlay stream profile.
    pub fn new(profile: StreamProfile) -> (r: Result<Self>)
        ensures
            profile != spec_overlay_profile(profile.size_class) ==> r == Err::<Self, Error>(
                Error::ProfileViolation,
            ),
            profile == spec_overlay_profile(profile.size_class) && profile.size_class.spec_bytes() < 12
                ==> r == Err::<Self, Error>(Error::InvalidSizeClass),
            profile == spec_overlay_profile(profile.size_class) && profile.size_class.spec_bytes() >= 12
                ==> (r matches Ok(a) && a.spec_max_ip_packet() == profile.size_class.spec_bytes() - 12),
    {
        if profile != overlay_profile(profile.size_class) {
            return Err(Error::ProfileViolation);
        }
        let bytes = profile.size_class.bytes();
        if bytes < GTS_DATAGRAM_OVERHEAD {
            return Err(Error::InvalidSizeClass);
        }
        Ok(IpCompatDatagram { max_ip_packet: bytes - GTS_DATAGRAM_OVERHEAD })
    }

    pub fn max_ip_packet(&self) -> (r: usize)
        ensures
            r == self.spec_max_ip_packet(),
    {
        self.max_ip_packet
    }

    /// Checks that `packet` is a complete IP packet that fits the negotiated
    /// GTS size class. Deeper IP validation belongs to the IP stack.
    pub fn validate_ip_packet(&self, packet: &[u8]) -> (r: Result<()>)
        ensures
            r == ip_packet_check(self.spec_max_ip_packet(), packet@),
    {
        if packet.len() > self.max_ip_packet {
            return Err(Error::MessageTooLarge);
        }
        if packet.len() == 0 {
            return Err(Error::InvalidField);
        }
        let version = packet[0] >> 4;
        if version == 4 && packet.len() >= 20 {
            Ok(())
        } else if version == 6 && packet.len() >= 40 {
            Ok(())
        } else {
            Err(Error::InvalidField)
        }
    }

    /// Emits one complete IP packet as one unreliable GTS DATAGRAM.
    pub fn send(&self, stream: &mut GtsStream, remote_tunnel_id: u32, packet: &[u8], now: u64) -> (r: Result<
        GtsPacket,
    >)
        requires
            old(stream).wf(),
        ensures
            final(stream).wf(),
            ip_packet_check(self.spec_max_ip_packet(), packet@) is Err ==> r == Err::<GtsPacket, Error>(
                ip_packet_check(self.spec_max_ip_packet(), packet@)->Err_0,
            ) && final(stream)@ == old(stream)@,
            ip_packet_check(self.spec_max_ip_packet(), packet@) is Ok ==> sent_on_stream(
                old(stream)@,
                final(stream)@,
                remote_tunnel_id,
                packet@,
                false,
                now,
                r,
            ),
    {
        if let Err(e) = self.validate_ip_packet(packet) {
            return Err(e);
        }
        let data = copy_range(packet, 0, packet.len());
        assert(data@ =~= packet@);
        stream.send_packet(remote_tunnel_id, data, false, now)
    }

    /// Checks a message taken from the overlay stream before it goes to the
    /// IP stack.
    pub fn receive(&self, packet: Vec<u8>) -> (r: Result<Vec<u8>>)
        ensures
            ip_packet_check(self.spec_max_ip_packet(), packet@) is Err ==> r == Err::<Vec<u8>, Error>(
                ip_packet_check(self.spec_max_ip_packet(), packet@)->Err_0,
            ),
            ip_packet_check(self.spec_max_ip_packet(), packet@) is Ok ==> (r matches Ok(p) && p@ == packet@),
    {
        if let Err(e) = self.validate_ip_packet(packet.as_slice()) {
            return Err(e);
        }
        Ok(packet)
    }
}

/// The packet queues between an IP stack working on whole packets and the
/// overlay stream.
#[derive(Debug)]
pub struct GtsIpDevice {
    ingress: VecDeque<Vec<u8>>,
    egress: VecDeque<Vec<u8>>,
    mtu: usize,
}

/// Queued packets as plain values.
pub struct GtsIpDeviceView {
    /// Packets from the overlay waiting for the IP stack.
    pub ingress: Seq<Seq<u8>>,
    /// Packets from the IP stack waiting for the overlay.
    pub egress: Seq<Seq<u8>>,
    pub mtu: usize,
}

impl View for GtsIpDevice {
    type V = GtsIpDeviceView;

    closed spec fn view(&self) -> GtsIpDeviceView {
        GtsIpDeviceView {
            ingress: payload_seq(self.ingress@),
            egress: payload_seq(self.egress@),
            mtu: self.mtu,
        }
    }
}

impl GtsIpDevice {
    /// Empty queues; the MTU is the adapter's largest IP packet.
    pub fn new(adapter: IpCompatDatagram) -> (r: Self)
        ensures
            r@ == (GtsIpDeviceView {
                ingress: Seq::empty(),
                egress: Seq::empty(),
                mtu: adapter.spec_max_ip_packet() as usize,
            }),
    {
        let r = GtsIpDevice { ingress: VecDeque::new(), egress: VecDeque::new(), mtu: adapter.max_ip_packet() };
        assert(r@.ingress =~= Seq::<Seq<u8>>::empty());
        assert(r@.egress =~= Seq::<Seq<u8>>::empty());
        r
    }

    pub fn mtu(&self) -> (r: usize)
        ensures
            r == self@.mtu,
    {
        self.mtu
    }

    /// Queues a DATAGRAM payload for the IP stack once it checks out.
    pub fn receive_from_gts(&mut self, adapter: &IpCompatDatagram, packet: Vec<u8>) -> (r: Result<()>)
        ensures
            ip_packet_check(adapter.spec_max_ip_packet(), packet@) is Err ==> r == Err::<(), Error>(
                ip_packet_check(adapter.spec_max_ip_packet(), packet@)->Err_0,
            ) && final(self)@ == old(self)@,
            ip_packet_check(adapter.spec_max_ip_packet(), packet@) is Ok ==> r == Ok::<(), Error>(())
                && final(self)@ == (GtsIpDeviceView { ingress: old(self)@.ingress.push(packet@), ..old(self)@ }),
    {
        match adapter.receive(packet) {
            Ok(p) => {
                let ghost before = self.ingress@;
                self.ingress.push_back(p);
                assert(payload_seq(self.ingress@) =~= payload_seq(before).push(p@));
                Ok(())
            },
            Err(e) => Err(e),
        }
    }

    /// Turns the oldest packet of the IP stack into one DATAGRAM; the packet
    /// stays queued when the stream refuses it.
    pub fn transmit_to_gts(
        &mut self,
        adapter: &IpCompatDatagram,
        stream: &mut GtsStream,
        remote_tunnel_id: u32,
        now: u64,
    ) -> (r: Result<Option<GtsPacket>>)
        requires
            old(stream).wf(),
        ensures
            final(stream).wf(),
            old(self)@.egress.len() == 0 ==> r == Ok::<Option<GtsPacket>, Error>(None) && final(self)@ == old(
                self,
            )@ && final(stream)@ == old(stream)@,
            old(self)@.egress.len() > 0 ==> ({
                let packet = old(self)@.egress[0];
                let check = ip_packet_check(adapter.spec_max_ip_packet(), packet);
                &&& check is Err ==> r == Err::<Option<GtsPacket>, Error>(check->Err_0) && final(self)@ == old(
                    self,
                )@ && final(stream)@ == old(stream)@
                &&& check is Ok ==> r !is Ok || r->Ok_0 is Some
                &&& check is Ok ==> (r matches Ok(Some(p)) ==> sent_on_stream(
                    old(stream)@,
                    final(stream)@,
                    remote_tunnel_id,
                    packet,
                    false,
                    now,
                    Ok(p),
                ) && final(self)@ == (GtsIpDeviceView { egress: old(self)@.egress.drop_first(), ..old(self)@ }))
                &&& check is Ok ==> (r matches Err(e) ==> sent_on_stream(
                    old(stream)@,
                    final(stream)@,
                    remote_tunnel_id,
                    packet,
                    false,
                    now,
                    Err(e),
                ) && final(self)@ == old(self)@)
            }),
    {
        if self.egress.len() == 0 {
            return Ok(None);
        }
        assert(self@.egress[0] == self.egress@[0]@);
        let sent = adapter.send(stream, remote_tunnel_id, self.egress[0].as_slice(), now);
        match sent {
            Ok(frame) => {
                let ghost before = self.egress@;
                let _ = self.egress.pop_front();
                assert(payload_seq(self.egress@) =~= payload_seq(before).drop_first());
                Ok(Some(frame))
            },
            Err(e) => Err(e),
        }
    }

    /// Takes the oldest packet for the IP stack.
    pub fn pop_ingress(&mut self) -> (r: Option<Vec<u8>>)
        ensures
            old(self)@.ingress.len() == 0 ==> r is None && final(self)@ == old(self)@,
            old(self)@.ingress.len() > 0 ==> (r matches Some(p) && p@ == old(self)@.ingress[0] && final(self)@
                == (GtsIpDeviceView { ingress: old(self)@.ingress.drop_first(), ..old(self)@ })),
    {
        let r = self.ingress.pop_front();
        proof {
            if old(self).ingress@.len() > 0 {
                assert(payload_seq(self.ingress@) =~= payload_seq(old(self).ingress@).drop_first());
            }
        }
        r
    }

    /// Queues a packet the IP stack wrote; one longer than the MTU is
    /// dropped, as the stream would refuse it anyway.
    pub fn accept_egress(&mut self, packet: Vec<u8>)
        ensures
            packet@.len() <= old(self)@.mtu ==> final(self)@ == (GtsIpDeviceView {
                egress: old(self)@.egress.push(packet@),
                ..old(self)@
            }),
            packet@.len() > old(self)@.mtu ==> final(self)@ == old(self)@,
    {
        if packet.len() <= self.mtu {
            let ghost before = self.egress@;
            self.egress.push_back(packet);
            assert(payload_seq(self.egress@) =~= payload_seq(before).push(packet@));
        }
    }

    pub fn pending_ingress(&self) -> (r: usize)
        ensures
            r == self@.ingress.len(),
    {
        self.ingress.len()
    }

    pub fn pending_egress(&self) -> (r: usize)
        ensures
            r == self@.egress.len(),
    {
        self.egress.len()
    }
}

} // verus!

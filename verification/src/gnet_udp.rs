//! UDP underlay for a virtual GNet point-to-point link.
//!
//! A GNet peer is configured with an IP/UDP endpoint solely to reach its
//! underlay peer. The payload remains a GNet link frame. In particular, an
//! IP address is never a GDP address and UDP ports are never GTS stream IDs.
//!
//! The encapsulation is one UDP datagram per complete virtual-link frame. It
//! preserves the DLP virtual channel and traffic class so that a later DLP
//! endpoint can run unchanged above this module.
use vstd::prelude::*;

use smoltcp::socket::udp::{RecvError, SendError, Socket, UdpMetadata};

use crate::wire::bytes::{be16, read_u16, u16_be};

verus! {

#[verifier::external_type_specification]
#[verifier::external_body]
pub struct ExUdpSendError(SendError);

#[verifier::external_type_specification]
#[verifier::external_body]
pub struct ExUdpSocket<'a>(Socket<'a>);

#[verifier::external_type_specification]
#[verifier::external_body]
pub struct ExUdpMetadata(UdpMetadata);

/// The fixed UDP encapsulation header length.
pub const HEADER_LEN: usize = 8;

/// Link-local traffic class carried alongside a GNet frame.
#[derive(Debug, Clone, Copy, PartialEq, Eq, Structural)]
pub enum TrafficClass {
    Control,
    Data,
}

pub open spec fn traffic_code(t: TrafficClass) -> u8 {
    match t {
        TrafficClass::Control => 0,
        TrafficClass::Data => 1,
    }
}

impl TrafficClass {
    fn to_wire(self) -> (r: u8)
        ensures
            r == traffic_code(self),
    {
        match self {
            TrafficClass::Control => 0,
            TrafficClass::Data => 1,
        }
    }

    fn from_wire(value: u8) -> (r: Result<Self, DecodeError>)
        ensures
            value == 0 ==> r == Ok::<TrafficClass, DecodeError>(TrafficClass::Control),
            value == 1 ==> r == Ok::<TrafficClass, DecodeError>(TrafficClass::Data),
            value > 1 ==> r == Err::<TrafficClass, DecodeError>(DecodeError::InvalidTrafficClass),
    {
        match value {
            0 => Ok(TrafficClass::Control),
            1 => Ok(TrafficClass::Data),
            _ => Err(DecodeError::InvalidTrafficClass),
        }
    }
}

/// A complete GNet virtual-link frame, borrowed from the UDP payload.
#[derive(Debug, Clone, Copy, PartialEq, Eq)]
pub struct Frame<'a> {
    /// DLP virtual channel. VC 0 is reserved for link control.
    pub vcid: u8,
    pub traffic: TrafficClass,
    /// The opaque encoded GNet frame (normally GDP/GCTL/GTS bytes).
    pub payload: &'a [u8],
}

/// An invalid GNet-over-UDP datagram.
#[derive(Debug, Clone, Copy, PartialEq, Eq, Structural)]
pub enum DecodeError {
    Truncated,
    BadMagic,
    UnsupportedVersion,
    InvalidVirtualChannel,
    InvalidTrafficClass,
    LengthMismatch,
}

/// A failure while queueing a GNet frame for UDP transmission.
#[derive(Debug, Clone, Copy, PartialEq, Eq)]
pub enum TransmitError {
    DatagramTooLarge,
    Udp(SendError),
}

/// A failure while receiving a GNet UDP datagram.
#[derive(Debug, Clone, Copy, PartialEq, Eq)]
pub enum ReceiveError {
    Udp(UdpRecvError),
    Decode(DecodeError),
}

/// Why the UDP socket gave no datagram, one variant for each of smoltcp's
/// `RecvError` variants.
#[derive(Debug, Clone, Copy, PartialEq, Eq, Structural)]
pub enum UdpRecvError {
    /// The socket holds no datagram.
    Exhausted,
    /// The datagram did not fit the receive buffer.
    Truncated,
}

/// The datagram carrying `payload` on channel `vcid` as traffic `t`.
pub open spec fn spec_udp_datagram(vcid: u8, t: TrafficClass, payload: Seq<u8>) -> Seq<u8> {
    seq![0x47u8, 0x4eu8, 1u8, vcid, traffic_code(t), 0u8] + u16_be(payload.len() as u16) + payload
}

/// What decoding a datagram gives: channel, class and payload, or the error.
pub open spec fn spec_udp_decode(input: Seq<u8>) -> Result<(u8, TrafficClass, Seq<u8>), DecodeError> {
    if input.len() < 8 {
        Err(DecodeError::Truncated)
    } else if input[0] != 0x47 || input[1] != 0x4e {
        Err(DecodeError::BadMagic)
    } else if input[2] != 1 {
        Err(DecodeError::UnsupportedVersion)
    } else if input[3] > 3 {
        Err(DecodeError::InvalidVirtualChannel)
    } else if input[5] != 0 {
        Err(DecodeError::UnsupportedVersion)
    } else if input.len() != 8 + be16(input, 6) {
        Err(DecodeError::LengthMismatch)
    } else if input[4] > 1 {
        Err(DecodeError::InvalidTrafficClass)
    } else {
        Ok(
            (
                input[3],
                if input[4] == 0 {
                    TrafficClass::Control
                } else {
                    TrafficClass::Data
                },
                input.subrange(8, input.len() as int),
            ),
        )
    }
}

/// Encode `frame` into an already-sized UDP payload buffer.
pub fn encode(frame: Frame<'_>, output: &mut [u8]) -> (r: Result<(), TransmitError>)
    ensures
        (frame.vcid > 3 || frame.payload@.len() > u16::MAX || old(output)@.len() != 8
            + frame.payload@.len()) ==> r == Err::<(), TransmitError>(TransmitError::DatagramTooLarge)
            && final(output)@ == old(output)@,
        !(frame.vcid > 3 || frame.payload@.len() > u16::MAX || old(output)@.len() != 8
            + frame.payload@.len()) ==> r is Ok && final(output)@ == spec_udp_datagram(
            frame.vcid,
            frame.traffic,
            frame.payload@,
        ),
{
    if frame.vcid > 3 || frame.payload.len() > 65535 || output.len() < HEADER_LEN || output.len()
        - HEADER_LEN != frame.payload.len() {
        return Err(TransmitError::DatagramTooLarge);
    }
    let len = frame.payload.len() as u16;
    output[0] = 0x47;
    output[1] = 0x4e;
    output[2] = 1;
    output[3] = frame.vcid;
    output[4] = frame.traffic.to_wire();
    output[5] = 0;
    output[6] = (len / 256) as u8;
    output[7] = (len % 256) as u8;
    crate::wire::bytes::put_slice(output, HEADER_LEN, frame.payload);
    assert(final(output)@ =~= spec_udp_datagram(frame.vcid, frame.traffic, frame.payload@));
    Ok(())
}

/// Decode one whole UDP payload into a virtual-link frame.
pub fn decode(input: &[u8]) -> (r: Result<Frame<'_>, DecodeError>)
    ensures
        match spec_udp_decode(input@) {
            Ok((v, t, p)) => r is Ok && r->Ok_0.vcid == v && r->Ok_0.traffic == t && r->Ok_0.payload@
                == p,
            Err(e) => r is Err && r->Err_0 == e,
        },
{
    if input.len() < HEADER_LEN {
        return Err(DecodeError::Truncated);
    }
    if input[0] != 0x47 || input[1] != 0x4e {
        return Err(DecodeError::BadMagic);
    }
    if input[2] != 1 {
        return Err(DecodeError::UnsupportedVersion);
    }
    if input[3] > 3 {
        return Err(DecodeError::InvalidVirtualChannel);
    }
    if input[5] != 0 {
        return Err(DecodeError::UnsupportedVersion);
    }
    let payload_len = read_u16(input, 6) as usize;
    if input.len() - HEADER_LEN != payload_len {
        return Err(DecodeError::LengthMismatch);
    }
    let traffic = TrafficClass::from_wire(input[4])?;
    Ok(Frame { vcid: input[3], traffic, payload: &input[HEADER_LEN..input.len()] })
}

/// Decoding an encoded frame gives back its channel, class and payload.
pub proof fn law_udp_roundtrip(vcid: u8, t: TrafficClass, payload: Seq<u8>)
    requires
        vcid <= 3,
        payload.len() <= u16::MAX,
    ensures
        spec_udp_decode(spec_udp_datagram(vcid, t, payload)) == Ok::<(u8, TrafficClass, Seq<u8>), DecodeError>(
            (vcid, t, payload),
        ),
{
    let d = spec_udp_datagram(vcid, t, payload);
    assert(d.subrange(6, 8) =~= u16_be(payload.len() as u16));
    crate::wire::bytes::lemma_be16_at(d, 6, payload.len() as u16);
    assert(d.subrange(8, d.len() as int) =~= payload);
}

/// The datagrams queued in a UDP socket's transmit buffer, oldest first,
/// each with the metadata it is sent with (padding of the ring is no datagram).
pub uninterp spec fn udp_tx_datagrams(socket: Socket<'_>) -> Seq<(Seq<u8>, UdpMetadata)>;

/// `smoltcp::socket::udp::Socket::send`: enqueues a datagram of exactly
/// `size` bytes for `meta` and hands back its payload to fill; the queued
/// datagram is what the payload holds once the caller is done with it. It
/// fails with the socket's `SendError`, queueing no datagram, when the socket
/// or the peer is unaddressable or the transmit buffer has no room; which of
/// these holds depends on the socket's state and is not stated.
#[verifier::external_body]
fn enqueue_datagram<'s>(socket: &'s mut Socket<'_>, size: usize, meta: UdpMetadata) -> (r: Result<&'s mut [u8], SendError>)
    ensures
        match r {
            Ok(buf) => buf@.len() == size && udp_tx_datagrams(*final(socket)) == udp_tx_datagrams(
                *old(socket),
            ).push((final(buf)@, meta)),
            Err(_) => udp_tx_datagrams(*final(socket)) == udp_tx_datagrams(*old(socket)),
        },
{
    socket.send(size, meta)
}

/// `smoltcp::socket::udp::Socket::recv`: dequeues the oldest received
/// datagram, handing back its payload and metadata, or the socket's
/// `RecvError` converted variant for variant into `UdpRecvError`. What the
/// socket holds is not visible here, so nothing is stated of the outcome.
#[verifier::external_body]
fn dequeue_datagram<'s>(socket: &'s mut Socket<'_>) -> (r: Result<(&'s [u8], UdpMetadata), UdpRecvError>) {
    match socket.recv() {
        Ok(received) => Ok(received),
        Err(RecvError::Exhausted) => Err(UdpRecvError::Exhausted),
        Err(RecvError::Truncated) => Err(UdpRecvError::Truncated),
    }
}

/// Queue one virtual-link frame on a smoltcp UDP socket: a datagram of the
/// encapsulated size is enqueued, then the frame is encoded into it.
pub fn send(socket: &mut Socket<'_>, frame: Frame<'_>, peer: UdpMetadata) -> (r: Result<(), TransmitError>)
    ensures
        r is Ok ==> frame.vcid <= 3 && frame.payload@.len() <= u16::MAX && udp_tx_datagrams(*final(socket))
            == udp_tx_datagrams(*old(socket)).push(
            (spec_udp_datagram(frame.vcid, frame.traffic, frame.payload@), peer),
        ),
        frame.vcid <= 3 && frame.payload@.len() <= u16::MAX ==> r is Ok || r matches Err(
            TransmitError::Udp(_),
        ),
        r matches Err(TransmitError::Udp(_)) ==> udp_tx_datagrams(*final(socket)) == udp_tx_datagrams(
            *old(socket),
        ),
        // The datagram is reserved before the frame is checked: a frame out of
        // range leaves a reserved datagram of its size with unspecified bytes.
        r == Err::<(), TransmitError>(TransmitError::DatagramTooLarge) ==> (frame.vcid > 3
            || frame.payload@.len() > u16::MAX) && (udp_tx_datagrams(*final(socket)) == udp_tx_datagrams(
            *old(socket),
        ) || exists|bytes: Seq<u8>|
            bytes.len() == HEADER_LEN + frame.payload@.len() && udp_tx_datagrams(*final(socket))
                == udp_tx_datagrams(*old(socket)).push((bytes, peer))),
{
    let length = match HEADER_LEN.checked_add(frame.payload.len()) {
        Some(n) => n,
        None => return Err(TransmitError::DatagramTooLarge),
    };
    let output = match enqueue_datagram(socket, length, peer) {
        Ok(buf) => buf,
        Err(e) => return Err(TransmitError::Udp(e)),
    };
    encode(frame, output)
}

/// What a datagram taken from the socket gives: its decoded frame with the
/// metadata, or the decoding error; when the socket had nothing, no frame;
/// any other socket error is passed on.
pub fn decode_received<'a>(received: Result<(&'a [u8], UdpMetadata), UdpRecvError>) -> (r: Result<
    Option<(Frame<'a>, UdpMetadata)>,
    ReceiveError,
>)
    ensures
        match received {
            Ok((payload, meta)) => match spec_udp_decode(payload@) {
                Ok((v, t, p)) => r matches Ok(Some((f, m))) && f.vcid == v && f.traffic == t && f.payload@
                    == p && m == meta,
                Err(e) => r == Err::<Option<(Frame<'a>, UdpMetadata)>, ReceiveError>(ReceiveError::Decode(e)),
            },
            Err(UdpRecvError::Exhausted) => r == Ok::<Option<(Frame<'a>, UdpMetadata)>, ReceiveError>(None),
            Err(UdpRecvError::Truncated) => r == Err::<Option<(Frame<'a>, UdpMetadata)>, ReceiveError>(
                ReceiveError::Udp(UdpRecvError::Truncated),
            ),
        },
{
    match received {
        Ok((payload, peer)) => match decode(payload) {
            Ok(frame) => Ok(Some((frame, peer))),
            Err(e) => Err(ReceiveError::Decode(e)),
        },
        Err(UdpRecvError::Exhausted) => Ok(None),
        Err(UdpRecvError::Truncated) => Err(ReceiveError::Udp(UdpRecvError::Truncated)),
    }
}

/// Receive and decode one virtual-link frame from a smoltcp UDP socket.
/// `Ok(None)` means that the socket has no queued datagram; a malformed
/// encapsulation is consumed and reported, never passed upwards.
pub fn receive<'a>(socket: &'a mut Socket<'_>) -> (r: Result<Option<(Frame<'a>, UdpMetadata)>, ReceiveError>)
    ensures
        r matches Ok(Some((f, m))) ==> f.vcid <= 3 && f.payload@.len() <= u16::MAX,
{
    decode_received(dequeue_datagram(socket))
}

} // verus!

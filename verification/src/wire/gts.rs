use vstd::prelude::*;

use crate::error::{Error, Result};
use crate::wire::bytes::{
    all_zero, be16, be32, check_zero, copy_range, lemma_be16_at, lemma_be32_at, push_slice, push_u16,
    push_u32, push_zeros, read_u16, read_u32, u16_be, u32_be, zeros,
};
use crate::wire::crc::{bits_of, bytes_bits, spec_crc32_of_bits, Crc32};
use crate::wire::css::{
    law_css_roundtrip, lemma_css_decode_prefix, spec_css_decode, spec_css_encode, ServiceSelector,
};
use crate::wire::gdp::{GdpAddress, SizeClass};

verus! {

/// GTS packet type (four bits on the wire).
#[derive(Debug, Clone, Copy, PartialEq, Eq, Structural)]
pub enum GtsType {
    Reserved,
    Connect,
    ConnectAck,
    StreamOpen,
    StreamAck,
    Data,
    Ack,
    DataEnd,
    StreamClose,
    StreamCloseAck,
    TunnelClose,
    TunnelCloseAck,
    Reset,
    Datagram,
    StreamReset,
    StreamResetAck,
}

impl GtsType {
    pub open spec fn code(self) -> u8 {
        match self {
            GtsType::Reserved => 0,
            GtsType::Connect => 1,
            GtsType::ConnectAck => 2,
            GtsType::StreamOpen => 3,
            GtsType::StreamAck => 4,
            GtsType::Data => 5,
            GtsType::Ack => 6,
            GtsType::DataEnd => 7,
            GtsType::StreamClose => 8,
            GtsType::StreamCloseAck => 9,
            GtsType::TunnelClose => 10,
            GtsType::TunnelCloseAck => 11,
            GtsType::Reset => 12,
            GtsType::Datagram => 13,
            GtsType::StreamReset => 14,
            GtsType::StreamResetAck => 15,
        }
    }

    pub open spec fn of_code(v: u8) -> GtsType {
        if v == 1 {
            GtsType::Connect
        } else if v == 2 {
            GtsType::ConnectAck
        } else if v == 3 {
            GtsType::StreamOpen
        } else if v == 4 {
            GtsType::StreamAck
        } else if v == 5 {
            GtsType::Data
        } else if v == 6 {
            GtsType::Ack
        } else if v == 7 {
            GtsType::DataEnd
        } else if v == 8 {
            GtsType::StreamClose
        } else if v == 9 {
            GtsType::StreamCloseAck
        } else if v == 10 {
            GtsType::TunnelClose
        } else if v == 11 {
            GtsType::TunnelCloseAck
        } else if v == 12 {
            GtsType::Reset
        } else if v == 13 {
            GtsType::Datagram
        } else if v == 14 {
            GtsType::StreamReset
        } else if v == 15 {
            GtsType::StreamResetAck
        } else {
            GtsType::Reserved
        }
    }

    /// Type with the wire code in the low four bits of `v`.
    pub fn from_wire(v: u8) -> (r: Result<Self>)
        ensures
            r == Ok::<GtsType, Error>(GtsType::of_code(v % 16)),
    {
        let c = v % 16;
        Ok(
            if c == 1 {
                GtsType::Connect
            } else if c == 2 {
                GtsType::ConnectAck
            } else if c == 3 {
                GtsType::StreamOpen
            } else if c == 4 {
                GtsType::StreamAck
            } else if c == 5 {
                GtsType::Data
            } else if c == 6 {
                GtsType::Ack
            } else if c == 7 {
                GtsType::DataEnd
            } else if c == 8 {
                GtsType::StreamClose
            } else if c == 9 {
                GtsType::StreamCloseAck
            } else if c == 10 {
                GtsType::TunnelClose
            } else if c == 11 {
                GtsType::TunnelCloseAck
            } else if c == 12 {
                GtsType::Reset
            } else if c == 13 {
                GtsType::Datagram
            } else if c == 14 {
                GtsType::StreamReset
            } else if c == 15 {
                GtsType::StreamResetAck
            } else {
                GtsType::Reserved
            },
        )
    }

    /// Wire code of the type.
    pub fn to_wire(self) -> (r: u8)
        ensures
            r == self.code(),
    {
        match self {
            GtsType::Reserved => 0,
            GtsType::Connect => 1,
            GtsType::ConnectAck => 2,
            GtsType::StreamOpen => 3,
            GtsType::StreamAck => 4,
            GtsType::Data => 5,
            GtsType::Ack => 6,
            GtsType::DataEnd => 7,
            GtsType::StreamClose => 8,
            GtsType::StreamCloseAck => 9,
            GtsType::TunnelClose => 10,
            GtsType::TunnelCloseAck => 11,
            GtsType::Reset => 12,
            GtsType::Datagram => 13,
            GtsType::StreamReset => 14,
            GtsType::StreamResetAck => 15,
        }
    }
}

/// Which side of a stream may send.
#[derive(Debug, Clone, Copy, PartialEq, Eq, Structural)]
pub enum Direction {
    OpenerToPeer,
    PeerToOpener,
    Bidirectional,
}

impl Direction {
    pub open spec fn spec_bits(self) -> u16 {
        match self {
            Direction::OpenerToPeer => 1,
            Direction::PeerToOpener => 2,
            Direction::Bidirectional => 3,
        }
    }

    pub open spec fn spec_opener_may_send(self) -> bool {
        self is OpenerToPeer || self is Bidirectional
    }

    pub open spec fn spec_peer_may_send(self) -> bool {
        self is PeerToOpener || self is Bidirectional
    }

    pub fn bits(self) -> (r: u16)
        ensures
            r == self.spec_bits(),
    {
        match self {
            Direction::OpenerToPeer => 1,
            Direction::PeerToOpener => 2,
            Direction::Bidirectional => 3,
        }
    }

    /// Direction with the given two-bit code; zero is not a direction.
    pub fn from_bits(v: u16) -> (r: Result<Self>)
        ensures
            v == 1 ==> r == Ok::<Direction, Error>(Direction::OpenerToPeer),
            v == 2 ==> r == Ok::<Direction, Error>(Direction::PeerToOpener),
            v == 3 ==> r == Ok::<Direction, Error>(Direction::Bidirectional),
            (v == 0 || v > 3) ==> r == Err::<Direction, Error>(Error::ProfileViolation),
    {
        match v {
            1 => Ok(Direction::OpenerToPeer),
            2 => Ok(Direction::PeerToOpener),
            3 => Ok(Direction::Bidirectional),
            _ => Err(Error::ProfileViolation),
        }
    }

    pub fn opener_may_send(self) -> (r: bool)
        ensures
            r == self.spec_opener_may_send(),
    {
        match self {
            Direction::OpenerToPeer | Direction::Bidirectional => true,
            Direction::PeerToOpener => false,
        }
    }

    pub fn peer_may_send(self) -> (r: bool)
        ensures
            r == self.spec_peer_may_send(),
    {
        match self {
            Direction::PeerToOpener | Direction::Bidirectional => true,
            Direction::OpenerToPeer => false,
        }
    }
}

/// Negotiated properties of one GTS stream.
#[derive(Debug, Clone, Copy, PartialEq, Eq, Structural)]
pub struct StreamProfile {
    pub unreliable: bool,
    pub variable: bool,
    pub sequenced: bool,
    pub unchecked_payload: bool,
    pub direction: Direction,
    pub size_class: SizeClass,
}

pub open spec fn b2i(b: bool) -> int {
    if b {
        1
    } else {
        0
    }
}

impl StreamProfile {
    /// Sequencing and unchecked payloads only exist on unreliable streams.
    pub open spec fn spec_valid(self) -> bool {
        self.unreliable || (!self.sequenced && !self.unchecked_payload)
    }

    /// Sixteen-bit wire encoding of a valid profile.
    pub open spec fn spec_wire(self) -> u16 {
        (b2i(self.unreliable) * 32768 + b2i(self.variable) * 16384 + b2i(self.sequenced) * 8192
            + b2i(self.unchecked_payload) * 4096 + self.direction.spec_bits() * 1024
            + self.size_class.code()) as u16
    }

    pub fn reliable_fixed(size_class: SizeClass, direction: Direction) -> (r: Self)
        ensures
            r == (StreamProfile {
                unreliable: false,
                variable: false,
                sequenced: false,
                unchecked_payload: false,
                direction,
                size_class,
            }),
    {
        StreamProfile {
            unreliable: false,
            variable: false,
            sequenced: false,
            unchecked_payload: false,
            direction,
            size_class,
        }
    }

    pub fn reliable_variable(max_class: SizeClass, direction: Direction) -> (r: Self)
        ensures
            r == (StreamProfile {
                unreliable: false,
                variable: true,
                sequenced: false,
                unchecked_payload: false,
                direction,
                size_class: max_class,
            }),
    {
        StreamProfile {
            unreliable: false,
            variable: true,
            sequenced: false,
            unchecked_payload: false,
            direction,
            size_class: max_class,
        }
    }

    pub fn unreliable_fixed(
        size_class: SizeClass,
        direction: Direction,
        sequenced: bool,
        unchecked_payload: bool,
    ) -> (r: Self)
        ensures
            r == (StreamProfile {
                unreliable: true,
                variable: false,
                sequenced,
                unchecked_payload,
                direction,
                size_class,
            }),
    {
        StreamProfile {
            unreliable: true,
            variable: false,
            sequenced,
            unchecked_payload,
            direction,
            size_class,
        }
    }

    pub fn unreliable_variable(
        max_class: SizeClass,
        direction: Direction,
        sequenced: bool,
        unchecked_payload: bool,
    ) -> (r: Self)
        ensures
            r == (StreamProfile {
                unreliable: true,
                variable: true,
                sequenced,
                unchecked_payload,
                direction,
                size_class: max_class,
            }),
    {
        StreamProfile {
            unreliable: true,
            variable: true,
            sequenced,
            unchecked_payload,
            direction,
            size_class: max_class,
        }
    }

    /// The profile itself when valid.
    pub fn validate(self) -> (r: Result<Self>)
        ensures
            self.spec_valid() ==> r == Ok::<StreamProfile, Error>(self),
            !self.spec_valid() ==> r == Err::<StreamProfile, Error>(Error::ProfileViolation),
    {
        if !self.unreliable && (self.sequenced || self.unchecked_payload) {
            return Err(Error::ProfileViolation);
        }
        Ok(self)
    }

    /// Sixteen-bit wire encoding.
    pub fn to_wire(self) -> (r: Result<u16>)
        ensures
            self.spec_valid() ==> r == Ok::<u16, Error>(self.spec_wire()),
            !self.spec_valid() ==> r == Err::<u16, Error>(Error::ProfileViolation),
    {
        self.validate()?;
        let u: u16 = if self.unreliable {
            32768
        } else {
            0
        };
        let v: u16 = if self.variable {
            16384
        } else {
            0
        };
        let s: u16 = if self.sequenced {
            8192
        } else {
            0
        };
        let c: u16 = if self.unchecked_payload {
            4096
        } else {
            0
        };
        Ok(u + v + s + c + self.direction.bits() * 1024 + self.size_class.to_wire() as u16)
    }

    /// Profile decoded from its sixteen-bit wire form.
    pub fn from_wire(v: u16) -> (r: Result<Self>)
        ensures
            r == spec_profile_from_wire(v),
    {
        if (v / 16) % 64 != 0 {
            return Err(Error::ProfileViolation);
        }
        let direction = Direction::from_bits((v / 1024) % 4)?;
        let size_class = SizeClass::from_wire((v % 16) as u8)?;
        let p = StreamProfile {
            unreliable: (v / 32768) % 2 == 1,
            variable: (v / 16384) % 2 == 1,
            sequenced: (v / 8192) % 2 == 1,
            unchecked_payload: (v / 4096) % 2 == 1,
            direction,
            size_class,
        };
        p.validate()
    }
}

pub open spec fn spec_direction_of(v: int) -> Option<Direction> {
    if v == 1 {
        Some(Direction::OpenerToPeer)
    } else if v == 2 {
        Some(Direction::PeerToOpener)
    } else if v == 3 {
        Some(Direction::Bidirectional)
    } else {
        None
    }
}

pub open spec fn spec_profile_from_wire(v: u16) -> Result<StreamProfile> {
    if (v / 16) % 64 != 0 {
        Err(Error::ProfileViolation)
    } else {
        match spec_direction_of(((v / 1024) % 4) as int) {
            None => Err(Error::ProfileViolation),
            Some(direction) => {
                let p = StreamProfile {
                    unreliable: (v / 32768) % 2 == 1,
                    variable: (v / 16384) % 2 == 1,
                    sequenced: (v / 8192) % 2 == 1,
                    unchecked_payload: (v / 4096) % 2 == 1,
                    direction,
                    size_class: SizeClass::of_code((v % 16) as u8),
                };
                if p.spec_valid() {
                    Ok(p)
                } else {
                    Err(Error::ProfileViolation)
                }
            },
        }
    }
}

proof fn lemma_profile_fields(u: u16, v: u16, s: u16, c: u16, d: u16, z: u16)
    requires
        u < 2,
        v < 2,
        s < 2,
        c < 2,
        1 <= d < 4,
        z < 16,
    ensures
        ({
            let w = u * 32768 + v * 16384 + s * 8192 + c * 4096 + d * 1024 + z;
            &&& w <= u16::MAX
            &&& (w / 16) % 64 == 0
            &&& (w / 1024) % 4 == d
            &&& (w / 32768) % 2 == u
            &&& (w / 16384) % 2 == v
            &&& (w / 8192) % 2 == s
            &&& (w / 4096) % 2 == c
            &&& w % 16 == z
        }),
{
    assert({
        let w = u * 32768 + v * 16384 + s * 8192 + c * 4096 + d * 1024 + z;
        &&& w <= u16::MAX
        &&& (w / 16) % 64 == 0
        &&& (w / 1024) % 4 == d
        &&& (w / 32768) % 2 == u
        &&& (w / 16384) % 2 == v
        &&& (w / 8192) % 2 == s
        &&& (w / 4096) % 2 == c
        &&& w % 16 == z
    }) by (bit_vector)
        requires
            u < 2,
            v < 2,
            s < 2,
            c < 2,
            1 <= d < 4,
            z < 16,
    ;
}

/// Decoding the wire form of a valid profile gives the profile back.
pub proof fn law_profile_roundtrip(p: StreamProfile)
    requires
        p.spec_valid(),
    ensures
        spec_profile_from_wire(p.spec_wire()) == Ok::<StreamProfile, Error>(p),
{
    lemma_profile_fields(
        b2i(p.unreliable) as u16,
        b2i(p.variable) as u16,
        b2i(p.sequenced) as u16,
        b2i(p.unchecked_payload) as u16,
        p.direction.spec_bits(),
        p.size_class.code() as u16,
    );
    assert(SizeClass::of_code(p.size_class.code()) == p.size_class);
}

/// GDP context covered by the GTS CRC-32.
#[derive(Debug, Clone, Copy, PartialEq, Eq, Structural)]
pub struct GtsContext {
    pub gdp_version: u8,
    pub size_class: SizeClass,
    pub source: GdpAddress,
    pub destination: GdpAddress,
}

/// A GTS packet.
#[allow(inconsistent_fields)]
#[derive(Debug, Clone, PartialEq, Eq)]
pub enum GtsPacket {
    Connect {
        initiator_receive_tunnel: u32,
        initiator_reset_id: u32,
        profile: StreamProfile,
        initial_receive_credit: u8,
        css: ServiceSelector,
    },
    ConnectAck {
        initiator_receive_tunnel: u32,
        responder_receive_tunnel: u32,
        responder_reset_id: u32,
        status: u8,
        initial_receive_credit: u8,
    },
    StreamOpen { tunnel_id: u32, stream_id: u8, profile: StreamProfile, initial_receive_credit: u8 },
    StreamAck { tunnel_id: u32, stream_id: u8, status: u8, initial_receive_credit: u8 },
    Data { tunnel_id: u32, stream_id: u8, sequence: u32, data: Vec<u8>, end: bool },
    Ack { tunnel_id: u32, stream_id: u8, ack_base: u32, receive_bitmap: u32, receive_credit: u8 },
    Datagram { tunnel_id: u32, stream_id: u8, sequence: Option<u32>, data: Vec<u8> },
    StreamClose { tunnel_id: u32, stream_id: u8, final_sequence: u32, ack: bool },
    TunnelClose { tunnel_id: u32, ack: bool },
    Reset { tunnel_id: u32, reset_id: u32, reason: u8 },
    StreamReset { tunnel_id: u32, stream_id: u8, reason: u8, ack: bool },
}

/// Mathematical value of a [`GtsPacket`]: payloads as byte sequences.
#[allow(inconsistent_fields)]
pub enum GtsPacketView {
    Connect {
        initiator_receive_tunnel: u32,
        initiator_reset_id: u32,
        profile: StreamProfile,
        initial_receive_credit: u8,
        css: Seq<u8>,
    },
    ConnectAck {
        initiator_receive_tunnel: u32,
        responder_receive_tunnel: u32,
        responder_reset_id: u32,
        status: u8,
        initial_receive_credit: u8,
    },
    StreamOpen { tunnel_id: u32, stream_id: u8, profile: StreamProfile, initial_receive_credit: u8 },
    StreamAck { tunnel_id: u32, stream_id: u8, status: u8, initial_receive_credit: u8 },
    Data { tunnel_id: u32, stream_id: u8, sequence: u32, data: Seq<u8>, end: bool },
    Ack { tunnel_id: u32, stream_id: u8, ack_base: u32, receive_bitmap: u32, receive_credit: u8 },
    Datagram { tunnel_id: u32, stream_id: u8, sequence: Option<u32>, data: Seq<u8> },
    StreamClose { tunnel_id: u32, stream_id: u8, final_sequence: u32, ack: bool },
    TunnelClose { tunnel_id: u32, ack: bool },
    Reset { tunnel_id: u32, reset_id: u32, reason: u8 },
    StreamReset { tunnel_id: u32, stream_id: u8, reason: u8, ack: bool },
}

impl View for GtsPacket {
    type V = GtsPacketView;

    open spec fn view(&self) -> GtsPacketView {
        match self {
            GtsPacket::Connect {
                initiator_receive_tunnel,
                initiator_reset_id,
                profile,
                initial_receive_credit,
                css,
            } => GtsPacketView::Connect {
                initiator_receive_tunnel: *initiator_receive_tunnel,
                initiator_reset_id: *initiator_reset_id,
                profile: *profile,
                initial_receive_credit: *initial_receive_credit,
                css: css@,
            },
            GtsPacket::ConnectAck {
                initiator_receive_tunnel,
                responder_receive_tunnel,
                responder_reset_id,
                status,
                initial_receive_credit,
            } => GtsPacketView::ConnectAck {
                initiator_receive_tunnel: *initiator_receive_tunnel,
                responder_receive_tunnel: *responder_receive_tunnel,
                responder_reset_id: *responder_reset_id,
                status: *status,
                initial_receive_credit: *initial_receive_credit,
            },
            GtsPacket::StreamOpen { tunnel_id, stream_id, profile, initial_receive_credit } =>
                GtsPacketView::StreamOpen {
                tunnel_id: *tunnel_id,
                stream_id: *stream_id,
                profile: *profile,
                initial_receive_credit: *initial_receive_credit,
            },
            GtsPacket::StreamAck { tunnel_id, stream_id, status, initial_receive_credit } =>
                GtsPacketView::StreamAck {
                tunnel_id: *tunnel_id,
                stream_id: *stream_id,
                status: *status,
                initial_receive_credit: *initial_receive_credit,
            },
            GtsPacket::Data { tunnel_id, stream_id, sequence, data, end } => GtsPacketView::Data {
                tunnel_id: *tunnel_id,
                stream_id: *stream_id,
                sequence: *sequence,
                data: data@,
                end: *end,
            },
            GtsPacket::Ack { tunnel_id, stream_id, ack_base, receive_bitmap, receive_credit } =>
                GtsPacketView::Ack {
                tunnel_id: *tunnel_id,
                stream_id: *stream_id,
                ack_base: *ack_base,
                receive_bitmap: *receive_bitmap,
                receive_credit: *receive_credit,
            },
            GtsPacket::Datagram { tunnel_id, stream_id, sequence, data } =>
                GtsPacketView::Datagram {
                tunnel_id: *tunnel_id,
                stream_id: *stream_id,
                sequence: *sequence,
                data: data@,
            },
            GtsPacket::StreamClose { tunnel_id, stream_id, final_sequence, ack } =>
                GtsPacketView::StreamClose {
                tunnel_id: *tunnel_id,
                stream_id: *stream_id,
                final_sequence: *final_sequence,
                ack: *ack,
            },
            GtsPacket::TunnelClose { tunnel_id, ack } => GtsPacketView::TunnelClose {
                tunnel_id: *tunnel_id,
                ack: *ack,
            },
            GtsPacket::Reset { tunnel_id, reset_id, reason } => GtsPacketView::Reset {
                tunnel_id: *tunnel_id,
                reset_id: *reset_id,
                reason: *reason,
            },
            GtsPacket::StreamReset { tunnel_id, stream_id, reason, ack } =>
                GtsPacketView::StreamReset {
                tunnel_id: *tunnel_id,
                stream_id: *stream_id,
                reason: *reason,
                ack: *ack,
            },
        }
    }
}

impl GtsPacketView {
    pub open spec fn packet_type(self) -> GtsType {
        match self {
            GtsPacketView::Connect { .. } => GtsType::Connect,
            GtsPacketView::ConnectAck { .. } => GtsType::ConnectAck,
            GtsPacketView::StreamOpen { .. } => GtsType::StreamOpen,
            GtsPacketView::StreamAck { .. } => GtsType::StreamAck,
            GtsPacketView::Data { end, .. } => if end {
                GtsType::DataEnd
            } else {
                GtsType::Data
            },
            GtsPacketView::Ack { .. } => GtsType::Ack,
            GtsPacketView::Datagram { .. } => GtsType::Datagram,
            GtsPacketView::StreamClose { ack, .. } => if ack {
                GtsType::StreamCloseAck
            } else {
                GtsType::StreamClose
            },
            GtsPacketView::TunnelClose { ack, .. } => if ack {
                GtsType::TunnelCloseAck
            } else {
                GtsType::TunnelClose
            },
            GtsPacketView::Reset { .. } => GtsType::Reset,
            GtsPacketView::StreamReset { ack, .. } => if ack {
                GtsType::StreamResetAck
            } else {
                GtsType::StreamReset
            },
        }
    }
}

/// Bits of the GDP context that the GTS CRC-32 covers ahead of the GTS bytes.
pub open spec fn ctx_bits(ctx: GtsContext) -> Seq<bool> {
    bits_of((ctx.gdp_version % 4) as u64, 2) + bits_of(2, 4) + bits_of(
        ctx.size_class.code() as u64,
        4,
    ) + bits_of(ctx.source.0, 64) + bits_of(ctx.destination.0, 64)
}

/// The GTS CRC-32 of `gts` under `ctx`.
pub open spec fn spec_gts_crc(ctx: GtsContext, gts: Seq<u8>) -> u32 {
    spec_crc32_of_bits(ctx_bits(ctx) + bytes_bits(gts))
}

/// The GTS CRC detects every single-bit error in the bytes it covers:
/// flipping bit `m` of byte `k` changes it, whatever the context.
pub proof fn law_gts_crc_detects_bit_flip(ctx: GtsContext, gts: Seq<u8>, k: int, m: u8)
    requires
        0 <= k < gts.len(),
        m < 8,
    ensures
        spec_gts_crc(ctx, gts.update(k, (gts[k] ^ (1u8 << m)) as u8)) != spec_gts_crc(ctx, gts),
{
    crate::wire::crc::law_crc32_detects_bit_flip_after(ctx_bits(ctx), gts, k, m);
}

fn compute_crc(ctx: GtsContext, gts: &[u8]) -> (r: u32)
    ensures
        r == spec_gts_crc(ctx, gts@),
{
    let mut c = Crc32::new();
    c.update_bits((ctx.gdp_version % 4) as u64, 2);
    c.update_bits(2, 4);
    c.update_bits(ctx.size_class.to_wire() as u64, 4);
    c.update_bits(ctx.source.0, 64);
    c.update_bits(ctx.destination.0, 64);
    c.update_bytes(gts);
    proof {
        let a = bits_of((ctx.gdp_version % 4) as u64, 2);
        let b = bits_of(2, 4);
        let s = bits_of(ctx.size_class.code() as u64, 4);
        let x = bits_of(ctx.source.0, 64);
        let y = bits_of(ctx.destination.0, 64);
        let z = bytes_bits(gts@);
        let i = 0xffff_ffffu32;
        crate::wire::crc::lemma_crc32_append(i, a, b);
        crate::wire::crc::lemma_crc32_append(i, a + b, s);
        crate::wire::crc::lemma_crc32_append(i, a + b + s, x);
        crate::wire::crc::lemma_crc32_append(i, a + b + s + x, y);
        crate::wire::crc::lemma_crc32_append(i, a + b + s + x + y, z);
    }
    c.finalize()
}

/// Profile check shared by DATA and DATAGRAM against the packet's size class.
pub open spec fn data_profile_error(p: StreamProfile, ctx: GtsContext, unreliable: bool) -> bool {
    p.unreliable != unreliable || (!p.variable && ctx.size_class != p.size_class) || (p.variable
        && ctx.size_class.code() > p.size_class.code())
}

/// Bytes of a packet from its type byte up to the end of its payload; and where metadata ends.
pub open spec fn spec_fields(pk: GtsPacketView, profile: Option<StreamProfile>) -> (Seq<u8>, nat) {
    let t = seq![pk.packet_type().code()];
    match pk {
        GtsPacketView::Connect {
            initiator_receive_tunnel,
            initiator_reset_id,
            profile: sp,
            initial_receive_credit,
            css,
        } => {
            let f = t + u32_be(initiator_receive_tunnel) + u32_be(initiator_reset_id) + u16_be(
                sp.spec_wire(),
            ) + seq![initial_receive_credit] + spec_css_encode(css)->Ok_0;
            (f, f.len())
        },
        GtsPacketView::ConnectAck {
            initiator_receive_tunnel,
            responder_receive_tunnel,
            responder_reset_id,
            status,
            initial_receive_credit,
        } => {
            let f = t + u32_be(initiator_receive_tunnel) + u32_be(responder_receive_tunnel)
                + u32_be(responder_reset_id) + seq![status, initial_receive_credit, 0u8];
            (f, f.len())
        },
        GtsPacketView::StreamOpen { tunnel_id, stream_id, profile: sp, initial_receive_credit } => {
            let f = t + u32_be(tunnel_id) + seq![stream_id] + u16_be(sp.spec_wire()) + seq![
                initial_receive_credit,
                0u8,
            ];
            (f, f.len())
        },
        GtsPacketView::StreamAck { tunnel_id, stream_id, status, initial_receive_credit } => {
            let f = t + u32_be(tunnel_id) + seq![stream_id, status, initial_receive_credit, 0u8];
            (f, f.len())
        },
        GtsPacketView::Data { tunnel_id, stream_id, sequence, data, end } => {
            let p = profile->Some_0;
            let m = t + u32_be(tunnel_id) + seq![stream_id] + u32_be(sequence) + if p.variable
                || end {
                u16_be(data.len() as u16)
            } else {
                Seq::empty()
            };
            (m + data, m.len())
        },
        GtsPacketView::Ack { tunnel_id, stream_id, ack_base, receive_bitmap, receive_credit } => {
            let f = t + u32_be(tunnel_id) + seq![stream_id] + u32_be(ack_base) + u32_be(
                receive_bitmap,
            ) + seq![receive_credit, 0u8];
            (f, f.len())
        },
        GtsPacketView::Datagram { tunnel_id, stream_id, sequence, data } => {
            let p = profile->Some_0;
            let m = t + u32_be(tunnel_id) + seq![stream_id] + (if p.sequenced {
                u32_be(sequence->Some_0)
            } else {
                Seq::empty()
            }) + if p.variable {
                u16_be(data.len() as u16)
            } else {
                Seq::empty()
            };
            (m + data, m.len())
        },
        GtsPacketView::StreamClose { tunnel_id, stream_id, final_sequence, .. } => {
            let f = t + u32_be(tunnel_id) + seq![stream_id] + u32_be(final_sequence);
            (f, f.len())
        },
        GtsPacketView::TunnelClose { tunnel_id, .. } => {
            let f = t + u32_be(tunnel_id);
            (f, f.len())
        },
        GtsPacketView::Reset { tunnel_id, reset_id, reason } => {
            let f = t + u32_be(tunnel_id) + u32_be(reset_id) + seq![reason];
            (f, f.len())
        },
        GtsPacketView::StreamReset { tunnel_id, stream_id, reason, .. } => {
            let f = t + u32_be(tunnel_id) + seq![stream_id, reason, 0u8];
            (f, f.len())
        },
    }
}

/// Error of encoding `pk` into `co` bytes before the CRC, if any (checked in wire order).
pub open spec fn spec_encode_error(pk: GtsPacketView, ctx: GtsContext, profile: Option<
    StreamProfile,
>, co: int) -> Option<Error> {
    match pk {
        GtsPacketView::Connect { profile: sp, initial_receive_credit, css, .. } => {
            if !sp.spec_valid() {
                Some(Error::ProfileViolation)
            } else if sp.unreliable && initial_receive_credit != 0 {
                Some(Error::ProfileViolation)
            } else if co < 12 {
                Some(Error::InvalidLength)
            } else if spec_css_encode(css) is Err {
                Some(spec_css_encode(css)->Err_0)
            } else if 12 + spec_css_encode(css)->Ok_0.len() > co {
                Some(Error::InvalidLength)
            } else {
                None
            }
        },
        GtsPacketView::ConnectAck { .. } => if co < 16 {
            Some(Error::InvalidLength)
        } else {
            None
        },
        GtsPacketView::StreamOpen { profile: sp, initial_receive_credit, .. } => {
            if !sp.spec_valid() {
                Some(Error::ProfileViolation)
            } else if sp.unreliable && initial_receive_credit != 0 {
                Some(Error::ProfileViolation)
            } else if co < 10 {
                Some(Error::InvalidLength)
            } else {
                None
            }
        },
        GtsPacketView::StreamAck { .. } => if co < 9 {
            Some(Error::InvalidLength)
        } else {
            None
        },
        GtsPacketView::Data { data, end, .. } => {
            if profile is None {
                Some(Error::ProfileViolation)
            } else {
                let p = profile->Some_0;
                let meta: int = if p.variable || end {
                    12
                } else {
                    10
                };
                if !p.spec_valid() || data_profile_error(p, ctx, false) {
                    Some(Error::ProfileViolation)
                } else if co < meta {
                    Some(Error::InvalidLength)
                } else if meta + data.len() > co {
                    Some(Error::MessageTooLarge)
                } else if !p.variable && !end && meta + data.len() != co {
                    Some(Error::InvalidLength)
                } else {
                    None
                }
            }
        },
        GtsPacketView::Ack { .. } => if co < 16 {
            Some(Error::InvalidLength)
        } else {
            None
        },
        GtsPacketView::Datagram { sequence, data, .. } => {
            if profile is None {
                Some(Error::ProfileViolation)
            } else {
                let p = profile->Some_0;
                let seq_end: int = if p.sequenced {
                    10
                } else {
                    6
                };
                let meta: int = seq_end + if p.variable {
                    2int
                } else {
                    0int
                };
                if !p.spec_valid() || data_profile_error(p, ctx, true) {
                    Some(Error::ProfileViolation)
                } else if co < seq_end {
                    Some(Error::InvalidLength)
                } else if p.sequenced && sequence is None {
                    Some(Error::ProfileViolation)
                } else if !p.sequenced && sequence is Some {
                    Some(Error::ProfileViolation)
                } else if co < meta {
                    Some(Error::InvalidLength)
                } else if meta + data.len() > co {
                    Some(Error::MessageTooLarge)
                } else if !p.variable && meta + data.len() != co {
                    Some(Error::InvalidLength)
                } else {
                    None
                }
            }
        },
        GtsPacketView::StreamClose { .. } => if co < 10 {
            Some(Error::InvalidLength)
        } else {
            None
        },
        GtsPacketView::TunnelClose { .. } => if co < 5 {
            Some(Error::InvalidLength)
        } else {
            None
        },
        GtsPacketView::Reset { .. } => if co < 10 {
            Some(Error::InvalidLength)
        } else {
            None
        },
        GtsPacketView::StreamReset { .. } => if co < 8 {
            Some(Error::InvalidLength)
        } else {
            None
        },
    }
}

/// Whether the CRC of a packet covers only its metadata (unchecked-payload DATAGRAM).
pub open spec fn crc_covers_metadata_only(pk: GtsPacketView, profile: Option<StreamProfile>) -> bool {
    pk is Datagram && profile is Some && profile->Some_0.unreliable
        && profile->Some_0.unchecked_payload
}

/// The encoded GTS packet: fields, zero padding, then CRC-32.
pub open spec fn spec_gts_encode(pk: GtsPacketView, ctx: GtsContext, profile: Option<
    StreamProfile,
>) -> Result<Seq<u8>> {
    let total = ctx.size_class.spec_bytes() as int;
    if total < 4 {
        Err(Error::InvalidLength)
    } else {
        let co = total - 4;
        match spec_encode_error(pk, ctx, profile, co) {
            Some(e) => Err(e),
            None => {
                let (f, meta) = spec_fields(pk, profile);
                let body = f + zeros((co - f.len()) as nat);
                let cov = if crc_covers_metadata_only(pk, profile) {
                    meta as int
                } else {
                    co
                };
                Ok(body + u32_be(spec_gts_crc(ctx, body.subrange(0, cov))))
            },
        }
    }
}


/// Decoded body of a packet of type `ty` and where its metadata ends.
pub open spec fn spec_decode_body(buf: Seq<u8>, ctx: GtsContext, profile: Option<StreamProfile>, co: int, ty: GtsType) -> Result<(GtsPacketView, nat)> {
    match ty {
        GtsType::Connect => {
            if co < 11 {
                Err(Error::InvalidLength)
            } else if spec_profile_from_wire(be16(buf, 9) as u16) is Err {
                Err(spec_profile_from_wire(be16(buf, 9) as u16)->Err_0)
            } else if co < 12 {
                Err(Error::InvalidLength)
            } else {
                let sp = spec_profile_from_wire(be16(buf, 9) as u16)->Ok_0;
                let cr = buf[11];
                if sp.unreliable && cr != 0 {
                    Err(Error::ProfileViolation)
                } else {
                    match spec_css_decode(buf.subrange(12, co)) {
                        Err(e) => Err(e),
                        Ok((sel, n)) => if !all_zero(buf, 12 + n as int, co) {
                            Err(Error::InvalidField)
                        } else {
                            Ok((GtsPacketView::Connect {
                                initiator_receive_tunnel: be32(buf, 1) as u32,
                                initiator_reset_id: be32(buf, 5) as u32,
                                profile: sp,
                                initial_receive_credit: cr,
                                css: sel,
                            }, co as nat))
                        },
                    }
                }
            }
        },
        GtsType::ConnectAck => {
            if co < 16 {
                Err(Error::InvalidLength)
            } else if buf[15] != 0 {
                Err(Error::InvalidField)
            } else {
                Ok((GtsPacketView::ConnectAck {
                    initiator_receive_tunnel: be32(buf, 1) as u32,
                    responder_receive_tunnel: be32(buf, 5) as u32,
                    responder_reset_id: be32(buf, 9) as u32,
                    status: buf[13],
                    initial_receive_credit: buf[14],
                }, co as nat))
            }
        },
        GtsType::StreamOpen => {
            if co < 8 {
                Err(Error::InvalidLength)
            } else if spec_profile_from_wire(be16(buf, 6) as u16) is Err {
                Err(spec_profile_from_wire(be16(buf, 6) as u16)->Err_0)
            } else if co < 10 {
                Err(Error::InvalidLength)
            } else {
                let sp = spec_profile_from_wire(be16(buf, 6) as u16)->Ok_0;
                if buf[9] != 0 || (sp.unreliable && buf[8] != 0) {
                    Err(Error::ProfileViolation)
                } else {
                    Ok((GtsPacketView::StreamOpen {
                        tunnel_id: be32(buf, 1) as u32,
                        stream_id: buf[5],
                        profile: sp,
                        initial_receive_credit: buf[8],
                    }, co as nat))
                }
            }
        },
        GtsType::StreamAck => {
            if co < 9 {
                Err(Error::InvalidLength)
            } else if buf[8] != 0 {
                Err(Error::InvalidField)
            } else {
                Ok((GtsPacketView::StreamAck {
                    tunnel_id: be32(buf, 1) as u32,
                    stream_id: buf[5],
                    status: buf[6],
                    initial_receive_credit: buf[7],
                }, co as nat))
            }
        },
        GtsType::Data | GtsType::DataEnd => {
            if profile is None {
                Err(Error::ProfileViolation)
            } else {
                let p = profile->Some_0;
                let end = ty == GtsType::DataEnd;
                let has_len = p.variable || end;
                if !p.spec_valid() || data_profile_error(p, ctx, false) {
                    Err(Error::ProfileViolation)
                } else if co < 10 {
                    Err(Error::InvalidLength)
                } else if has_len && co < 12 {
                    Err(Error::InvalidLength)
                } else {
                    let meta: int = if has_len { 12 } else { 10 };
                    let n: int = if has_len { be16(buf, 10) } else { co - 10 };
                    if meta + n > co {
                        Err(Error::InvalidLength)
                    } else if has_len && !all_zero(buf, meta + n, co) {
                        Err(Error::InvalidField)
                    } else {
                        Ok((GtsPacketView::Data {
                            tunnel_id: be32(buf, 1) as u32,
                            stream_id: buf[5],
                            sequence: be32(buf, 6) as u32,
                            data: buf.subrange(meta, meta + n),
                            end,
                        }, meta as nat))
                    }
                }
            }
        },
        GtsType::Ack => {
            if co < 16 {
                Err(Error::InvalidLength)
            } else if buf[15] != 0 {
                Err(Error::InvalidField)
            } else {
                Ok((GtsPacketView::Ack {
                    tunnel_id: be32(buf, 1) as u32,
                    stream_id: buf[5],
                    ack_base: be32(buf, 6) as u32,
                    receive_bitmap: be32(buf, 10) as u32,
                    receive_credit: buf[14],
                }, co as nat))
            }
        },
        GtsType::Datagram => {
            if profile is None {
                Err(Error::ProfileViolation)
            } else {
                let p = profile->Some_0;
                let seq_end: int = if p.sequenced { 10 } else { 6 };
                if !p.spec_valid() || data_profile_error(p, ctx, true) {
                    Err(Error::ProfileViolation)
                } else if co < seq_end {
                    Err(Error::InvalidLength)
                } else if p.variable && co < seq_end + 2 {
                    Err(Error::InvalidLength)
                } else {
                    let meta: int = if p.variable { seq_end + 2 } else { seq_end };
                    let n: int = if p.variable { be16(buf, seq_end) } else { co - seq_end };
                    if meta + n > co {
                        Err(Error::InvalidLength)
                    } else if p.variable && !all_zero(buf, meta + n, co) {
                        Err(Error::InvalidField)
                    } else {
                        Ok((GtsPacketView::Datagram {
                            tunnel_id: be32(buf, 1) as u32,
                            stream_id: buf[5],
                            sequence: if p.sequenced { Some(be32(buf, 6) as u32) } else { None },
                            data: buf.subrange(meta, meta + n),
                        }, meta as nat))
                    }
                }
            }
        },
        GtsType::StreamClose | GtsType::StreamCloseAck => {
            if co < 10 {
                Err(Error::InvalidLength)
            } else {
                Ok((GtsPacketView::StreamClose {
                    tunnel_id: be32(buf, 1) as u32,
                    stream_id: buf[5],
                    final_sequence: be32(buf, 6) as u32,
                    ack: ty == GtsType::StreamCloseAck,
                }, co as nat))
            }
        },
        GtsType::TunnelClose | GtsType::TunnelCloseAck => {
            if co < 5 {
                Err(Error::InvalidLength)
            } else {
                Ok((GtsPacketView::TunnelClose {
                    tunnel_id: be32(buf, 1) as u32,
                    ack: ty == GtsType::TunnelCloseAck,
                }, co as nat))
            }
        },
        GtsType::Reset => {
            if co < 10 {
                Err(Error::InvalidLength)
            } else {
                Ok((GtsPacketView::Reset {
                    tunnel_id: be32(buf, 1) as u32,
                    reset_id: be32(buf, 5) as u32,
                    reason: buf[9],
                }, co as nat))
            }
        },
        GtsType::StreamReset | GtsType::StreamResetAck => {
            if co < 8 {
                Err(Error::InvalidLength)
            } else if buf[7] != 0 {
                Err(Error::InvalidField)
            } else {
                Ok((GtsPacketView::StreamReset {
                    tunnel_id: be32(buf, 1) as u32,
                    stream_id: buf[5],
                    reason: buf[6],
                    ack: ty == GtsType::StreamResetAck,
                }, co as nat))
            }
        },
        GtsType::Reserved => Err(Error::Unsupported),
    }
}

/// The GTS packet decoded from `buf` (a complete packet of the context's size class).
pub open spec fn spec_gts_decode(buf: Seq<u8>, ctx: GtsContext, profile: Option<StreamProfile>) -> Result<GtsPacketView> {
    if buf.len() != ctx.size_class.spec_bytes() || buf.len() < 5 {
        Err(Error::InvalidLength)
    } else if buf[0] / 16 != 0 {
        Err(Error::Unsupported)
    } else {
        let co = buf.len() - 4;
        let ty = GtsType::of_code(buf[0] % 16);
        match spec_decode_body(buf, ctx, profile, co, ty) {
            Err(e) => Err(e),
            Ok((pk, meta)) => {
                let cov: int = if profile is Some && profile->Some_0.unreliable
                    && profile->Some_0.unchecked_payload && ty == GtsType::Datagram {
                    meta as int
                } else {
                    co
                };
                if be32(buf, co) != spec_gts_crc(ctx, buf.subrange(0, cov)) as int {
                    Err(Error::InvalidCrc)
                } else {
                    Ok(pk)
                }
            },
        }
    }
}

/// `&buf[..n]`.
fn prefix<'a>(buf: &'a [u8], n: usize) -> (r: &'a [u8])
    requires
        n <= buf@.len(),
    ensures
        r@ == buf@.subrange(0, n as int),
{
    &buf[0..n]
}

/// `&buf[lo..hi]`.
fn subslice<'a>(buf: &'a [u8], lo: usize, hi: usize) -> (r: &'a [u8])
    requires
        lo <= hi <= buf@.len(),
    ensures
        r@ == buf@.subrange(lo as int, hi as int),
{
    &buf[lo..hi]
}

impl GtsPacket {
    /// The wire type of the packet.
    pub fn packet_type(&self) -> (r: GtsType)
        ensures
            r == self@.packet_type(),
    {
        match self {
            GtsPacket::Connect { .. } => GtsType::Connect,
            GtsPacket::ConnectAck { .. } => GtsType::ConnectAck,
            GtsPacket::StreamOpen { .. } => GtsType::StreamOpen,
            GtsPacket::StreamAck { .. } => GtsType::StreamAck,
            GtsPacket::Data { end, .. } => if *end {
                GtsType::DataEnd
            } else {
                GtsType::Data
            },
            GtsPacket::Ack { .. } => GtsType::Ack,
            GtsPacket::Datagram { .. } => GtsType::Datagram,
            GtsPacket::StreamClose { ack, .. } => if *ack {
                GtsType::StreamCloseAck
            } else {
                GtsType::StreamClose
            },
            GtsPacket::TunnelClose { ack, .. } => if *ack {
                GtsType::TunnelCloseAck
            } else {
                GtsType::TunnelClose
            },
            GtsPacket::Reset { .. } => GtsType::Reset,
            GtsPacket::StreamReset { ack, .. } => if *ack {
                GtsType::StreamResetAck
            } else {
                GtsType::StreamReset
            },
        }
    }

    fn encode_error(&self, ctx: GtsContext, profile: Option<StreamProfile>, co: usize) -> (r: Option<Error>)
        ensures
            r == spec_encode_error(self@, ctx, profile, co as int),
    {
        match self {
            GtsPacket::Connect { profile: sp, initial_receive_credit, css, .. } => {
                if sp.validate().is_err() {
                    return Some(Error::ProfileViolation);
                }
                if sp.unreliable && *initial_receive_credit != 0 {
                    return Some(Error::ProfileViolation);
                }
                if co < 12 {
                    return Some(Error::InvalidLength);
                }
                match css.encoded_len() {
                    Err(e) => Some(e),
                    Ok(n) => if n > co - 12 {
                        Some(Error::InvalidLength)
                    } else {
                        None
                    },
                }
            },
            GtsPacket::ConnectAck { .. } => if co < 16 {
                Some(Error::InvalidLength)
            } else {
                None
            },
            GtsPacket::StreamOpen { profile: sp, initial_receive_credit, .. } => {
                if sp.validate().is_err() {
                    Some(Error::ProfileViolation)
                } else if sp.unreliable && *initial_receive_credit != 0 {
                    Some(Error::ProfileViolation)
                } else if co < 10 {
                    Some(Error::InvalidLength)
                } else {
                    None
                }
            },
            GtsPacket::StreamAck { .. } => if co < 9 {
                Some(Error::InvalidLength)
            } else {
                None
            },
            GtsPacket::Data { data, end, .. } => {
                let p = match profile {
                    None => return Some(Error::ProfileViolation),
                    Some(p) => p,
                };
                let meta: usize = if p.variable || *end {
                    12
                } else {
                    10
                };
                if p.validate().is_err() || p.unreliable || (!p.variable && !ctx.size_class.le(p.size_class)) || (!p.variable && !p.size_class.le(ctx.size_class)) || (p.variable && !ctx.size_class.le(p.size_class)) {
                    proof {
                        assert(p.spec_valid() ==> data_profile_error(p, ctx, false)) by {
                            if !p.variable && ctx.size_class.code() == p.size_class.code() {
                                assert(SizeClass::of_code(ctx.size_class.code()) == ctx.size_class);
                                assert(SizeClass::of_code(p.size_class.code()) == p.size_class);
                            }
                        }
                    }
                    return Some(Error::ProfileViolation);
                }
                proof {
                    if !p.variable {
                        assert(SizeClass::of_code(ctx.size_class.code()) == ctx.size_class);
                        assert(SizeClass::of_code(p.size_class.code()) == p.size_class);
                    }
                }
                if co < meta {
                    Some(Error::InvalidLength)
                } else if data.len() > co - meta {
                    Some(Error::MessageTooLarge)
                } else if !p.variable && !*end && meta + data.len() != co {
                    Some(Error::InvalidLength)
                } else {
                    None
                }
            },
            GtsPacket::Ack { .. } => if co < 16 {
                Some(Error::InvalidLength)
            } else {
                None
            },
            GtsPacket::Datagram { sequence, data, .. } => {
                let p = match profile {
                    None => return Some(Error::ProfileViolation),
                    Some(p) => p,
                };
                let seq_end: usize = if p.sequenced {
                    10
                } else {
                    6
                };
                let meta: usize = if p.variable {
                    seq_end + 2
                } else {
                    seq_end
                };
                if p.validate().is_err() || !p.unreliable || (!p.variable && !ctx.size_class.le(p.size_class)) || (!p.variable && !p.size_class.le(ctx.size_class)) || (p.variable && !ctx.size_class.le(p.size_class)) {
                    proof {
                        assert(p.spec_valid() ==> data_profile_error(p, ctx, true)) by {
                            if !p.variable && ctx.size_class.code() == p.size_class.code() {
                                assert(SizeClass::of_code(ctx.size_class.code()) == ctx.size_class);
                                assert(SizeClass::of_code(p.size_class.code()) == p.size_class);
                            }
                        }
                    }
                    return Some(Error::ProfileViolation);
                }
                proof {
                    if !p.variable {
                        assert(SizeClass::of_code(ctx.size_class.code()) == ctx.size_class);
                        assert(SizeClass::of_code(p.size_class.code()) == p.size_class);
                    }
                }
                if co < seq_end {
                    Some(Error::InvalidLength)
                } else if p.sequenced && sequence.is_none() {
                    Some(Error::ProfileViolation)
                } else if !p.sequenced && sequence.is_some() {
                    Some(Error::ProfileViolation)
                } else if co < meta {
                    Some(Error::InvalidLength)
                } else if data.len() > co - meta {
                    Some(Error::MessageTooLarge)
                } else if !p.variable && meta + data.len() != co {
                    Some(Error::InvalidLength)
                } else {
                    None
                }
            },
            GtsPacket::StreamClose { .. } => if co < 10 {
                Some(Error::InvalidLength)
            } else {
                None
            },
            GtsPacket::TunnelClose { .. } => if co < 5 {
                Some(Error::InvalidLength)
            } else {
                None
            },
            GtsPacket::Reset { .. } => if co < 10 {
                Some(Error::InvalidLength)
            } else {
                None
            },
            GtsPacket::StreamReset { .. } => if co < 8 {
                Some(Error::InvalidLength)
            } else {
                None
            },
        }
    }

    fn fields(&self, profile: Option<StreamProfile>, ctx: GtsContext, co: usize) -> (r: (Vec<u8>, usize))
        requires
            spec_encode_error(self@, ctx, profile, co as int) is None,
            co <= 8188,
        ensures
            r.0@ == spec_fields(self@, profile).0,
            r.1 == spec_fields(self@, profile).1,
            r.0@.len() <= co,
    {
        let mut o: Vec<u8> = Vec::new();
        o.push(self.packet_type().to_wire());
        match self {
            GtsPacket::Connect { initiator_receive_tunnel, initiator_reset_id, profile: sp, initial_receive_credit, css } => {
                push_u32(&mut o, *initiator_receive_tunnel);
                push_u32(&mut o, *initiator_reset_id);
                let w = match sp.to_wire() {
                    Ok(w) => w,
                    Err(_) => 0,
                };
                push_u16(&mut o, w);
                o.push(*initial_receive_credit);
                let enc = match css.encode() {
                    Ok(e) => e,
                    Err(_) => Vec::new(),
                };
                push_slice(&mut o, enc.as_slice());
            },
            GtsPacket::ConnectAck { initiator_receive_tunnel, responder_receive_tunnel, responder_reset_id, status, initial_receive_credit } => {
                push_u32(&mut o, *initiator_receive_tunnel);
                push_u32(&mut o, *responder_receive_tunnel);
                push_u32(&mut o, *responder_reset_id);
                o.push(*status);
                o.push(*initial_receive_credit);
                o.push(0u8);
            },
            GtsPacket::StreamOpen { tunnel_id, stream_id, profile: sp, initial_receive_credit } => {
                push_u32(&mut o, *tunnel_id);
                o.push(*stream_id);
                let w = match sp.to_wire() {
                    Ok(w) => w,
                    Err(_) => 0,
                };
                push_u16(&mut o, w);
                o.push(*initial_receive_credit);
                o.push(0u8);
            },
            GtsPacket::StreamAck { tunnel_id, stream_id, status, initial_receive_credit } => {
                push_u32(&mut o, *tunnel_id);
                o.push(*stream_id);
                o.push(*status);
                o.push(*initial_receive_credit);
                o.push(0u8);
            },
            GtsPacket::Data { tunnel_id, stream_id, sequence, data, end } => {
                let p = profile.unwrap();
                push_u32(&mut o, *tunnel_id);
                o.push(*stream_id);
                push_u32(&mut o, *sequence);
                if p.variable || *end {
                    push_u16(&mut o, data.len() as u16);
                }
                let meta = o.len();
                push_slice(&mut o, data.as_slice());
                return (o, meta);
            },
            GtsPacket::Ack { tunnel_id, stream_id, ack_base, receive_bitmap, receive_credit } => {
                push_u32(&mut o, *tunnel_id);
                o.push(*stream_id);
                push_u32(&mut o, *ack_base);
                push_u32(&mut o, *receive_bitmap);
                o.push(*receive_credit);
                o.push(0u8);
            },
            GtsPacket::Datagram { tunnel_id, stream_id, sequence, data } => {
                let p = profile.unwrap();
                push_u32(&mut o, *tunnel_id);
                o.push(*stream_id);
                if p.sequenced {
                    push_u32(&mut o, sequence.unwrap());
                }
                if p.variable {
                    push_u16(&mut o, data.len() as u16);
                }
                let meta = o.len();
                push_slice(&mut o, data.as_slice());
                return (o, meta);
            },
            GtsPacket::StreamClose { tunnel_id, stream_id, final_sequence, .. } => {
                push_u32(&mut o, *tunnel_id);
                o.push(*stream_id);
                push_u32(&mut o, *final_sequence);
            },
            GtsPacket::TunnelClose { tunnel_id, .. } => {
                push_u32(&mut o, *tunnel_id);
            },
            GtsPacket::Reset { tunnel_id, reset_id, reason } => {
                push_u32(&mut o, *tunnel_id);
                push_u32(&mut o, *reset_id);
                o.push(*reason);
            },
            GtsPacket::StreamReset { tunnel_id, stream_id, reason, .. } => {
                push_u32(&mut o, *tunnel_id);
                o.push(*stream_id);
                o.push(*reason);
                o.push(0u8);
            },
        }
        let n = o.len();
        (o, n)
    }

    /// The packet encoded into a buffer of the context's size class, CRC-32 last.
    pub fn encode(&self, ctx: GtsContext, profile: Option<StreamProfile>) -> (r: Result<Vec<u8>>)
        ensures
            match spec_gts_encode(self@, ctx, profile) {
                Ok(b) => r is Ok && r->Ok_0@ == b,
                Err(e) => r is Err && r->Err_0 == e,
            },
    {
        let total = ctx.size_class.bytes();
        if total < 4 {
            return Err(Error::InvalidLength);
        }
        let co = total - 4;
        if let Some(e) = self.encode_error(ctx, profile, co) {
            return Err(e);
        }
        let (mut o, meta) = self.fields(profile, ctx, co);
        let flen = o.len();
        push_zeros(&mut o, co - flen);
        let unchecked = match self {
            GtsPacket::Datagram { .. } => match profile {
                Some(p) => p.unreliable && p.unchecked_payload,
                None => false,
            },
            _ => false,
        };
        let cov = if unchecked {
            meta
        } else {
            co
        };
        proof {
            assert(meta <= flen) by {
                assert(spec_fields(self@, profile).1 <= spec_fields(self@, profile).0.len());
            }
        }
        let crc = compute_crc(ctx, prefix(o.as_slice(), cov));
        push_u32(&mut o, crc);
        Ok(o)
    }
}


impl GtsPacket {
    fn decode_connect(buf: &[u8], ctx: GtsContext, profile: Option<StreamProfile>, co: usize, ty: GtsType) -> (r: Result<(GtsPacket, usize)>)
        requires
            co + 4 == buf@.len(),
            co <= 8188,
            ty == GtsType::Connect,
        ensures
            match spec_decode_body(buf@, ctx, profile, co as int, ty) {
                Ok((pk, meta)) => r is Ok && r->Ok_0.0@ == pk && r->Ok_0.1 == meta,
                Err(e) => r is Err && r->Err_0 == e,
            },
    {
                if co < 11 {
                    return Err(Error::InvalidLength);
                }
                let sp = match StreamProfile::from_wire(read_u16(buf, 9)) {
                    Ok(sp) => sp,
                    Err(e) => return Err(e),
                };
                if co < 12 {
                    return Err(Error::InvalidLength);
                }
                let cr = buf[11];
                if sp.unreliable && cr != 0 {
                    return Err(Error::ProfileViolation);
                }
                let (css, n) = match ServiceSelector::decode(subslice(buf, 12, co)) {
                    Ok(x) => x,
                    Err(e) => return Err(e),
                };
                if !check_zero(buf, 12 + n, co) {
                    return Err(Error::InvalidField);
                }
                Ok((GtsPacket::Connect {
                    initiator_receive_tunnel: read_u32(buf, 1),
                    initiator_reset_id: read_u32(buf, 5),
                    profile: sp,
                    initial_receive_credit: cr,
                    css,
                }, co))
            }

    fn decode_stream_open(buf: &[u8], ctx: GtsContext, profile: Option<StreamProfile>, co: usize, ty: GtsType) -> (r: Result<(GtsPacket, usize)>)
        requires
            co + 4 == buf@.len(),
            co <= 8188,
            ty == GtsType::StreamOpen,
        ensures
            match spec_decode_body(buf@, ctx, profile, co as int, ty) {
                Ok((pk, meta)) => r is Ok && r->Ok_0.0@ == pk && r->Ok_0.1 == meta,
                Err(e) => r is Err && r->Err_0 == e,
            },
    {
                if co < 8 {
                    return Err(Error::InvalidLength);
                }
                let sp = match StreamProfile::from_wire(read_u16(buf, 6)) {
                    Ok(sp) => sp,
                    Err(e) => return Err(e),
                };
                if co < 10 {
                    return Err(Error::InvalidLength);
                }
                if buf[9] != 0 || (sp.unreliable && buf[8] != 0) {
                    return Err(Error::ProfileViolation);
                }
                Ok((GtsPacket::StreamOpen {
                    tunnel_id: read_u32(buf, 1),
                    stream_id: buf[5],
                    profile: sp,
                    initial_receive_credit: buf[8],
                }, co))
            }

    fn decode_data(buf: &[u8], ctx: GtsContext, profile: Option<StreamProfile>, co: usize, ty: GtsType) -> (r: Result<(GtsPacket, usize)>)
        requires
            co + 4 == buf@.len(),
            co <= 8188,
            ty == GtsType::Data || ty == GtsType::DataEnd,
        ensures
            match spec_decode_body(buf@, ctx, profile, co as int, ty) {
                Ok((pk, meta)) => r is Ok && r->Ok_0.0@ == pk && r->Ok_0.1 == meta,
                Err(e) => r is Err && r->Err_0 == e,
            },
    {
                let p = match profile {
                    None => return Err(Error::ProfileViolation),
                    Some(p) => p,
                };
                let end = match ty {
                    GtsType::DataEnd => true,
                    _ => false,
                };
                let has_len = p.variable || end;
                if p.validate().is_err() || p.unreliable || (!p.variable && !ctx.size_class.le(p.size_class)) || (!p.variable && !p.size_class.le(ctx.size_class)) || (p.variable && !ctx.size_class.le(p.size_class)) {
                    proof {
                        assert(p.spec_valid() ==> data_profile_error(p, ctx, false)) by {
                            if !p.variable && ctx.size_class.code() == p.size_class.code() {
                                assert(SizeClass::of_code(ctx.size_class.code()) == ctx.size_class);
                                assert(SizeClass::of_code(p.size_class.code()) == p.size_class);
                            }
                        }
                    }
                    return Err(Error::ProfileViolation);
                }
                proof {
                    if !p.variable {
                        assert(SizeClass::of_code(ctx.size_class.code()) == ctx.size_class);
                        assert(SizeClass::of_code(p.size_class.code()) == p.size_class);
                    }
                }
                if co < 10 {
                    return Err(Error::InvalidLength);
                }
                if has_len && co < 12 {
                    return Err(Error::InvalidLength);
                }
                let meta: usize = if has_len {
                    12
                } else {
                    10
                };
                let n: usize = if has_len {
                    read_u16(buf, 10) as usize
                } else {
                    co - 10
                };
                if meta + n > co {
                    return Err(Error::InvalidLength);
                }
                if has_len && !check_zero(buf, meta + n, co) {
                    return Err(Error::InvalidField);
                }
                Ok((GtsPacket::Data {
                    tunnel_id: read_u32(buf, 1),
                    stream_id: buf[5],
                    sequence: read_u32(buf, 6),
                    data: copy_range(buf, meta, meta + n),
                    end,
                }, meta))
            }

    fn decode_datagram(buf: &[u8], ctx: GtsContext, profile: Option<StreamProfile>, co: usize, ty: GtsType) -> (r: Result<(GtsPacket, usize)>)
        requires
            co + 4 == buf@.len(),
            co <= 8188,
            ty == GtsType::Datagram,
        ensures
            match spec_decode_body(buf@, ctx, profile, co as int, ty) {
                Ok((pk, meta)) => r is Ok && r->Ok_0.0@ == pk && r->Ok_0.1 == meta,
                Err(e) => r is Err && r->Err_0 == e,
            },
    {
                let p = match profile {
                    None => return Err(Error::ProfileViolation),
                    Some(p) => p,
                };
                let seq_end: usize = if p.sequenced {
                    10
                } else {
                    6
                };
                if p.validate().is_err() || !p.unreliable || (!p.variable && !ctx.size_class.le(p.size_class)) || (!p.variable && !p.size_class.le(ctx.size_class)) || (p.variable && !ctx.size_class.le(p.size_class)) {
                    proof {
                        assert(p.spec_valid() ==> data_profile_error(p, ctx, true)) by {
                            if !p.variable && ctx.size_class.code() == p.size_class.code() {
                                assert(SizeClass::of_code(ctx.size_class.code()) == ctx.size_class);
                                assert(SizeClass::of_code(p.size_class.code()) == p.size_class);
                            }
                        }
                    }
                    return Err(Error::ProfileViolation);
                }
                proof {
                    if !p.variable {
                        assert(SizeClass::of_code(ctx.size_class.code()) == ctx.size_class);
                        assert(SizeClass::of_code(p.size_class.code()) == p.size_class);
                    }
                }
                if co < seq_end {
                    return Err(Error::InvalidLength);
                }
                if p.variable && co < seq_end + 2 {
                    return Err(Error::InvalidLength);
                }
                let meta: usize = if p.variable {
                    seq_end + 2
                } else {
                    seq_end
                };
                let n: usize = if p.variable {
                    read_u16(buf, seq_end) as usize
                } else {
                    co - seq_end
                };
                if meta + n > co {
                    return Err(Error::InvalidLength);
                }
                if p.variable && !check_zero(buf, meta + n, co) {
                    return Err(Error::InvalidField);
                }
                let sequence = if p.sequenced {
                    Some(read_u32(buf, 6))
                } else {
                    None
                };
                Ok((GtsPacket::Datagram {
                    tunnel_id: read_u32(buf, 1),
                    stream_id: buf[5],
                    sequence,
                    data: copy_range(buf, meta, meta + n),
                }, meta))
            }

    fn decode_body(buf: &[u8], ctx: GtsContext, profile: Option<StreamProfile>, co: usize, ty: GtsType) -> (r: Result<(GtsPacket, usize)>)
        requires
            co + 4 == buf@.len(),
            co <= 8188,
        ensures
            match spec_decode_body(buf@, ctx, profile, co as int, ty) {
                Ok((pk, meta)) => r is Ok && r->Ok_0.0@ == pk && r->Ok_0.1 == meta,
                Err(e) => r is Err && r->Err_0 == e,
            },
    {
        match ty {
            GtsType::Connect => Self::decode_connect(buf, ctx, profile, co, ty),
            GtsType::ConnectAck => {
                if co < 16 {
                    return Err(Error::InvalidLength);
                }
                if buf[15] != 0 {
                    return Err(Error::InvalidField);
                }
                Ok((GtsPacket::ConnectAck {
                    initiator_receive_tunnel: read_u32(buf, 1),
                    responder_receive_tunnel: read_u32(buf, 5),
                    responder_reset_id: read_u32(buf, 9),
                    status: buf[13],
                    initial_receive_credit: buf[14],
                }, co))
            },
            GtsType::StreamOpen => Self::decode_stream_open(buf, ctx, profile, co, ty),
            GtsType::StreamAck => {
                if co < 9 {
                    return Err(Error::InvalidLength);
                }
                if buf[8] != 0 {
                    return Err(Error::InvalidField);
                }
                Ok((GtsPacket::StreamAck {
                    tunnel_id: read_u32(buf, 1),
                    stream_id: buf[5],
                    status: buf[6],
                    initial_receive_credit: buf[7],
                }, co))
            },
            GtsType::Data | GtsType::DataEnd => Self::decode_data(buf, ctx, profile, co, ty),
            GtsType::Ack => {
                if co < 16 {
                    return Err(Error::InvalidLength);
                }
                if buf[15] != 0 {
                    return Err(Error::InvalidField);
                }
                Ok((GtsPacket::Ack {
                    tunnel_id: read_u32(buf, 1),
                    stream_id: buf[5],
                    ack_base: read_u32(buf, 6),
                    receive_bitmap: read_u32(buf, 10),
                    receive_credit: buf[14],
                }, co))
            },
            GtsType::Datagram => Self::decode_datagram(buf, ctx, profile, co, ty),
            GtsType::StreamClose | GtsType::StreamCloseAck => {
                if co < 10 {
                    return Err(Error::InvalidLength);
                }
                let ack = match ty {
                    GtsType::StreamCloseAck => true,
                    _ => false,
                };
                Ok((GtsPacket::StreamClose {
                    tunnel_id: read_u32(buf, 1),
                    stream_id: buf[5],
                    final_sequence: read_u32(buf, 6),
                    ack,
                }, co))
            },
            GtsType::TunnelClose | GtsType::TunnelCloseAck => {
                if co < 5 {
                    return Err(Error::InvalidLength);
                }
                let ack = match ty {
                    GtsType::TunnelCloseAck => true,
                    _ => false,
                };
                Ok((GtsPacket::TunnelClose { tunnel_id: read_u32(buf, 1), ack }, co))
            },
            GtsType::Reset => {
                if co < 10 {
                    return Err(Error::InvalidLength);
                }
                Ok((GtsPacket::Reset {
                    tunnel_id: read_u32(buf, 1),
                    reset_id: read_u32(buf, 5),
                    reason: buf[9],
                }, co))
            },
            GtsType::StreamReset | GtsType::StreamResetAck => {
                if co < 8 {
                    return Err(Error::InvalidLength);
                }
                if buf[7] != 0 {
                    return Err(Error::InvalidField);
                }
                let ack = match ty {
                    GtsType::StreamResetAck => true,
                    _ => false,
                };
                Ok((GtsPacket::StreamReset {
                    tunnel_id: read_u32(buf, 1),
                    stream_id: buf[5],
                    reason: buf[6],
                    ack,
                }, co))
            },
            GtsType::Reserved => Err(Error::Unsupported),
        }
    }

    /// Decodes and CRC-checks a complete packet of the context's size class.
    pub fn decode(buf: &[u8], ctx: GtsContext, profile: Option<StreamProfile>) -> (r: Result<Self>)
        ensures
            match spec_gts_decode(buf@, ctx, profile) {
                Ok(pk) => r is Ok && r->Ok_0@ == pk,
                Err(e) => r is Err && r->Err_0 == e,
            },
    {
        if buf.len() != ctx.size_class.bytes() || buf.len() < 5 {
            return Err(Error::InvalidLength);
        }
        let co = buf.len() - 4;
        let ty = match GtsType::from_wire(buf[0] % 16) {
            Ok(t) => t,
            Err(e) => return Err(e),
        };
        if buf[0] / 16 != 0 {
            return Err(Error::Unsupported);
        }
        let (packet, meta) = Self::decode_body(buf, ctx, profile, co, ty)?;
        let unchecked = match profile {
            Some(p) => p.unreliable && p.unchecked_payload,
            None => false,
        } && match ty {
            GtsType::Datagram => true,
            _ => false,
        };
        let cov = if unchecked {
            meta
        } else {
            co
        };
        proof {
            assert(meta <= co);
        }
        let got = read_u32(buf, co);
        let want = compute_crc(ctx, prefix(buf, cov));
        if got != want {
            return Err(Error::InvalidCrc);
        }
        Ok(packet)
    }
}


/// Smallest size class code at or above `k` whose payload holds `n` bytes.
pub open spec fn smallest_from(n: int, k: int) -> Option<SizeClass>
    decreases 16 - k,
{
    if k >= 16 || k < 0 {
        None
    } else if crate::wire::gdp::class_bytes(k) >= n {
        Some(SizeClass::of_code(k as u8))
    } else {
        smallest_from(n, k + 1)
    }
}

/// Smallest size class whose payload holds `n` bytes.
pub open spec fn spec_smallest_for(n: int) -> Option<SizeClass> {
    smallest_from(n, 0)
}

proof fn lemma_smallest_for(n: int, c: SizeClass)
    requires
        c.spec_bytes() >= n,
        forall|k: int| 0 <= k < c.code() ==> crate::wire::gdp::class_bytes(k) < n,
    ensures
        spec_smallest_for(n) == Some(c),
{
    lemma_smallest_from(n, 0, c);
}

proof fn lemma_smallest_from(n: int, k: int, c: SizeClass)
    requires
        0 <= k <= c.code(),
        c.spec_bytes() >= n,
        forall|j: int| 0 <= j < c.code() ==> crate::wire::gdp::class_bytes(j) < n,
    ensures
        smallest_from(n, k) == Some(c),
    decreases c.code() - k,
{
    if k < c.code() {
        lemma_smallest_from(n, k + 1, c);
    } else {
        assert(SizeClass::of_code(c.code()) == c);
    }
}

proof fn lemma_smallest_none(n: int, k: int)
    requires
        0 <= k <= 16,
        n > 8192,
    ensures
        smallest_from(n, k) is None,
    decreases 16 - k,
{
    if k < 16 {
        lemma_smallest_none(n, k + 1);
    }
}

/// `smallest_for` as a total spec function.
pub fn smallest_class_for(n: usize) -> (r: Option<SizeClass>)
    ensures
        r == spec_smallest_for(n as int),
{
    let r = SizeClass::smallest_for(n);
    proof {
        match r {
            Some(c) => lemma_smallest_for(n as int, c),
            None => lemma_smallest_none(n as int, 0),
        }
    }
    r
}

/// Length of a packet's fields plus CRC: the least total size that can hold it.
pub open spec fn spec_minimum_len(pk: GtsPacketView, profile: Option<StreamProfile>) -> Result<nat> {
    match pk {
        GtsPacketView::Connect { css, .. } => match spec_css_encode(css) {
            Ok(b) => Ok(16 + b.len()),
            Err(e) => Err(e),
        },
        GtsPacketView::ConnectAck { .. } => Ok(20),
        GtsPacketView::StreamOpen { .. } => Ok(14),
        GtsPacketView::StreamAck { .. } => Ok(13),
        GtsPacketView::Ack { .. } => Ok(20),
        GtsPacketView::StreamClose { .. } => Ok(14),
        GtsPacketView::TunnelClose { .. } => Ok(9),
        GtsPacketView::Reset { .. } => Ok(14),
        GtsPacketView::StreamReset { .. } => Ok(12),
        GtsPacketView::Data { data, end, .. } => match profile {
            None => Err(Error::ProfileViolation),
            Some(p) => if p.unreliable {
                Err(Error::ProfileViolation)
            } else {
                Ok(14 + (if p.variable || end { 2nat } else { 0nat }) + data.len())
            },
        },
        GtsPacketView::Datagram { data, .. } => match profile {
            None => Err(Error::ProfileViolation),
            Some(p) => if !p.unreliable {
                Err(Error::ProfileViolation)
            } else {
                Ok(10 + (if p.sequenced { 4nat } else { 0nat }) + (if p.variable { 2nat } else { 0nat }) + data.len())
            },
        },
    }
}

/// Size class a sender picks for a packet on a stream with `profile`.
pub open spec fn spec_choose_size_class(pk: GtsPacketView, profile: Option<StreamProfile>) -> Result<SizeClass> {
    let general = match spec_minimum_len(pk, profile) {
        Err(e) => Err(e),
        Ok(n) => match spec_smallest_for(n as int) {
            Some(c) => Ok(c),
            None => Err(Error::MessageTooLarge),
        },
    };
    match profile {
        None => general,
        Some(p) => match pk {
            GtsPacketView::Data { end, .. } => match spec_minimum_len(pk, profile) {
                Err(e) => Err(e),
                Ok(n) => if !p.variable {
                    if end {
                        if n > p.size_class.spec_bytes() { Err(Error::MessageTooLarge) } else { Ok(p.size_class) }
                    } else if n != p.size_class.spec_bytes() {
                        Err(Error::InvalidLength)
                    } else {
                        Ok(p.size_class)
                    }
                } else {
                    match spec_smallest_for(n as int) {
                        None => Err(Error::MessageTooLarge),
                        Some(c) => if c.code() > p.size_class.code() { Err(Error::MessageTooLarge) } else { Ok(c) },
                    }
                },
            },
            GtsPacketView::Datagram { .. } => match spec_minimum_len(pk, profile) {
                Err(e) => Err(e),
                Ok(n) => if !p.variable {
                    if n != p.size_class.spec_bytes() { Err(Error::InvalidLength) } else { Ok(p.size_class) }
                } else {
                    match spec_smallest_for(n as int) {
                        None => Err(Error::MessageTooLarge),
                        Some(c) => if c.code() > p.size_class.code() { Err(Error::MessageTooLarge) } else { Ok(c) },
                    }
                },
            },
            _ => general,
        },
    }
}

impl GtsPacketView {
    /// Payload length of DATA and DATAGRAM packets (zero otherwise).
    pub open spec fn payload_len(self) -> nat {
        match self {
            GtsPacketView::Data { data, .. } => data.len(),
            GtsPacketView::Datagram { data, .. } => data.len(),
            _ => 0,
        }
    }
}

impl GtsPacket {
    /// Least total packet length (fields and CRC) that can hold this packet.
    pub fn minimum_len(&self, profile: Option<StreamProfile>) -> (r: Result<usize>)
        requires
            self@.payload_len() <= usize::MAX - 32,
        ensures
            match spec_minimum_len(self@, profile) {
                Ok(n) => r == Ok::<usize, Error>(n as usize),
                Err(e) => r == Err::<usize, Error>(e),
            },
    {
        match self {
            GtsPacket::Connect { css, .. } => {
                let n = css.encoded_len()?;
                Ok(16 + n)
            },
            GtsPacket::ConnectAck { .. } => Ok(20),
            GtsPacket::StreamOpen { .. } => Ok(14),
            GtsPacket::StreamAck { .. } => Ok(13),
            GtsPacket::Ack { .. } => Ok(20),
            GtsPacket::StreamClose { .. } => Ok(14),
            GtsPacket::TunnelClose { .. } => Ok(9),
            GtsPacket::Reset { .. } => Ok(14),
            GtsPacket::StreamReset { .. } => Ok(12),
            GtsPacket::Data { data, end, .. } => {
                let p = match profile {
                    None => return Err(Error::ProfileViolation),
                    Some(p) => p,
                };
                if p.unreliable {
                    return Err(Error::ProfileViolation);
                }
                let extra: usize = if p.variable || *end {
                    2
                } else {
                    0
                };
                Ok(14 + extra + data.len())
            },
            GtsPacket::Datagram { data, .. } => {
                let p = match profile {
                    None => return Err(Error::ProfileViolation),
                    Some(p) => p,
                };
                if !p.unreliable {
                    return Err(Error::ProfileViolation);
                }
                let s: usize = if p.sequenced {
                    4
                } else {
                    0
                };
                let v: usize = if p.variable {
                    2
                } else {
                    0
                };
                Ok(10 + s + v + data.len())
            },
        }
    }

    /// Size class for this packet: the profile's class for fixed streams, otherwise the
    /// smallest class that holds it (never above the profile's maximum).
    pub fn choose_size_class(&self, profile: Option<StreamProfile>) -> (r: Result<SizeClass>)
        requires
            self@.payload_len() <= usize::MAX - 32,
        ensures
            r == spec_choose_size_class(self@, profile),
    {
        if let Some(p) = profile {
            match self {
                GtsPacket::Data { end, .. } => {
                    let n = self.minimum_len(Some(p))?;
                    if !p.variable {
                        if *end {
                            if n > p.size_class.bytes() {
                                return Err(Error::MessageTooLarge);
                            }
                        } else if n != p.size_class.bytes() {
                            return Err(Error::InvalidLength);
                        }
                        return Ok(p.size_class);
                    }
                    let c = match smallest_class_for(n) {
                        Some(c) => c,
                        None => return Err(Error::MessageTooLarge),
                    };
                    if !c.le(p.size_class) {
                        return Err(Error::MessageTooLarge);
                    }
                    return Ok(c);
                },
                GtsPacket::Datagram { .. } => {
                    let n = self.minimum_len(Some(p))?;
                    if !p.variable {
                        if n != p.size_class.bytes() {
                            return Err(Error::InvalidLength);
                        }
                        return Ok(p.size_class);
                    }
                    let c = match smallest_class_for(n) {
                        Some(c) => c,
                        None => return Err(Error::MessageTooLarge),
                    };
                    if !c.le(p.size_class) {
                        return Err(Error::MessageTooLarge);
                    }
                    return Ok(c);
                },
                _ => {},
            }
        }
        let n = self.minimum_len(profile)?;
        match smallest_class_for(n) {
            Some(c) => Ok(c),
            None => Err(Error::MessageTooLarge),
        }
    }
}


/// Type codes read back.
proof fn lemma_type_code(t: GtsType)
    requires
        t != GtsType::Reserved,
    ensures
        t.code() < 16,
        GtsType::of_code(t.code()) == t,
{
}

/// Decoding the bytes a packet encodes to, under the same context and stream
/// profile, gives the packet back.
#[verifier::rlimit(100)]
pub proof fn law_gts_packet_roundtrip(pk: GtsPacketView, ctx: GtsContext, profile: Option<StreamProfile>)
    requires
        spec_gts_encode(pk, ctx, profile) is Ok,
        pk matches GtsPacketView::Connect { css, .. } ==> css.len() == 16,
    ensures
        spec_gts_decode(spec_gts_encode(pk, ctx, profile)->Ok_0, ctx, profile) == Ok::<GtsPacketView, Error>(pk),
{
    let total = ctx.size_class.spec_bytes() as int;
    let co = total - 4;
    let (f, meta) = spec_fields(pk, profile);
    let body = f + zeros((co - f.len()) as nat);
    let cov = if crc_covers_metadata_only(pk, profile) {
        meta as int
    } else {
        co
    };
    let crc = spec_gts_crc(ctx, body.subrange(0, cov));
    let buf = body + u32_be(crc);
    assert(spec_gts_encode(pk, ctx, profile)->Ok_0 == buf);
    lemma_fields_fit(pk, ctx, profile, co);
    assert(f.len() <= co);
    assert(buf.len() == total);
    assert forall|i: int| 0 <= i < f.len() implies buf[i] == f[i] by {
        assert(buf[i] == body[i]);
    }
    assert forall|i: int| f.len() <= i < co implies buf[i] == 0 by {
        assert(buf[i] == body[i]);
    }
    assert(buf.subrange(co, co + 4) =~= u32_be(crc));
    lemma_be32_at(buf, co, crc);
    assert(buf.subrange(0, cov) =~= body.subrange(0, cov));
    let ty = pk.packet_type();
    lemma_type_code(ty);
    assert(buf[0] == ty.code());
    assert(GtsType::of_code(buf[0] % 16) == ty);
    lemma_decode_fields(pk, ctx, profile, buf, co, f);
}

/// The encoded fields of an encodable packet fit before the CRC.
proof fn lemma_fields_fit(pk: GtsPacketView, ctx: GtsContext, profile: Option<StreamProfile>, co: int)
    requires
        co == ctx.size_class.spec_bytes() - 4,
        spec_gts_encode(pk, ctx, profile) is Ok,
    ensures
        spec_fields(pk, profile).0.len() <= co,
        spec_fields(pk, profile).1 <= spec_fields(pk, profile).0.len(),
        co >= 5,
{
}

/// A big-endian `u32` of the fields reads back from the buffer.
proof fn lemma_read32(buf: Seq<u8>, f: Seq<u8>, i: int, v: u32)
    requires
        0 <= i,
        i + 4 <= f.len(),
        f.len() <= buf.len(),
        f.subrange(i, i + 4) == u32_be(v),
        forall|j: int| 0 <= j < f.len() ==> buf[j] == f[j],
    ensures
        be32(buf, i) == v,
{
    assert(buf.subrange(i, i + 4) =~= f.subrange(i, i + 4));
    lemma_be32_at(buf, i, v);
}

/// A big-endian `u16` of the fields reads back from the buffer.
proof fn lemma_read16(buf: Seq<u8>, f: Seq<u8>, i: int, v: u16)
    requires
        0 <= i,
        i + 2 <= f.len(),
        f.len() <= buf.len(),
        f.subrange(i, i + 2) == u16_be(v),
        forall|j: int| 0 <= j < f.len() ==> buf[j] == f[j],
    ensures
        be16(buf, i) == v,
{
    assert(buf.subrange(i, i + 2) =~= f.subrange(i, i + 2));
    lemma_be16_at(buf, i, v);
}

/// The body decoder reads back the fields written at the front of `buf`.
proof fn lemma_decode_fields(
    pk: GtsPacketView,
    ctx: GtsContext,
    profile: Option<StreamProfile>,
    buf: Seq<u8>,
    co: int,
    f: Seq<u8>,
)
    requires
        co == ctx.size_class.spec_bytes() - 4,
        buf.len() == co + 4,
        spec_encode_error(pk, ctx, profile, co) is None,
        f == spec_fields(pk, profile).0,
        f.len() <= co,
        pk matches GtsPacketView::Connect { css, .. } ==> css.len() == 16,
        forall|i: int| 0 <= i < f.len() ==> buf[i] == f[i],
        forall|i: int| f.len() <= i < co ==> buf[i] == 0,
    ensures
        spec_decode_body(buf, ctx, profile, co, pk.packet_type()) matches Ok((q, m)) && q == pk
            && (crc_covers_metadata_only(pk, profile) ==> m == spec_fields(pk, profile).1),
{
    match pk {
        GtsPacketView::Connect { .. } => lemma_decode_connect(pk, ctx, profile, buf, co, f),
        GtsPacketView::ConnectAck { .. } => lemma_decode_connectack(pk, ctx, profile, buf, co, f),
        GtsPacketView::StreamOpen { .. } => lemma_decode_streamopen(pk, ctx, profile, buf, co, f),
        GtsPacketView::StreamAck { .. } => lemma_decode_streamack(pk, ctx, profile, buf, co, f),
        GtsPacketView::Data { .. } => lemma_decode_data(pk, ctx, profile, buf, co, f),
        GtsPacketView::Ack { .. } => lemma_decode_ack(pk, ctx, profile, buf, co, f),
        GtsPacketView::Datagram { .. } => lemma_decode_datagram(pk, ctx, profile, buf, co, f),
        GtsPacketView::StreamClose { .. } => lemma_decode_streamclose(pk, ctx, profile, buf, co, f),
        GtsPacketView::TunnelClose { .. } => lemma_decode_tunnelclose(pk, ctx, profile, buf, co, f),
        GtsPacketView::Reset { .. } => lemma_decode_reset(pk, ctx, profile, buf, co, f),
        GtsPacketView::StreamReset { .. } => lemma_decode_streamreset(pk, ctx, profile, buf, co, f),
    }
}

/// Connect reads back.
#[verifier::rlimit(50)]
proof fn lemma_decode_connect(
    pk: GtsPacketView,
    ctx: GtsContext,
    profile: Option<StreamProfile>,
    buf: Seq<u8>,
    co: int,
    f: Seq<u8>,
)
    requires
        pk is Connect,
        co == ctx.size_class.spec_bytes() - 4,
        buf.len() == co + 4,
        spec_encode_error(pk, ctx, profile, co) is None,
        f == spec_fields(pk, profile).0,
        f.len() <= co,
        pk matches GtsPacketView::Connect { css, .. } ==> css.len() == 16,
        forall|i: int| 0 <= i < f.len() ==> buf[i] == f[i],
        forall|i: int| f.len() <= i < co ==> buf[i] == 0,
    ensures
        spec_decode_body(buf, ctx, profile, co, pk.packet_type()) matches Ok((q, m)) && q == pk,
{
    if let GtsPacketView::Connect { initiator_receive_tunnel, initiator_reset_id, profile: sp, initial_receive_credit, css } = pk {
        let e = spec_css_encode(css)->Ok_0;
        assert(f.subrange(1, 5) =~= u32_be(initiator_receive_tunnel));
        assert(f.subrange(5, 9) =~= u32_be(initiator_reset_id));
        assert(f.subrange(9, 11) =~= u16_be(sp.spec_wire()));
        lemma_read32(buf, f, 1, initiator_receive_tunnel);
        lemma_read32(buf, f, 5, initiator_reset_id);
        lemma_read16(buf, f, 9, sp.spec_wire());
        law_profile_roundtrip(sp);
        assert(buf[11] == f[11]);
        law_css_roundtrip(css);
        let rest = buf.subrange(12, co);
        assert(rest =~= e + rest.subrange(e.len() as int, rest.len() as int)) by {
            assert forall|k: int| 0 <= k < e.len() implies rest[k] == e[k] by {
                assert(rest[k] == buf[12 + k]);
                assert(f[12 + k] == e[k]);
            }
        }
        lemma_css_decode_prefix(e, rest.subrange(e.len() as int, rest.len() as int));
        assert(all_zero(buf, 12 + e.len() as int, co));
    }
}

/// ConnectAck reads back.
#[verifier::rlimit(50)]
proof fn lemma_decode_connectack(
    pk: GtsPacketView,
    ctx: GtsContext,
    profile: Option<StreamProfile>,
    buf: Seq<u8>,
    co: int,
    f: Seq<u8>,
)
    requires
        pk is ConnectAck,
        co == ctx.size_class.spec_bytes() - 4,
        buf.len() == co + 4,
        spec_encode_error(pk, ctx, profile, co) is None,
        f == spec_fields(pk, profile).0,
        f.len() <= co,
        pk matches GtsPacketView::Connect { css, .. } ==> css.len() == 16,
        forall|i: int| 0 <= i < f.len() ==> buf[i] == f[i],
        forall|i: int| f.len() <= i < co ==> buf[i] == 0,
    ensures
        spec_decode_body(buf, ctx, profile, co, pk.packet_type()) matches Ok((q, m)) && q == pk,
{
    if let GtsPacketView::ConnectAck { initiator_receive_tunnel, responder_receive_tunnel, responder_reset_id, .. } = pk {
        assert(f.subrange(1, 5) =~= u32_be(initiator_receive_tunnel));
        assert(f.subrange(5, 9) =~= u32_be(responder_receive_tunnel));
        assert(f.subrange(9, 13) =~= u32_be(responder_reset_id));
        lemma_read32(buf, f, 1, initiator_receive_tunnel);
        lemma_read32(buf, f, 5, responder_receive_tunnel);
        lemma_read32(buf, f, 9, responder_reset_id);
        assert(buf[13] == f[13] && buf[14] == f[14] && buf[15] == f[15]);
    }
}

/// StreamOpen reads back.
#[verifier::rlimit(50)]
proof fn lemma_decode_streamopen(
    pk: GtsPacketView,
    ctx: GtsContext,
    profile: Option<StreamProfile>,
    buf: Seq<u8>,
    co: int,
    f: Seq<u8>,
)
    requires
        pk is StreamOpen,
        co == ctx.size_class.spec_bytes() - 4,
        buf.len() == co + 4,
        spec_encode_error(pk, ctx, profile, co) is None,
        f == spec_fields(pk, profile).0,
        f.len() <= co,
        pk matches GtsPacketView::Connect { css, .. } ==> css.len() == 16,
        forall|i: int| 0 <= i < f.len() ==> buf[i] == f[i],
        forall|i: int| f.len() <= i < co ==> buf[i] == 0,
    ensures
        spec_decode_body(buf, ctx, profile, co, pk.packet_type()) matches Ok((q, m)) && q == pk,
{
    if let GtsPacketView::StreamOpen { tunnel_id, profile: sp, .. } = pk {
        assert(f.subrange(1, 5) =~= u32_be(tunnel_id));
        assert(f.subrange(6, 8) =~= u16_be(sp.spec_wire()));
        lemma_read32(buf, f, 1, tunnel_id);
        lemma_read16(buf, f, 6, sp.spec_wire());
        law_profile_roundtrip(sp);
        assert(buf[5] == f[5] && buf[8] == f[8] && buf[9] == f[9]);
    }
}

/// StreamAck reads back.
#[verifier::rlimit(50)]
proof fn lemma_decode_streamack(
    pk: GtsPacketView,
    ctx: GtsContext,
    profile: Option<StreamProfile>,
    buf: Seq<u8>,
    co: int,
    f: Seq<u8>,
)
    requires
        pk is StreamAck,
        co == ctx.size_class.spec_bytes() - 4,
        buf.len() == co + 4,
        spec_encode_error(pk, ctx, profile, co) is None,
        f == spec_fields(pk, profile).0,
        f.len() <= co,
        pk matches GtsPacketView::Connect { css, .. } ==> css.len() == 16,
        forall|i: int| 0 <= i < f.len() ==> buf[i] == f[i],
        forall|i: int| f.len() <= i < co ==> buf[i] == 0,
    ensures
        spec_decode_body(buf, ctx, profile, co, pk.packet_type()) matches Ok((q, m)) && q == pk,
{
    if let GtsPacketView::StreamAck { tunnel_id, .. } = pk {
        assert(f.subrange(1, 5) =~= u32_be(tunnel_id));
        lemma_read32(buf, f, 1, tunnel_id);
        assert(buf[5] == f[5] && buf[6] == f[6] && buf[7] == f[7] && buf[8] == f[8]);
    }
}

/// Ack reads back.
#[verifier::rlimit(50)]
proof fn lemma_decode_ack(
    pk: GtsPacketView,
    ctx: GtsContext,
    profile: Option<StreamProfile>,
    buf: Seq<u8>,
    co: int,
    f: Seq<u8>,
)
    requires
        pk is Ack,
        co == ctx.size_class.spec_bytes() - 4,
        buf.len() == co + 4,
        spec_encode_error(pk, ctx, profile, co) is None,
        f == spec_fields(pk, profile).0,
        f.len() <= co,
        pk matches GtsPacketView::Connect { css, .. } ==> css.len() == 16,
        forall|i: int| 0 <= i < f.len() ==> buf[i] == f[i],
        forall|i: int| f.len() <= i < co ==> buf[i] == 0,
    ensures
        spec_decode_body(buf, ctx, profile, co, pk.packet_type()) matches Ok((q, m)) && q == pk,
{
    if let GtsPacketView::Ack { tunnel_id, ack_base, receive_bitmap, .. } = pk {
        assert(f.subrange(1, 5) =~= u32_be(tunnel_id));
        assert(f.subrange(6, 10) =~= u32_be(ack_base));
        assert(f.subrange(10, 14) =~= u32_be(receive_bitmap));
        lemma_read32(buf, f, 1, tunnel_id);
        lemma_read32(buf, f, 6, ack_base);
        lemma_read32(buf, f, 10, receive_bitmap);
        assert(buf[5] == f[5] && buf[14] == f[14] && buf[15] == f[15]);
    }
}

/// StreamClose reads back.
#[verifier::rlimit(50)]
proof fn lemma_decode_streamclose(
    pk: GtsPacketView,
    ctx: GtsContext,
    profile: Option<StreamProfile>,
    buf: Seq<u8>,
    co: int,
    f: Seq<u8>,
)
    requires
        pk is StreamClose,
        co == ctx.size_class.spec_bytes() - 4,
        buf.len() == co + 4,
        spec_encode_error(pk, ctx, profile, co) is None,
        f == spec_fields(pk, profile).0,
        f.len() <= co,
        pk matches GtsPacketView::Connect { css, .. } ==> css.len() == 16,
        forall|i: int| 0 <= i < f.len() ==> buf[i] == f[i],
        forall|i: int| f.len() <= i < co ==> buf[i] == 0,
    ensures
        spec_decode_body(buf, ctx, profile, co, pk.packet_type()) matches Ok((q, m)) && q == pk,
{
    if let GtsPacketView::StreamClose { tunnel_id, final_sequence, .. } = pk {
        assert(f.subrange(1, 5) =~= u32_be(tunnel_id));
        assert(f.subrange(6, 10) =~= u32_be(final_sequence));
        lemma_read32(buf, f, 1, tunnel_id);
        lemma_read32(buf, f, 6, final_sequence);
        assert(buf[5] == f[5]);
    }
}

/// TunnelClose reads back.
#[verifier::rlimit(50)]
proof fn lemma_decode_tunnelclose(
    pk: GtsPacketView,
    ctx: GtsContext,
    profile: Option<StreamProfile>,
    buf: Seq<u8>,
    co: int,
    f: Seq<u8>,
)
    requires
        pk is TunnelClose,
        co == ctx.size_class.spec_bytes() - 4,
        buf.len() == co + 4,
        spec_encode_error(pk, ctx, profile, co) is None,
        f == spec_fields(pk, profile).0,
        f.len() <= co,
        pk matches GtsPacketView::Connect { css, .. } ==> css.len() == 16,
        forall|i: int| 0 <= i < f.len() ==> buf[i] == f[i],
        forall|i: int| f.len() <= i < co ==> buf[i] == 0,
    ensures
        spec_decode_body(buf, ctx, profile, co, pk.packet_type()) matches Ok((q, m)) && q == pk,
{
    if let GtsPacketView::TunnelClose { tunnel_id, .. } = pk {
        assert(f.subrange(1, 5) =~= u32_be(tunnel_id));
        lemma_read32(buf, f, 1, tunnel_id);
    }
}

/// Reset reads back.
#[verifier::rlimit(50)]
proof fn lemma_decode_reset(
    pk: GtsPacketView,
    ctx: GtsContext,
    profile: Option<StreamProfile>,
    buf: Seq<u8>,
    co: int,
    f: Seq<u8>,
)
    requires
        pk is Reset,
        co == ctx.size_class.spec_bytes() - 4,
        buf.len() == co + 4,
        spec_encode_error(pk, ctx, profile, co) is None,
        f == spec_fields(pk, profile).0,
        f.len() <= co,
        pk matches GtsPacketView::Connect { css, .. } ==> css.len() == 16,
        forall|i: int| 0 <= i < f.len() ==> buf[i] == f[i],
        forall|i: int| f.len() <= i < co ==> buf[i] == 0,
    ensures
        spec_decode_body(buf, ctx, profile, co, pk.packet_type()) matches Ok((q, m)) && q == pk,
{
    if let GtsPacketView::Reset { tunnel_id, reset_id, .. } = pk {
        assert(f.subrange(1, 5) =~= u32_be(tunnel_id));
        assert(f.subrange(5, 9) =~= u32_be(reset_id));
        lemma_read32(buf, f, 1, tunnel_id);
        lemma_read32(buf, f, 5, reset_id);
        assert(buf[9] == f[9]);
    }
}

/// StreamReset reads back.
#[verifier::rlimit(50)]
proof fn lemma_decode_streamreset(
    pk: GtsPacketView,
    ctx: GtsContext,
    profile: Option<StreamProfile>,
    buf: Seq<u8>,
    co: int,
    f: Seq<u8>,
)
    requires
        pk is StreamReset,
        co == ctx.size_class.spec_bytes() - 4,
        buf.len() == co + 4,
        spec_encode_error(pk, ctx, profile, co) is None,
        f == spec_fields(pk, profile).0,
        f.len() <= co,
        pk matches GtsPacketView::Connect { css, .. } ==> css.len() == 16,
        forall|i: int| 0 <= i < f.len() ==> buf[i] == f[i],
        forall|i: int| f.len() <= i < co ==> buf[i] == 0,
    ensures
        spec_decode_body(buf, ctx, profile, co, pk.packet_type()) matches Ok((q, m)) && q == pk,
{
    if let GtsPacketView::StreamReset { tunnel_id, .. } = pk {
        assert(f.subrange(1, 5) =~= u32_be(tunnel_id));
        lemma_read32(buf, f, 1, tunnel_id);
        assert(buf[5] == f[5] && buf[6] == f[6] && buf[7] == f[7]);
    }
}

/// DATA and DATA_END read back.
#[verifier::rlimit(80)]
proof fn lemma_decode_data(
    pk: GtsPacketView,
    ctx: GtsContext,
    profile: Option<StreamProfile>,
    buf: Seq<u8>,
    co: int,
    f: Seq<u8>,
)
    requires
        pk is Data,
        co == ctx.size_class.spec_bytes() - 4,
        buf.len() == co + 4,
        spec_encode_error(pk, ctx, profile, co) is None,
        f == spec_fields(pk, profile).0,
        f.len() <= co,
        forall|i: int| 0 <= i < f.len() ==> buf[i] == f[i],
        forall|i: int| f.len() <= i < co ==> buf[i] == 0,
    ensures
        spec_decode_body(buf, ctx, profile, co, pk.packet_type()) matches Ok((q, m)) && q == pk,
{
    if let GtsPacketView::Data { tunnel_id, stream_id, sequence, data, end } = pk {
        let p = profile->Some_0;
        let has_len = p.variable || end;
        let meta: int = if has_len { 12 } else { 10 };
        assert(f.subrange(1, 5) =~= u32_be(tunnel_id));
        assert(f.subrange(6, 10) =~= u32_be(sequence));
        lemma_read32(buf, f, 1, tunnel_id);
        lemma_read32(buf, f, 6, sequence);
        assert(buf[5] == f[5]);
        if has_len {
            assert(f.subrange(10, 12) =~= u16_be(data.len() as u16));
            lemma_read16(buf, f, 10, data.len() as u16);
        }
        assert(buf.subrange(meta, meta + data.len()) =~= data) by {
            assert forall|k: int| 0 <= k < data.len() implies buf[meta + k] == data[k] by {
                assert(f[meta + k] == data[k]);
            }
        }
    }
}

/// DATAGRAM reads back, with the CRC coverage the encoder used.
#[verifier::rlimit(100)]
proof fn lemma_decode_datagram(
    pk: GtsPacketView,
    ctx: GtsContext,
    profile: Option<StreamProfile>,
    buf: Seq<u8>,
    co: int,
    f: Seq<u8>,
)
    requires
        pk is Datagram,
        co == ctx.size_class.spec_bytes() - 4,
        buf.len() == co + 4,
        spec_encode_error(pk, ctx, profile, co) is None,
        f == spec_fields(pk, profile).0,
        f.len() <= co,
        forall|i: int| 0 <= i < f.len() ==> buf[i] == f[i],
        forall|i: int| f.len() <= i < co ==> buf[i] == 0,
    ensures
        spec_decode_body(buf, ctx, profile, co, pk.packet_type()) matches Ok((q, m)) && q == pk
            && m == spec_fields(pk, profile).1,
{
    if let GtsPacketView::Datagram { tunnel_id, stream_id, sequence, data } = pk {
        let p = profile->Some_0;
        let seq_end: int = if p.sequenced { 10 } else { 6 };
        let meta: int = if p.variable { seq_end + 2 } else { seq_end };
        assert(f.subrange(1, 5) =~= u32_be(tunnel_id));
        lemma_read32(buf, f, 1, tunnel_id);
        assert(buf[5] == f[5]);
        if p.sequenced {
            assert(f.subrange(6, 10) =~= u32_be(sequence->Some_0));
            lemma_read32(buf, f, 6, sequence->Some_0);
        }
        if p.variable {
            assert(f.subrange(seq_end, seq_end + 2) =~= u16_be(data.len() as u16));
            lemma_read16(buf, f, seq_end, data.len() as u16);
        }
        assert(buf.subrange(meta, meta + data.len()) =~= data) by {
            assert forall|k: int| 0 <= k < data.len() implies buf[meta + k] == data[k] by {
                assert(f[meta + k] == data[k]);
            }
        }
    }
}

} // verus!

use vstd::prelude::*;

use std::collections::VecDeque;

use crate::error::{Error, Result};
use crate::wire::bytes::{be32, read_u32, u32_be};
use crate::endpoint::EndpointConfig;
use crate::link::{
    fresh_dlp_state, link_down_state, sat_add, spec_grantable, spec_poll_tx_frame,
    spec_receive_frame, DlpConfig, DlpEndpoint, DlpState, Flit, GnetFrame, VcMode,
};
use crate::wire::gdp::{GdpAddress, GdpPacket};
use crate::dlp_handshake::{
    fresh_end, lemma_handshake, lemma_handshake_credit, negotiated_with, phase,
};

verus! {

pub const DLP_CONTROL_VERSION: u8 = 1;

pub const DLP_CONTROL_FRAME_LEN: usize = 4;

pub const DLP_CONTROL_PARAMETER_UNIT_FLITS: u32 = 4;

/// GNet 0.1 reserves this many physical flits for VC0 link-local GCTL.
/// It is a baseline link property, not receiver data credit and therefore is
/// neither discovered by peeking at the peer nor negotiated as ordinary credit.
pub const DLP_RESERVED_CONTROL_WINDOW_FLITS: u32 = 32;

/// Link-control operation.
#[derive(Debug, Clone, Copy, PartialEq, Eq, Structural)]
pub enum DlpControlOpcode {
    Hello,
    Capabilities,
    Reset,
    LinkParameters,
}

/// HELLO flavour.
#[derive(Debug, Clone, Copy, PartialEq, Eq, Structural)]
pub enum DlpHelloKind {
    Initial,
    Acknowledgement,
}

/// Step of a three-way capability or parameter exchange.
#[derive(Debug, Clone, Copy, PartialEq, Eq, Structural)]
pub enum DlpCapabilityKind {
    Offer,
    Selection,
    Confirmation,
}

pub open spec fn hello_kind_code(k: DlpHelloKind) -> u32 {
    match k {
        DlpHelloKind::Initial => 0,
        DlpHelloKind::Acknowledgement => 1,
    }
}

pub open spec fn cap_kind_code(k: DlpCapabilityKind) -> u32 {
    match k {
        DlpCapabilityKind::Offer => 0,
        DlpCapabilityKind::Selection => 1,
        DlpCapabilityKind::Confirmation => 2,
    }
}

fn hello_kind_to_wire(k: DlpHelloKind) -> (r: u32)
    ensures
        r == hello_kind_code(k),
{
    match k {
        DlpHelloKind::Initial => 0,
        DlpHelloKind::Acknowledgement => 1,
    }
}

fn cap_kind_to_wire(k: DlpCapabilityKind) -> (r: u32)
    ensures
        r == cap_kind_code(k),
{
    match k {
        DlpCapabilityKind::Offer => 0,
        DlpCapabilityKind::Selection => 1,
        DlpCapabilityKind::Confirmation => 2,
    }
}

pub open spec fn spec_hello_kind(v: u32) -> Result<DlpHelloKind> {
    if v == 0 {
        Ok(DlpHelloKind::Initial)
    } else if v == 1 {
        Ok(DlpHelloKind::Acknowledgement)
    } else {
        Err(Error::InvalidField)
    }
}

pub open spec fn spec_cap_kind(v: u32) -> Result<DlpCapabilityKind> {
    if v == 0 {
        Ok(DlpCapabilityKind::Offer)
    } else if v == 1 {
        Ok(DlpCapabilityKind::Selection)
    } else if v == 2 {
        Ok(DlpCapabilityKind::Confirmation)
    } else {
        Err(Error::InvalidField)
    }
}

fn hello_kind_from_wire(v: u32) -> (r: Result<DlpHelloKind>)
    ensures
        r == spec_hello_kind(v),
{
    if v == 0 {
        Ok(DlpHelloKind::Initial)
    } else if v == 1 {
        Ok(DlpHelloKind::Acknowledgement)
    } else {
        Err(Error::InvalidField)
    }
}

fn cap_kind_from_wire(v: u32) -> (r: Result<DlpCapabilityKind>)
    ensures
        r == spec_cap_kind(v),
{
    if v == 0 {
        Ok(DlpCapabilityKind::Offer)
    } else if v == 1 {
        Ok(DlpCapabilityKind::Selection)
    } else if v == 2 {
        Ok(DlpCapabilityKind::Confirmation)
    } else {
        Err(Error::InvalidField)
    }
}

/// State of link bring-up.
#[derive(Debug, Clone, Copy, PartialEq, Eq, Structural)]
pub enum DlpControlState {
    Down,
    Hello,
    Negotiate,
    CreditSync,
    Up,
    Resetting,
}

/// One 32-bit logical GLCP control flit.
///
/// HELLO, CAPABILITIES and RESET follow the canonical GNet 0.1 layouts. The
/// LinkParameters opcode is the smolgnet v0.1 extension used to negotiate the
/// receive-window and burst limits required by the executable DLP model. It is
/// still exactly one 32-bit logical control flit and is generation-scoped like
/// the baseline operations.
#[derive(Debug, Clone, Copy, PartialEq, Eq, Structural)]
pub enum DlpControlFrame {
    Hello { kind: DlpHelloKind, sender_generation: u8, peer_generation: u8 },
    Capabilities { kind: DlpCapabilityKind, sender_generation: u8, profiles: u8, rates: u8 },
    Reset { sender_generation: u8, reason: u8 },
    LinkParameters {
        kind: DlpCapabilityKind,
        sender_generation: u8,
        rx_window_units: u8,
        burst_units: u8,
    },
}

/// The 32-bit control word of a frame.
pub open spec fn spec_control_word(f: DlpControlFrame) -> u32 {
    match f {
        DlpControlFrame::Hello { kind, sender_generation, peer_generation } => (1u32 << 28u32) | (1u32
            << 24u32) | (hello_kind_code(kind) << 22u32) | (((sender_generation & 0x3f) as u32)
            << 16u32) | (((peer_generation & 0x3f) as u32) << 10u32),
        DlpControlFrame::Capabilities { kind, sender_generation, profiles, rates } => (2u32
            << 28u32) | (1u32 << 24u32) | (((sender_generation & 0x3f) as u32) << 18u32) | (
        cap_kind_code(kind) << 16u32) | (((profiles & 0x0f) as u32) << 12u32) | (((rates & 0x07)
            as u32) << 9u32),
        DlpControlFrame::Reset { sender_generation, reason } => (3u32 << 28u32) | (1u32 << 24u32)
            | (((sender_generation & 0x3f) as u32) << 18u32) | (((reason & 0x0f) as u32)
            << 14u32),
        DlpControlFrame::LinkParameters {
            kind,
            sender_generation,
            rx_window_units,
            burst_units,
        } => (8u32 << 28u32) | (1u32 << 24u32) | (((sender_generation & 0x3f) as u32) << 18u32)
            | (cap_kind_code(kind) << 16u32) | ((rx_window_units as u32) << 8u32) | (
        burst_units as u32),
    }
}

/// `v` is a single set bit.
pub open spec fn one_bit(v: u32) -> bool {
    v == 1 || v == 2 || v == 4 || v == 8 || v == 16 || v == 32 || v == 64 || v == 128
}

fn is_one_bit(v: u32) -> (r: bool)
    ensures
        r == one_bit(v),
{
    v == 1 || v == 2 || v == 4 || v == 8 || v == 16 || v == 32 || v == 64 || v == 128
}

/// Frame decoded from the control word `w`.
pub open spec fn spec_decode_word(w: u32) -> Result<DlpControlFrame> {
    let op = (w >> 28u32) & 0xfu32;
    let version = (w >> 24u32) & 0xfu32;
    if !(op == 1 || op == 2 || op == 3 || op == 8) {
        Err(Error::Unsupported)
    } else if version != 1 {
        Err(Error::Unsupported)
    } else if op == 1 {
        if w & 0x3ffu32 != 0 {
            Err(Error::NonCanonical)
        } else {
            match spec_hello_kind((w >> 22u32) & 0x3u32) {
                Err(e) => Err(e),
                Ok(kind) => {
                    let sg = ((w >> 16u32) & 0x3fu32) as u8;
                    let pg = ((w >> 10u32) & 0x3fu32) as u8;
                    if sg == 0 {
                        Err(Error::InvalidField)
                    } else if kind == DlpHelloKind::Initial && pg != 0 {
                        Err(Error::InvalidField)
                    } else if kind == DlpHelloKind::Acknowledgement && pg == 0 {
                        Err(Error::InvalidField)
                    } else {
                        Ok(
                            DlpControlFrame::Hello {
                                kind,
                                sender_generation: sg,
                                peer_generation: pg,
                            },
                        )
                    }
                },
            }
        }
    } else if op == 2 {
        if w & 0x1ffu32 != 0 {
            Err(Error::NonCanonical)
        } else {
            let sg = ((w >> 18u32) & 0x3fu32) as u8;
            match spec_cap_kind((w >> 16u32) & 0x3u32) {
                Err(e) => Err(e),
                Ok(kind) => {
                    let profiles = (w >> 12u32) & 0xfu32;
                    let rates = (w >> 9u32) & 0x7u32;
                    if sg == 0 || profiles == 0 || rates == 0 {
                        Err(Error::InvalidField)
                    } else if kind != DlpCapabilityKind::Offer && (!one_bit(profiles) || !one_bit(
                        rates,
                    )) {
                        Err(Error::InvalidField)
                    } else {
                        Ok(
                            DlpControlFrame::Capabilities {
                                kind,
                                sender_generation: sg,
                                profiles: profiles as u8,
                                rates: rates as u8,
                            },
                        )
                    }
                },
            }
        }
    } else if op == 3 {
        if w & 0x3fffu32 != 0 {
            Err(Error::NonCanonical)
        } else {
            let sg = ((w >> 18u32) & 0x3fu32) as u8;
            let reason = ((w >> 14u32) & 0xfu32) as u8;
            if sg == 0 {
                Err(Error::InvalidField)
            } else {
                Ok(DlpControlFrame::Reset { sender_generation: sg, reason })
            }
        }
    } else {
        let sg = ((w >> 18u32) & 0x3fu32) as u8;
        match spec_cap_kind((w >> 16u32) & 0x3u32) {
            Err(e) => Err(e),
            Ok(kind) => {
                let rx = ((w >> 8u32) & 0xffu32) as u8;
                let burst = (w & 0xffu32) as u8;
                if sg == 0 || rx == 0 || burst == 0 {
                    Err(Error::InvalidField)
                } else {
                    Ok(
                        DlpControlFrame::LinkParameters {
                            kind,
                            sender_generation: sg,
                            rx_window_units: rx,
                            burst_units: burst,
                        },
                    )
                }
            },
        }
    }
}

/// Frame decoded from `bytes`.
pub open spec fn spec_control_decode(bytes: Seq<u8>) -> Result<DlpControlFrame> {
    if bytes.len() != 4 {
        Err(Error::InvalidLength)
    } else {
        spec_decode_word(be32(bytes, 0) as u32)
    }
}

impl DlpControlFrame {
    pub open spec fn spec_opcode(self) -> DlpControlOpcode {
        match self {
            DlpControlFrame::Hello { .. } => DlpControlOpcode::Hello,
            DlpControlFrame::Capabilities { .. } => DlpControlOpcode::Capabilities,
            DlpControlFrame::Reset { .. } => DlpControlOpcode::Reset,
            DlpControlFrame::LinkParameters { .. } => DlpControlOpcode::LinkParameters,
        }
    }

    pub open spec fn spec_sender_generation(self) -> u8 {
        match self {
            DlpControlFrame::Hello { sender_generation, .. } => sender_generation,
            DlpControlFrame::Capabilities { sender_generation, .. } => sender_generation,
            DlpControlFrame::Reset { sender_generation, .. } => sender_generation,
            DlpControlFrame::LinkParameters { sender_generation, .. } => sender_generation,
        }
    }

    pub fn opcode(self) -> (r: DlpControlOpcode)
        ensures
            r == self.spec_opcode(),
    {
        match self {
            DlpControlFrame::Hello { .. } => DlpControlOpcode::Hello,
            DlpControlFrame::Capabilities { .. } => DlpControlOpcode::Capabilities,
            DlpControlFrame::Reset { .. } => DlpControlOpcode::Reset,
            DlpControlFrame::LinkParameters { .. } => DlpControlOpcode::LinkParameters,
        }
    }

    pub fn sender_generation(self) -> (r: u8)
        ensures
            r == self.spec_sender_generation(),
    {
        match self {
            DlpControlFrame::Hello { sender_generation, .. } => sender_generation,
            DlpControlFrame::Capabilities { sender_generation, .. } => sender_generation,
            DlpControlFrame::Reset { sender_generation, .. } => sender_generation,
            DlpControlFrame::LinkParameters { sender_generation, .. } => sender_generation,
        }
    }

    /// The four big-endian bytes of the control word.
    pub fn encode(self) -> (r: [u8; DLP_CONTROL_FRAME_LEN])
        ensures
            r@ == u32_be(spec_control_word(self)),
    {
        let word: u32 = match self {
            DlpControlFrame::Hello { kind, sender_generation, peer_generation } => (1u32 << 28u32)
                | (1u32 << 24u32) | (hello_kind_to_wire(kind) << 22u32) | (((sender_generation
                & 0x3f) as u32) << 16u32) | (((peer_generation & 0x3f) as u32) << 10u32),
            DlpControlFrame::Capabilities { kind, sender_generation, profiles, rates } => (2u32
                << 28u32) | (1u32 << 24u32) | (((sender_generation & 0x3f) as u32) << 18u32) | (
            cap_kind_to_wire(kind) << 16u32) | (((profiles & 0x0f) as u32) << 12u32) | (((rates
                & 0x07) as u32) << 9u32),
            DlpControlFrame::Reset { sender_generation, reason } => (3u32 << 28u32) | (1u32
                << 24u32) | (((sender_generation & 0x3f) as u32) << 18u32) | (((reason & 0x0f)
                as u32) << 14u32),
            DlpControlFrame::LinkParameters {
                kind,
                sender_generation,
                rx_window_units,
                burst_units,
            } => (8u32 << 28u32) | (1u32 << 24u32) | (((sender_generation & 0x3f) as u32)
                << 18u32) | (cap_kind_to_wire(kind) << 16u32) | ((rx_window_units as u32) << 8u32)
                | (burst_units as u32),
        };
        let r = [
            (word / 16777216) as u8,
            ((word / 65536) % 256) as u8,
            ((word / 256) % 256) as u8,
            (word % 256) as u8,
        ];
        assert(r@ =~= u32_be(word));
        r
    }

    /// Decodes one control flit.
    pub fn decode(bytes: &[u8]) -> (r: Result<Self>)
        ensures
            r == spec_control_decode(bytes@),
    {
        if bytes.len() != DLP_CONTROL_FRAME_LEN {
            return Err(Error::InvalidLength);
        }
        let w = read_u32(bytes, 0);
        let op = (w >> 28u32) & 0xfu32;
        let version = (w >> 24u32) & 0xfu32;
        if !(op == 1 || op == 2 || op == 3 || op == 8) {
            return Err(Error::Unsupported);
        }
        if version != 1 {
            return Err(Error::Unsupported);
        }
        if op == 1 {
            if w & 0x3ffu32 != 0 {
                return Err(Error::NonCanonical);
            }
            let kind = hello_kind_from_wire((w >> 22u32) & 0x3u32)?;
            let sg = ((w >> 16u32) & 0x3fu32) as u8;
            let pg = ((w >> 10u32) & 0x3fu32) as u8;
            if sg == 0 {
                return Err(Error::InvalidField);
            }
            if kind == DlpHelloKind::Initial && pg != 0 {
                return Err(Error::InvalidField);
            }
            if kind == DlpHelloKind::Acknowledgement && pg == 0 {
                return Err(Error::InvalidField);
            }
            Ok(DlpControlFrame::Hello { kind, sender_generation: sg, peer_generation: pg })
        } else if op == 2 {
            if w & 0x1ffu32 != 0 {
                return Err(Error::NonCanonical);
            }
            let sg = ((w >> 18u32) & 0x3fu32) as u8;
            let kind = cap_kind_from_wire((w >> 16u32) & 0x3u32)?;
            let profiles = (w >> 12u32) & 0xfu32;
            let rates = (w >> 9u32) & 0x7u32;
            if sg == 0 || profiles == 0 || rates == 0 {
                return Err(Error::InvalidField);
            }
            if kind != DlpCapabilityKind::Offer && (!is_one_bit(profiles) || !is_one_bit(rates)) {
                return Err(Error::InvalidField);
            }
            Ok(
                DlpControlFrame::Capabilities {
                    kind,
                    sender_generation: sg,
                    profiles: profiles as u8,
                    rates: rates as u8,
                },
            )
        } else if op == 3 {
            if w & 0x3fffu32 != 0 {
                return Err(Error::NonCanonical);
            }
            let sg = ((w >> 18u32) & 0x3fu32) as u8;
            let reason = ((w >> 14u32) & 0xfu32) as u8;
            if sg == 0 {
                return Err(Error::InvalidField);
            }
            Ok(DlpControlFrame::Reset { sender_generation: sg, reason })
        } else {
            let sg = ((w >> 18u32) & 0x3fu32) as u8;
            let kind = cap_kind_from_wire((w >> 16u32) & 0x3u32)?;
            let rx = ((w >> 8u32) & 0xffu32) as u8;
            let burst = (w & 0xffu32) as u8;
            if sg == 0 || rx == 0 || burst == 0 {
                return Err(Error::InvalidField);
            }
            Ok(
                DlpControlFrame::LinkParameters {
                    kind,
                    sender_generation: sg,
                    rx_window_units: rx,
                    burst_units: burst,
                },
            )
        }
    }
}

} // verus!

verus! {

/// Field values that the control-word layout can carry and decoding accepts.
pub open spec fn control_frame_canonical(f: DlpControlFrame) -> bool {
    match f {
        DlpControlFrame::Hello { kind, sender_generation, peer_generation } => 1 <= sender_generation
            <= 63 && peer_generation <= 63 && ((kind == DlpHelloKind::Initial) <==> (peer_generation
            == 0)),
        DlpControlFrame::Capabilities { kind, sender_generation, profiles, rates } => 1
            <= sender_generation <= 63 && 1 <= profiles <= 15 && 1 <= rates <= 7 && (kind
            != DlpCapabilityKind::Offer ==> one_bit(profiles as u32) && one_bit(rates as u32)),
        DlpControlFrame::Reset { sender_generation, reason } => 1 <= sender_generation <= 63
            && reason <= 15,
        DlpControlFrame::LinkParameters { sender_generation, rx_window_units, burst_units, .. } => 1
            <= sender_generation <= 63 && rx_window_units != 0 && burst_units != 0,
    }
}

proof fn lemma_small_masks(x: u8)
    ensures
        x <= 63 ==> (x & 0x3f) == x,
        x <= 15 ==> (x & 0x0f) == x,
        x <= 7 ==> (x & 0x07) == x,
{
    assert(x <= 63 ==> (x & 0x3f) == x) by (bit_vector);
    assert(x <= 15 ==> (x & 0x0f) == x) by (bit_vector);
    assert(x <= 7 ==> (x & 0x07) == x) by (bit_vector);
}

proof fn lemma_hello_word(k: u32, s: u32, p: u32)
    requires
        k <= 1,
        s <= 63,
        p <= 63,
    ensures
        ({
            let w = (1u32 << 28u32) | (1u32 << 24u32) | (k << 22u32) | (s << 16u32) | (p << 10u32);
            &&& (w >> 28u32) & 0xfu32 == 1
            &&& (w >> 24u32) & 0xfu32 == 1
            &&& w & 0x3ffu32 == 0
            &&& (w >> 22u32) & 0x3u32 == k
            &&& (w >> 16u32) & 0x3fu32 == s
            &&& (w >> 10u32) & 0x3fu32 == p
        }),
{
    assert({
        let w = (1u32 << 28u32) | (1u32 << 24u32) | (k << 22u32) | (s << 16u32) | (p << 10u32);
        &&& (w >> 28u32) & 0xfu32 == 1
        &&& (w >> 24u32) & 0xfu32 == 1
        &&& w & 0x3ffu32 == 0
        &&& (w >> 22u32) & 0x3u32 == k
        &&& (w >> 16u32) & 0x3fu32 == s
        &&& (w >> 10u32) & 0x3fu32 == p
    }) by (bit_vector)
        requires
            k <= 1,
            s <= 63,
            p <= 63,
    ;
}

proof fn lemma_caps_word(k: u32, s: u32, p: u32, r: u32)
    requires
        k <= 2,
        s <= 63,
        p <= 15,
        r <= 7,
    ensures
        ({
            let w = (2u32 << 28u32) | (1u32 << 24u32) | (s << 18u32) | (k << 16u32) | (p << 12u32)
                | (r << 9u32);
            &&& (w >> 28u32) & 0xfu32 == 2
            &&& (w >> 24u32) & 0xfu32 == 1
            &&& w & 0x1ffu32 == 0
            &&& (w >> 18u32) & 0x3fu32 == s
            &&& (w >> 16u32) & 0x3u32 == k
            &&& (w >> 12u32) & 0xfu32 == p
            &&& (w >> 9u32) & 0x7u32 == r
        }),
{
    assert({
        let w = (2u32 << 28u32) | (1u32 << 24u32) | (s << 18u32) | (k << 16u32) | (p << 12u32) | (r
            << 9u32);
        &&& (w >> 28u32) & 0xfu32 == 2
        &&& (w >> 24u32) & 0xfu32 == 1
        &&& w & 0x1ffu32 == 0
        &&& (w >> 18u32) & 0x3fu32 == s
        &&& (w >> 16u32) & 0x3u32 == k
        &&& (w >> 12u32) & 0xfu32 == p
        &&& (w >> 9u32) & 0x7u32 == r
    }) by (bit_vector)
        requires
            k <= 2,
            s <= 63,
            p <= 15,
            r <= 7,
    ;
}

proof fn lemma_reset_word(s: u32, r: u32)
    requires
        s <= 63,
        r <= 15,
    ensures
        ({
            let w = (3u32 << 28u32) | (1u32 << 24u32) | (s << 18u32) | (r << 14u32);
            &&& (w >> 28u32) & 0xfu32 == 3
            &&& (w >> 24u32) & 0xfu32 == 1
            &&& w & 0x3fffu32 == 0
            &&& (w >> 18u32) & 0x3fu32 == s
            &&& (w >> 14u32) & 0xfu32 == r
        }),
{
    assert({
        let w = (3u32 << 28u32) | (1u32 << 24u32) | (s << 18u32) | (r << 14u32);
        &&& (w >> 28u32) & 0xfu32 == 3
        &&& (w >> 24u32) & 0xfu32 == 1
        &&& w & 0x3fffu32 == 0
        &&& (w >> 18u32) & 0x3fu32 == s
        &&& (w >> 14u32) & 0xfu32 == r
    }) by (bit_vector)
        requires
            s <= 63,
            r <= 15,
    ;
}

proof fn lemma_params_word(k: u32, s: u32, x: u32, b: u32)
    requires
        k <= 2,
        s <= 63,
        x <= 255,
        b <= 255,
    ensures
        ({
            let w = (8u32 << 28u32) | (1u32 << 24u32) | (s << 18u32) | (k << 16u32) | (x << 8u32)
                | b;
            &&& (w >> 28u32) & 0xfu32 == 8
            &&& (w >> 24u32) & 0xfu32 == 1
            &&& (w >> 18u32) & 0x3fu32 == s
            &&& (w >> 16u32) & 0x3u32 == k
            &&& (w >> 8u32) & 0xffu32 == x
            &&& w & 0xffu32 == b
        }),
{
    assert({
        let w = (8u32 << 28u32) | (1u32 << 24u32) | (s << 18u32) | (k << 16u32) | (x << 8u32) | b;
        &&& (w >> 28u32) & 0xfu32 == 8
        &&& (w >> 24u32) & 0xfu32 == 1
        &&& (w >> 18u32) & 0x3fu32 == s
        &&& (w >> 16u32) & 0x3u32 == k
        &&& (w >> 8u32) & 0xffu32 == x
        &&& w & 0xffu32 == b
    }) by (bit_vector)
        requires
            k <= 2,
            s <= 63,
            x <= 255,
            b <= 255,
    ;
}

/// Decoding an encoded canonical control frame gives it back.
pub proof fn law_control_frame_roundtrip(f: DlpControlFrame)
    requires
        control_frame_canonical(f),
    ensures
        spec_control_decode(u32_be(spec_control_word(f))) == Ok::<DlpControlFrame, Error>(f),
{
    crate::wire::bytes::lemma_u32_roundtrip(spec_control_word(f));
    match f {
        DlpControlFrame::Hello { kind, sender_generation, peer_generation } => {
            lemma_small_masks(sender_generation);
            lemma_small_masks(peer_generation);
            lemma_hello_word(hello_kind_code(kind), sender_generation as u32, peer_generation as u32);
        },
        DlpControlFrame::Capabilities { kind, sender_generation, profiles, rates } => {
            lemma_small_masks(sender_generation);
            lemma_small_masks(profiles);
            lemma_small_masks(rates);
            lemma_caps_word(cap_kind_code(kind), sender_generation as u32, profiles as u32, rates as u32);
        },
        DlpControlFrame::Reset { sender_generation, reason } => {
            lemma_small_masks(sender_generation);
            lemma_small_masks(reason);
            lemma_reset_word(sender_generation as u32, reason as u32);
        },
        DlpControlFrame::LinkParameters { kind, sender_generation, rx_window_units, burst_units } => {
            lemma_small_masks(sender_generation);
            lemma_params_word(cap_kind_code(kind), sender_generation as u32, rx_window_units as u32, burst_units as u32);
        },
    }
}

} // verus!

verus! {

/// Largest parameter value that fits the one-byte unit encoding.
pub open spec fn valid_parameter(value: u32) -> bool {
    value != 0 && value % 4 == 0 && value / 4 <= 255
}

fn validate_parameter_value(value: u32) -> (r: Result<()>)
    ensures
        valid_parameter(value) ==> r is Ok,
        !valid_parameter(value) ==> r == Err::<(), Error>(Error::InvalidField),
{
    match encode_parameter_units(value) {
        Ok(_) => Ok(()),
        Err(e) => Err(e),
    }
}

fn encode_parameter_units(value: u32) -> (r: Result<u8>)
    ensures
        valid_parameter(value) ==> r == Ok::<u8, Error>((value / 4) as u8),
        !valid_parameter(value) ==> r == Err::<u8, Error>(Error::InvalidField),
{
    if value == 0 || value % DLP_CONTROL_PARAMETER_UNIT_FLITS != 0 {
        return Err(Error::InvalidField);
    }
    let units = value / DLP_CONTROL_PARAMETER_UNIT_FLITS;
    if units == 0 || units > 255 {
        return Err(Error::InvalidField);
    }
    Ok(units as u8)
}

fn decode_parameter_units(units: u8) -> (r: Result<u32>)
    ensures
        units == 0 ==> r == Err::<u32, Error>(Error::InvalidField),
        units != 0 ==> r == Ok::<u32, Error>((units as u32 * 4) as u32),
{
    if units == 0 {
        return Err(Error::InvalidField);
    }
    Ok(units as u32 * DLP_CONTROL_PARAMETER_UNIT_FLITS)
}

/// Generation that follows `g`; generations run from 1 to 63 and wrap to 1.
pub open spec fn next_gen(g: u8) -> u8 {
    if g >= 63 {
        1
    } else {
        (g + 1) as u8
    }
}

fn next_generation(generation: u8) -> (r: u8)
    ensures
        r == next_gen(generation),
        1 <= r <= 63,
{
    if generation >= 63 {
        1
    } else {
        generation + 1
    }
}

pub open spec fn spec_supported_flags(max_mode: VcMode) -> u8 {
    match max_mode {
        VcMode::Two => 1,
        VcMode::Four => 3,
    }
}

pub open spec fn spec_mode_flag(mode: VcMode) -> u8 {
    match mode {
        VcMode::Two => 1,
        VcMode::Four => 2,
    }
}

fn supported_mode_flags(max_mode: VcMode) -> (r: u8)
    ensures
        r == spec_supported_flags(max_mode),
{
    match max_mode {
        VcMode::Two => 1,
        VcMode::Four => 3,
    }
}

fn selected_mode_flag(mode: VcMode) -> (r: u8)
    ensures
        r == spec_mode_flag(mode),
{
    match mode {
        VcMode::Two => 1,
        VcMode::Four => 2,
    }
}

/// Largest virtual-channel profile both sides support.
pub open spec fn spec_choose_vc_mode(local_max: VcMode, peer_flags: u8) -> Result<VcMode> {
    let common = spec_supported_flags(local_max) & peer_flags;
    if common & 2 != 0 {
        Ok(VcMode::Four)
    } else if common & 1 != 0 {
        Ok(VcMode::Two)
    } else {
        Err(Error::Unsupported)
    }
}

fn choose_vc_mode(local_max: VcMode, peer_flags: u8) -> (r: Result<VcMode>)
    ensures
        r == spec_choose_vc_mode(local_max, peer_flags),
{
    let local = supported_mode_flags(local_max);
    let common = local & peer_flags;
    if common & 2 != 0 {
        Ok(VcMode::Four)
    } else if common & 1 != 0 {
        Ok(VcMode::Two)
    } else {
        Err(Error::Unsupported)
    }
}

/// Highest rate bit both sides support.
pub open spec fn spec_choose_rate(local_rates: u8, peer_rates: u8) -> Result<u8> {
    let common = (local_rates & peer_rates) & 0x07;
    if common & 4 != 0 {
        Ok(4)
    } else if common & 2 != 0 {
        Ok(2)
    } else if common & 1 != 0 {
        Ok(1)
    } else {
        Err(Error::Unsupported)
    }
}

fn choose_rate(local_rates: u8, peer_rates: u8) -> (r: Result<u8>)
    ensures
        r == spec_choose_rate(local_rates, peer_rates),
{
    let common = (local_rates & peer_rates) & 0x07;
    if common & 4 != 0 {
        Ok(4)
    } else if common & 2 != 0 {
        Ok(2)
    } else if common & 1 != 0 {
        Ok(1)
    } else {
        Err(Error::Unsupported)
    }
}

/// The generation that follows any generation is itself a valid generation,
/// and differs from it.
pub proof fn law_next_generation(g: u8)
    requires
        1 <= g <= 63,
    ensures
        1 <= next_gen(g) <= 63,
        next_gen(g) != g,
{
}

} // verus!

verus! {

/// Profile installed when negotiation completes.
#[derive(Debug, Clone, Copy, PartialEq, Eq, Structural)]
pub struct DlpNegotiatedProfile {
    pub vc_mode: VcMode,
    pub burst_flits: u32,
    pub peer_rx_buffer_flits: u32,
    pub peer_control_window_flits: u32,
}

/// Control-plane state of a managed endpoint.
pub struct ManagedView {
    pub dlp: DlpState,
    pub config: EndpointConfig,
    pub address: GdpAddress,
    pub max_burst_flits: u32,
    pub state: DlpControlState,
    pub negotiated: Option<DlpNegotiatedProfile>,
    pub local_generation: u8,
    pub peer_generation: Option<u8>,
    pub control_tx: Seq<DlpControlFrame>,
    pub hello_ack_sent: bool,
    pub hello_ack_received: bool,
    pub cap_offer_sent: bool,
    /// The peer's capability offer: profiles and rates.
    pub peer_cap_offer: Option<(u8, u8)>,
    pub selected_mode: Option<VcMode>,
    pub selected_rate: Option<u8>,
    pub cap_selection_sent: bool,
    pub cap_confirmation_sent: bool,
    pub cap_confirmation_received: bool,
    pub params_offer_sent: bool,
    /// The peer's parameter offer: receive buffer and burst, in flits.
    pub peer_params_offer: Option<(u32, u32)>,
    pub selected_peer_rx: Option<u32>,
    pub selected_burst: Option<u32>,
    pub params_selection_sent: bool,
    pub params_confirmation_sent: bool,
    pub params_confirmation_received: bool,
}

/// Negotiation progress forgotten; generations and queue kept.
pub open spec fn cleared(v: ManagedView) -> ManagedView {
    ManagedView {
        negotiated: None,
        hello_ack_sent: false,
        hello_ack_received: false,
        cap_offer_sent: false,
        peer_cap_offer: None,
        selected_mode: None,
        selected_rate: None,
        cap_selection_sent: false,
        cap_confirmation_sent: false,
        cap_confirmation_received: false,
        params_offer_sent: false,
        peer_params_offer: None,
        selected_peer_rx: None,
        selected_burst: None,
        params_selection_sent: false,
        params_confirmation_sent: false,
        params_confirmation_received: false,
        ..v
    }
}

pub open spec fn hello_initial(g: u8) -> DlpControlFrame {
    DlpControlFrame::Hello { kind: DlpHelloKind::Initial, sender_generation: g, peer_generation: 0 }
}

/// Link taken down, optionally a new generation, negotiation restarted with a HELLO.
pub open spec fn restarted(v: ManagedView, increment: bool, preserve: bool) -> ManagedView {
    let g = if increment {
        next_gen(v.local_generation)
    } else {
        v.local_generation
    };
    let q = if preserve {
        v.control_tx
    } else {
        Seq::empty()
    };
    ManagedView {
        dlp: link_down_state(v.dlp),
        local_generation: g,
        control_tx: q.push(hello_initial(g)),
        state: DlpControlState::Hello,
        ..cleared(v)
    }
}

/// HELLO acknowledgement of `peer` queued.
pub open spec fn hello_acked(v: ManagedView, peer: u8) -> ManagedView {
    ManagedView {
        control_tx: v.control_tx.push(
            DlpControlFrame::Hello {
                kind: DlpHelloKind::Acknowledgement,
                sender_generation: v.local_generation,
                peer_generation: peer,
            },
        ),
        hello_ack_sent: true,
        ..v
    }
}

/// Once HELLO is complete both ways, offers are sent and negotiation begins.
pub open spec fn started(v: ManagedView) -> ManagedView {
    if !v.hello_ack_sent || !v.hello_ack_received || v.peer_generation is None {
        v
    } else {
        let q1 = if !v.cap_offer_sent {
            v.control_tx.push(
                DlpControlFrame::Capabilities {
                    kind: DlpCapabilityKind::Offer,
                    sender_generation: v.local_generation,
                    profiles: spec_supported_flags(v.config.vc_mode),
                    rates: 7,
                },
            )
        } else {
            v.control_tx
        };
        let q2 = if !v.params_offer_sent {
            q1.push(
                DlpControlFrame::LinkParameters {
                    kind: DlpCapabilityKind::Offer,
                    sender_generation: v.local_generation,
                    rx_window_units: (v.config.rx_buffer_flits / 4) as u8,
                    burst_units: (v.max_burst_flits / 4) as u8,
                },
            )
        } else {
            q1
        };
        ManagedView {
            state: DlpControlState::Negotiate,
            control_tx: q2,
            cap_offer_sent: true,
            params_offer_sent: true,
            ..v
        }
    }
}

/// Effect of an initial HELLO from generation `sg`.
pub open spec fn spec_hello_initial(v: ManagedView, sg: u8) -> (ManagedView, Result<()>) {
    let step: Option<ManagedView> = match v.peer_generation {
        Some(cur) => if sg != cur {
            if sg != next_gen(cur) {
                None
            } else {
                let live = v.state == DlpControlState::Negotiate || v.state
                    == DlpControlState::CreditSync || v.state == DlpControlState::Up;
                Some(restarted(v, live, false))
            }
        } else {
            Some(v)
        },
        None => Some(v),
    };
    match step {
        None => (v, Ok(())),
        Some(v1) => if v.peer_generation is None && v.state == DlpControlState::Down {
            (v, Err(Error::InvalidState))
        } else {
            let v2 = hello_acked(ManagedView { peer_generation: Some(sg), ..v1 }, sg);
            (started(v2), Ok(()))
        },
    }
}

/// Effect of a HELLO acknowledgement from generation `sg` of our generation `pg`.
pub open spec fn spec_hello_ack(v: ManagedView, sg: u8, pg: u8) -> (ManagedView, Result<()>) {
    if pg != v.local_generation {
        (v, Ok(()))
    } else {
        let step: Option<ManagedView> = match v.peer_generation {
            Some(g) => if g != sg {
                if sg != next_gen(g) {
                    None
                } else {
                    let r = restarted(v, true, false);
                    Some(hello_acked(ManagedView { peer_generation: Some(sg), ..r }, sg))
                }
            } else {
                Some(v)
            },
            None => Some(hello_acked(ManagedView { peer_generation: Some(sg), ..v }, sg)),
        };
        match step {
            None => (v, Ok(())),
            Some(v1) => (started(ManagedView { hello_ack_received: true, ..v1 }), Ok(())),
        }
    }
}

/// Effect of a HELLO.
pub open spec fn spec_on_hello(v: ManagedView, kind: DlpHelloKind, sg: u8, pg: u8) -> (ManagedView, Result<()>) {
    match kind {
        DlpHelloKind::Initial => spec_hello_initial(v, sg),
        DlpHelloKind::Acknowledgement => spec_hello_ack(v, sg, pg),
    }
}

/// Profile installation once both exchanges are confirmed both ways.
pub open spec fn spec_install(v: ManagedView) -> ManagedView {
    if v.state != DlpControlState::Negotiate || !v.cap_confirmation_sent
        || !v.cap_confirmation_received || !v.params_confirmation_sent
        || !v.params_confirmation_received || v.selected_mode is None || v.selected_burst is None
        || v.selected_peer_rx is None {
        v
    } else {
        let mode = v.selected_mode->0;
        let cfg = DlpConfig {
            gdp: v.config.gdp_wire,
            local_prefix: (match v.config.local_context_prefix {
                Some(p) => p,
                None => 0,
            }) & !0xffffu64,
            vc_mode: mode,
            rx_buffer_flits: v.config.rx_buffer_flits,
            control_window_flits: DLP_RESERVED_CONTROL_WINDOW_FLITS,
        };
        ManagedView {
            dlp: fresh_dlp_state(cfg),
            negotiated: Some(
                DlpNegotiatedProfile {
                    vc_mode: mode,
                    burst_flits: v.selected_burst->0,
                    peer_rx_buffer_flits: v.selected_peer_rx->0,
                    peer_control_window_flits: DLP_RESERVED_CONTROL_WINDOW_FLITS,
                },
            ),
            state: DlpControlState::CreditSync,
            ..v
        }
    }
}

/// Installation fails only when a confirmed exchange left no selection.
pub open spec fn install_result(v: ManagedView) -> Result<()> {
    if v.state != DlpControlState::Negotiate || !v.cap_confirmation_sent
        || !v.cap_confirmation_received || !v.params_confirmation_sent
        || !v.params_confirmation_received {
        Ok(())
    } else if v.selected_mode is None || v.selected_burst is None || v.selected_peer_rx is None {
        Err(Error::InvalidState)
    } else {
        Ok(())
    }
}

/// CAPABILITIES offer: remembered, must not change, answered with a selection.
pub open spec fn spec_caps_offer(v: ManagedView, profiles: u8, rates: u8) -> (ManagedView, Result<()>) {
    match v.peer_cap_offer {
        Some(old) => if old.0 != profiles || old.1 != rates {
            (v, Err(Error::InvalidField))
        } else {
            offer_step(v, profiles, rates)
        },
        None => offer_step(ManagedView { peer_cap_offer: Some((profiles, rates)), ..v }, profiles, rates),
    }
}

/// CAPABILITIES selection: must match what the peer's offer selects; confirmed once.
pub open spec fn spec_caps_selection(v: ManagedView, profiles: u8, rates: u8) -> (ManagedView, Result<()>) {
    match v.peer_cap_offer {
        None => (v, Err(Error::InvalidState)),
        Some(offer) => match spec_choose_vc_mode(v.config.vc_mode, offer.0) {
            Err(e) => (v, Err(e)),
            Ok(mode) => match spec_choose_rate(7, offer.1) {
                Err(e) => (v, Err(e)),
                Ok(rate) => if profiles != spec_mode_flag(mode) || rates != rate {
                    (v, Err(Error::InvalidField))
                } else if !v.cap_confirmation_sent {
                    (ManagedView {
                        control_tx: v.control_tx.push(
                            DlpControlFrame::Capabilities {
                                kind: DlpCapabilityKind::Confirmation,
                                sender_generation: v.local_generation,
                                profiles,
                                rates,
                            },
                        ),
                        cap_confirmation_sent: true,
                        ..v
                    }, Ok(()))
                } else {
                    (v, Ok(()))
                },
            },
        },
    }
}

/// CAPABILITIES confirmation: must echo our selection.
pub open spec fn spec_caps_confirmation(v: ManagedView, profiles: u8, rates: u8) -> (ManagedView, Result<()>) {
    if v.selected_mode is None || v.selected_rate is None {
        (v, Err(Error::InvalidState))
    } else if profiles != spec_mode_flag(v.selected_mode->0) || rates != v.selected_rate->0 {
        (v, Err(Error::InvalidField))
    } else {
        (ManagedView { cap_confirmation_received: true, ..v }, Ok(()))
    }
}

/// After a successful step, the profile is installed when everything is confirmed.
pub open spec fn then_install(step: (ManagedView, Result<()>)) -> (ManagedView, Result<()>) {
    match step.1 {
        Err(e) => (step.0, Err(e)),
        Ok(_) => (spec_install(step.0), install_result(step.0)),
    }
}

/// Effect of a current-generation CAPABILITIES frame.
pub open spec fn spec_on_capabilities(v: ManagedView, kind: DlpCapabilityKind, profiles: u8, rates: u8) -> (ManagedView, Result<()>) {
    if v.state != DlpControlState::Negotiate {
        (v, Err(Error::InvalidState))
    } else {
        then_install(
            match kind {
                DlpCapabilityKind::Offer => spec_caps_offer(v, profiles, rates),
                DlpCapabilityKind::Selection => spec_caps_selection(v, profiles, rates),
                DlpCapabilityKind::Confirmation => spec_caps_confirmation(v, profiles, rates),
            },
        )
    }
}

/// A capability offer selects the best common mode and rate.
pub open spec fn offer_step(v: ManagedView, profiles: u8, rates: u8) -> (ManagedView, Result<()>) {
    match spec_choose_vc_mode(v.config.vc_mode, profiles) {
        Err(e) => (v, Err(e)),
        Ok(mode) => match spec_choose_rate(7, rates) {
            Err(e) => (v, Err(e)),
            Ok(rate) => {
                let v1 = ManagedView { selected_mode: Some(mode), selected_rate: Some(rate), ..v };
                if !v.cap_selection_sent {
                    (ManagedView {
                        control_tx: v1.control_tx.push(
                            DlpControlFrame::Capabilities {
                                kind: DlpCapabilityKind::Selection,
                                sender_generation: v.local_generation,
                                profiles: spec_mode_flag(mode),
                                rates: rate,
                            },
                        ),
                        cap_selection_sent: true,
                        ..v1
                    }, Ok(()))
                } else {
                    (v1, Ok(()))
                }
            },
        },
    }
}

/// Smaller of two values.
pub open spec fn min_u32(a: u32, b: u32) -> u32 {
    if a <= b {
        a
    } else {
        b
    }
}

/// LINK_PARAMETERS offer: remembered, must not change, answered with a selection.
pub open spec fn spec_params_offer(v: ManagedView, rx_units: u8, rx: u32, burst: u32) -> (ManagedView, Result<()>) {
    let v0: Option<ManagedView> = match v.peer_params_offer {
        Some(old) => if old.0 != rx || old.1 != burst {
            None
        } else {
            Some(v)
        },
        None => Some(ManagedView { peer_params_offer: Some((rx, burst)), ..v }),
    };
    match v0 {
        None => (v, Err(Error::InvalidField)),
        Some(v0) => {
            let sb = min_u32(v.max_burst_flits, burst);
            let v1 = ManagedView { selected_peer_rx: Some(rx), selected_burst: Some(sb), ..v0 };
            if !v.params_selection_sent {
                (ManagedView {
                    control_tx: v1.control_tx.push(
                        DlpControlFrame::LinkParameters {
                            kind: DlpCapabilityKind::Selection,
                            sender_generation: v.local_generation,
                            rx_window_units: rx_units,
                            burst_units: (sb / 4) as u8,
                        },
                    ),
                    params_selection_sent: true,
                    ..v1
                }, Ok(()))
            } else {
                (v1, Ok(()))
            }
        },
    }
}

/// LINK_PARAMETERS selection: must name our receive buffer and the smaller burst; confirmed once.
pub open spec fn spec_params_selection(v: ManagedView, rx_units: u8, burst_units: u8, rx: u32, burst: u32) -> (ManagedView, Result<()>) {
    match v.peer_params_offer {
        None => (v, Err(Error::InvalidState)),
        Some(offer) => if rx != v.config.rx_buffer_flits || burst != min_u32(
            v.max_burst_flits,
            offer.1,
        ) {
            (v, Err(Error::InvalidField))
        } else if !v.params_confirmation_sent {
            (ManagedView {
                control_tx: v.control_tx.push(
                    DlpControlFrame::LinkParameters {
                        kind: DlpCapabilityKind::Confirmation,
                        sender_generation: v.local_generation,
                        rx_window_units: rx_units,
                        burst_units,
                    },
                ),
                params_confirmation_sent: true,
                ..v
            }, Ok(()))
        } else {
            (v, Ok(()))
        },
    }
}

/// LINK_PARAMETERS confirmation: must echo our selection.
pub open spec fn spec_params_confirmation(v: ManagedView, rx: u32, burst: u32) -> (ManagedView, Result<()>) {
    if v.selected_peer_rx is None || v.selected_burst is None {
        (v, Err(Error::InvalidState))
    } else if rx != v.selected_peer_rx->0 || burst != v.selected_burst->0 {
        (v, Err(Error::InvalidField))
    } else {
        (ManagedView { params_confirmation_received: true, ..v }, Ok(()))
    }
}

/// Effect of a current-generation LINK_PARAMETERS frame.
pub open spec fn spec_on_link_parameters(v: ManagedView, kind: DlpCapabilityKind, rx_units: u8, burst_units: u8) -> (ManagedView, Result<()>) {
    if v.state != DlpControlState::Negotiate {
        (v, Err(Error::InvalidState))
    } else if rx_units == 0 || burst_units == 0 {
        (v, Err(Error::InvalidField))
    } else {
        let rx = (rx_units as u32 * 4) as u32;
        let burst = (burst_units as u32 * 4) as u32;
        then_install(
            match kind {
                DlpCapabilityKind::Offer => spec_params_offer(v, rx_units, rx, burst),
                DlpCapabilityKind::Selection => spec_params_selection(v, rx_units, burst_units, rx, burst),
                DlpCapabilityKind::Confirmation => spec_params_confirmation(v, rx, burst),
            },
        )
    }
}

/// Effect of a RESET.
pub open spec fn spec_on_reset(v: ManagedView, sg: u8) -> ManagedView {
    if v.peer_generation != Some(sg) {
        v
    } else {
        let g = next_gen(v.local_generation);
        ManagedView {
            dlp: link_down_state(v.dlp),
            peer_generation: None,
            local_generation: g,
            control_tx: seq![hello_initial(g)],
            state: DlpControlState::Hello,
            ..cleared(v)
        }
    }
}

/// Effect of one received control flit.
pub open spec fn spec_receive_control(v: ManagedView, bytes: Seq<u8>) -> (ManagedView, Result<()>) {
    match spec_control_decode(bytes) {
        Err(e) => (v, Err(e)),
        Ok(frame) => match frame {
            DlpControlFrame::Hello { kind, sender_generation, peer_generation } => spec_on_hello(
                v,
                kind,
                sender_generation,
                peer_generation,
            ),
            DlpControlFrame::Reset { sender_generation, .. } => (spec_on_reset(v, sender_generation), Ok(())),
            DlpControlFrame::Capabilities { kind, sender_generation, profiles, rates } => if v.peer_generation
                != Some(sender_generation) {
                (v, Ok(()))
            } else {
                spec_on_capabilities(v, kind, profiles, rates)
            },
            DlpControlFrame::LinkParameters { kind, sender_generation, rx_window_units, burst_units } =>
                if v.peer_generation != Some(sender_generation) {
                (v, Ok(()))
            } else {
                spec_on_link_parameters(v, kind, rx_window_units, burst_units)
            },
        },
    }
}

} // verus!

verus! {

#[derive(Debug, Clone, Copy)]
struct PeerCapabilityOffer {
    profiles: u8,
    rates: u8,
}

#[derive(Debug, Clone, Copy)]
struct PeerParameterOffer {
    rx_buffer_flits: u32,
    max_burst_flits: u32,
}

/// An endpoint whose link is brought up by the GLCP control exchange.
#[derive(Debug, Clone)]
pub struct DlpManagedEndpoint {
    dlp: DlpEndpoint,
    endpoint_config: EndpointConfig,
    address: GdpAddress,
    max_burst_flits: u32,
    state: DlpControlState,
    negotiated: Option<DlpNegotiatedProfile>,
    local_generation: u8,
    peer_generation: Option<u8>,
    control_tx: VecDeque<DlpControlFrame>,
    hello_ack_sent: bool,
    hello_ack_received: bool,
    cap_offer_sent: bool,
    peer_cap_offer: Option<PeerCapabilityOffer>,
    selected_mode: Option<VcMode>,
    selected_rate: Option<u8>,
    cap_selection_sent: bool,
    cap_confirmation_sent: bool,
    cap_confirmation_received: bool,
    params_offer_sent: bool,
    peer_params_offer: Option<PeerParameterOffer>,
    selected_peer_rx: Option<u32>,
    selected_burst: Option<u32>,
    params_selection_sent: bool,
    params_confirmation_sent: bool,
    params_confirmation_received: bool,
}

impl View for DlpManagedEndpoint {
    type V = ManagedView;

    closed spec fn view(&self) -> ManagedView {
        ManagedView {
            dlp: self.dlp@,
            config: self.endpoint_config,
            address: self.address,
            max_burst_flits: self.max_burst_flits,
            state: self.state,
            negotiated: self.negotiated,
            local_generation: self.local_generation,
            peer_generation: self.peer_generation,
            control_tx: self.control_tx@,
            hello_ack_sent: self.hello_ack_sent,
            hello_ack_received: self.hello_ack_received,
            cap_offer_sent: self.cap_offer_sent,
            peer_cap_offer: match self.peer_cap_offer {
                Some(o) => Some((o.profiles, o.rates)),
                None => None,
            },
            selected_mode: self.selected_mode,
            selected_rate: self.selected_rate,
            cap_selection_sent: self.cap_selection_sent,
            cap_confirmation_sent: self.cap_confirmation_sent,
            cap_confirmation_received: self.cap_confirmation_received,
            params_offer_sent: self.params_offer_sent,
            peer_params_offer: match self.peer_params_offer {
                Some(o) => Some((o.rx_buffer_flits, o.max_burst_flits)),
                None => None,
            },
            selected_peer_rx: self.selected_peer_rx,
            selected_burst: self.selected_burst,
            params_selection_sent: self.params_selection_sent,
            params_confirmation_sent: self.params_confirmation_sent,
            params_confirmation_received: self.params_confirmation_received,
        }
    }
}

/// Invariant of the control plane.
pub open spec fn managed_inv(v: ManagedView) -> bool {
    &&& valid_parameter(v.config.rx_buffer_flits)
    &&& valid_parameter(v.max_burst_flits)
    &&& 1 <= v.local_generation <= 63
    &&& (v.selected_burst matches Some(b) ==> valid_parameter(b))
    &&& (v.selected_peer_rx matches Some(x) ==> valid_parameter(x))
    &&& (v.peer_params_offer matches Some(o) ==> valid_parameter(o.0) && valid_parameter(o.1))
}

impl DlpManagedEndpoint {
    pub closed spec fn wf(&self) -> bool {
        &&& self.dlp.wf()
        &&& managed_inv(self@)
    }

    /// A managed endpoint with its link down and no negotiation started.
    pub fn new(address: GdpAddress, config: EndpointConfig, max_burst_flits: u32) -> (r: Result<Self>)
        ensures
            !valid_parameter(config.rx_buffer_flits) ==> r == Err::<Self, Error>(Error::InvalidField),
            valid_parameter(config.rx_buffer_flits) && !valid_parameter(max_burst_flits) ==> r
                == Err::<Self, Error>(Error::InvalidField),
            valid_parameter(config.rx_buffer_flits) && valid_parameter(max_burst_flits)
                && config.control_window_flits != DLP_RESERVED_CONTROL_WINDOW_FLITS ==> r == Err::<
                Self,
                Error,
            >(Error::InvalidField),
            valid_parameter(config.rx_buffer_flits) && valid_parameter(max_burst_flits)
                && config.control_window_flits == DLP_RESERVED_CONTROL_WINDOW_FLITS ==> r is Ok && ({
                let v = r->Ok_0@;
                &&& r->Ok_0.wf()
                &&& v.dlp == link_down_state(fresh_dlp_state(initial_link_config(config)))
                &&& v.config == config
                &&& v.address == address
                &&& v.max_burst_flits == max_burst_flits
                &&& v.state == DlpControlState::Down
                &&& v.local_generation == 1
                &&& v.peer_generation is None
                &&& v.control_tx.len() == 0
                &&& v == cleared(v)
            }),
    {
        validate_parameter_value(config.rx_buffer_flits)?;
        validate_parameter_value(max_burst_flits)?;
        if config.control_window_flits != DLP_RESERVED_CONTROL_WINDOW_FLITS {
            return Err(Error::InvalidField);
        }
        let link_config = DlpConfig {
            gdp: config.gdp_wire,
            local_prefix: match config.local_context_prefix {
                Some(p) => p,
                None => 0,
            },
            vc_mode: config.vc_mode,
            rx_buffer_flits: config.rx_buffer_flits,
            control_window_flits: config.control_window_flits,
        };
        let mut dlp = match DlpEndpoint::new(link_config) {
            Ok(d) => d,
            Err(e) => {
                return Err(e);
            },
        };
        dlp.set_link_up(false);
        let r = DlpManagedEndpoint {
            dlp,
            endpoint_config: config,
            address,
            max_burst_flits,
            state: DlpControlState::Down,
            negotiated: None,
            local_generation: 1,
            peer_generation: None,
            control_tx: VecDeque::new(),
            hello_ack_sent: false,
            hello_ack_received: false,
            cap_offer_sent: false,
            peer_cap_offer: None,
            selected_mode: None,
            selected_rate: None,
            cap_selection_sent: false,
            cap_confirmation_sent: false,
            cap_confirmation_received: false,
            params_offer_sent: false,
            peer_params_offer: None,
            selected_peer_rx: None,
            selected_burst: None,
            params_selection_sent: false,
            params_confirmation_sent: false,
            params_confirmation_received: false,
        };
        Ok(r)
    }

    pub fn control_state(&self) -> (r: DlpControlState)
        ensures
            r == self@.state,
    {
        self.state
    }

    pub fn negotiated_profile(&self) -> (r: Option<DlpNegotiatedProfile>)
        ensures
            r == self@.negotiated,
    {
        self.negotiated
    }

    pub fn local_generation(&self) -> (r: u8)
        ensures
            r == self@.local_generation,
    {
        self.local_generation
    }

    pub fn peer_generation(&self) -> (r: Option<u8>)
        ensures
            r == self@.peer_generation,
    {
        self.peer_generation
    }

    /// Whether control frames wait to be sent.
    pub fn control_pending(&self) -> (r: bool)
        ensures
            r == (self@.control_tx.len() > 0),
    {
        self.control_tx.len() > 0
    }

    /// The link endpoint underneath.
    pub fn dlp(&self) -> (r: &DlpEndpoint)
        ensures
            r@ == self@.dlp,
    {
        &self.dlp
    }

    /// The endpoint's own GDP address.
    pub fn address(&self) -> (r: GdpAddress)
        ensures
            r == self@.address,
    {
        self.address
    }

    fn clear_negotiation_state(&mut self)
        ensures
            final(self)@ == cleared(old(self)@),
            final(self).dlp == old(self).dlp,
    {
        self.negotiated = None;
        self.hello_ack_sent = false;
        self.hello_ack_received = false;
        self.cap_offer_sent = false;
        self.peer_cap_offer = None;
        self.selected_mode = None;
        self.selected_rate = None;
        self.cap_selection_sent = false;
        self.cap_confirmation_sent = false;
        self.cap_confirmation_received = false;
        self.params_offer_sent = false;
        self.peer_params_offer = None;
        self.selected_peer_rx = None;
        self.selected_burst = None;
        self.params_selection_sent = false;
        self.params_confirmation_sent = false;
        self.params_confirmation_received = false;
    }

    fn queue_hello_initial(&mut self)
        ensures
            final(self)@ == (ManagedView {
                control_tx: old(self)@.control_tx.push(hello_initial(old(self)@.local_generation)),
                ..old(self)@
            }),
            final(self).dlp == old(self).dlp,
    {
        self.control_tx.push_back(
            DlpControlFrame::Hello {
                kind: DlpHelloKind::Initial,
                sender_generation: self.local_generation,
                peer_generation: 0,
            },
        );
    }

    fn queue_hello_ack(&mut self, peer_generation: u8)
        ensures
            final(self)@ == hello_acked(old(self)@, peer_generation),
            final(self).dlp == old(self).dlp,
    {
        self.control_tx.push_back(
            DlpControlFrame::Hello {
                kind: DlpHelloKind::Acknowledgement,
                sender_generation: self.local_generation,
                peer_generation,
            },
        );
        self.hello_ack_sent = true;
    }

    fn restart_negotiation(&mut self, increment_generation: bool, preserve_control: bool)
        requires
            old(self).wf(),
        ensures
            final(self).wf(),
            final(self)@ == restarted(old(self)@, increment_generation, preserve_control),
    {
        self.dlp.set_link_up(false);
        if increment_generation {
            self.local_generation = next_generation(self.local_generation);
        }
        if !preserve_control {
            self.control_tx.clear();
        }
        self.clear_negotiation_state();
        self.state = DlpControlState::Hello;
        self.queue_hello_initial();
    }

    fn maybe_start_capability_exchange(&mut self) -> (r: Result<()>)
        requires
            old(self).wf(),
        ensures
            final(self).wf(),
            final(self)@ == started(old(self)@),
            r == Ok::<(), Error>(()),
    {
        if !self.hello_ack_sent || !self.hello_ack_received || self.peer_generation.is_none() {
            return Ok(());
        }
        self.state = DlpControlState::Negotiate;
        if !self.cap_offer_sent {
            self.control_tx.push_back(
                DlpControlFrame::Capabilities {
                    kind: DlpCapabilityKind::Offer,
                    sender_generation: self.local_generation,
                    profiles: supported_mode_flags(self.endpoint_config.vc_mode),
                    rates: 7,
                },
            );
            self.cap_offer_sent = true;
        }
        if !self.params_offer_sent {
            let rx_window_units = encode_parameter_units(self.endpoint_config.rx_buffer_flits)?;
            let burst_units = encode_parameter_units(self.max_burst_flits)?;
            self.control_tx.push_back(
                DlpControlFrame::LinkParameters {
                    kind: DlpCapabilityKind::Offer,
                    sender_generation: self.local_generation,
                    rx_window_units,
                    burst_units,
                },
            );
            self.params_offer_sent = true;
        }
        Ok(())
    }
}

/// The link configuration a managed endpoint starts from.
pub open spec fn initial_link_config(config: EndpointConfig) -> DlpConfig {
    DlpConfig {
        gdp: config.gdp_wire,
        local_prefix: match config.local_context_prefix {
            Some(p) => p,
            None => 0,
        },
        vc_mode: config.vc_mode,
        rx_buffer_flits: config.rx_buffer_flits,
        control_window_flits: config.control_window_flits,
    }
}

} // verus!

verus! {

impl DlpManagedEndpoint {
    #[verifier::rlimit(100)]
    fn on_hello_initial(&mut self, sender_generation: u8) -> (r: Result<()>)
        requires
            old(self).wf(),
        ensures
            final(self).wf(),
            (final(self)@, r) == spec_hello_initial(old(self)@, sender_generation),
    {
        match self.peer_generation {
            Some(current) => {
                if sender_generation != current {
                    if sender_generation != next_generation(current) {
                        return Ok(());
                    }
                    let was_live = self.state == DlpControlState::Negotiate || self.state
                        == DlpControlState::CreditSync || self.state == DlpControlState::Up;
                    self.restart_negotiation(was_live, false);
                }
            },
            None => {
                if self.state == DlpControlState::Down {
                    return Err(Error::InvalidState);
                }
            },
        }
        self.peer_generation = Some(sender_generation);
        self.queue_hello_ack(sender_generation);
        self.maybe_start_capability_exchange()
    }

    #[verifier::rlimit(100)]
    fn on_hello_ack(&mut self, sender_generation: u8, peer_generation: u8) -> (r: Result<()>)
        requires
            old(self).wf(),
        ensures
            final(self).wf(),
            (final(self)@, r) == spec_hello_ack(old(self)@, sender_generation, peer_generation),
    {
        if peer_generation != self.local_generation {
            return Ok(());
        }
        match self.peer_generation {
            Some(g) => {
                if g != sender_generation {
                    if sender_generation != next_generation(g) {
                        return Ok(());
                    }
                    self.restart_negotiation(true, false);
                    self.peer_generation = Some(sender_generation);
                    self.queue_hello_ack(sender_generation);
                }
            },
            None => {
                self.peer_generation = Some(sender_generation);
                self.queue_hello_ack(sender_generation);
            },
        }
        self.hello_ack_received = true;
        self.maybe_start_capability_exchange()
    }

    fn on_hello(&mut self, kind: DlpHelloKind, sender_generation: u8, peer_generation: u8) -> (r: Result<()>)
        requires
            old(self).wf(),
        ensures
            final(self).wf(),
            (final(self)@, r) == spec_on_hello(old(self)@, kind, sender_generation, peer_generation),
    {
        match kind {
            DlpHelloKind::Initial => self.on_hello_initial(sender_generation),
            DlpHelloKind::Acknowledgement => self.on_hello_ack(sender_generation, peer_generation),
        }
    }

    fn maybe_install_profile(&mut self) -> (r: Result<()>)
        requires
            old(self).wf(),
        ensures
            final(self).wf(),
            final(self)@ == spec_install(old(self)@),
            r == install_result(old(self)@),
    {
        if self.state != DlpControlState::Negotiate || !self.cap_confirmation_sent
            || !self.cap_confirmation_received || !self.params_confirmation_sent
            || !self.params_confirmation_received {
            return Ok(());
        }
        let mode = match self.selected_mode {
            Some(m) => m,
            None => {
                return Err(Error::InvalidState);
            },
        };
        let burst = match self.selected_burst {
            Some(b) => b,
            None => {
                return Err(Error::InvalidState);
            },
        };
        let peer_rx = match self.selected_peer_rx {
            Some(x) => x,
            None => {
                return Err(Error::InvalidState);
            },
        };
        let prefix = match self.endpoint_config.local_context_prefix {
            Some(p) => p,
            None => 0,
        };
        let cfg = DlpConfig {
            gdp: self.endpoint_config.gdp_wire,
            local_prefix: prefix & !0xffffu64,
            vc_mode: mode,
            rx_buffer_flits: self.endpoint_config.rx_buffer_flits,
            control_window_flits: DLP_RESERVED_CONTROL_WINDOW_FLITS,
        };
        let dlp = match DlpEndpoint::new(cfg) {
            Ok(d) => d,
            Err(e) => {
                return Err(e);
            },
        };
        proof {
            let p = prefix;
            assert((p & !0xffffu64) & !0xffffu64 == p & !0xffffu64) by (bit_vector);
        }
        self.dlp = dlp;
        self.negotiated = Some(
            DlpNegotiatedProfile {
                vc_mode: mode,
                burst_flits: burst,
                peer_rx_buffer_flits: peer_rx,
                peer_control_window_flits: DLP_RESERVED_CONTROL_WINDOW_FLITS,
            },
        );
        self.state = DlpControlState::CreditSync;
        Ok(())
    }

    fn offer_capabilities(&mut self, profiles: u8, rates: u8) -> (r: Result<()>)
        requires
            old(self).wf(),
        ensures
            final(self).wf(),
            (final(self)@, r) == offer_step(old(self)@, profiles, rates),
    {
        let mode = choose_vc_mode(self.endpoint_config.vc_mode, profiles)?;
        let rate = choose_rate(7, rates)?;
        self.selected_mode = Some(mode);
        self.selected_rate = Some(rate);
        if !self.cap_selection_sent {
            self.control_tx.push_back(
                DlpControlFrame::Capabilities {
                    kind: DlpCapabilityKind::Selection,
                    sender_generation: self.local_generation,
                    profiles: selected_mode_flag(mode),
                    rates: rate,
                },
            );
            self.cap_selection_sent = true;
        }
        Ok(())
    }

    fn caps_offer(&mut self, profiles: u8, rates: u8) -> (r: Result<()>)
        requires
            old(self).wf(),
        ensures
            final(self).wf(),
            (final(self)@, r) == spec_caps_offer(old(self)@, profiles, rates),
    {
        match self.peer_cap_offer {
            Some(old) => {
                if old.profiles != profiles || old.rates != rates {
                    return Err(Error::InvalidField);
                }
            },
            None => {
                self.peer_cap_offer = Some(PeerCapabilityOffer { profiles, rates });
            },
        }
        self.offer_capabilities(profiles, rates)
    }

    fn caps_selection(&mut self, profiles: u8, rates: u8) -> (r: Result<()>)
        requires
            old(self).wf(),
        ensures
            final(self).wf(),
            (final(self)@, r) == spec_caps_selection(old(self)@, profiles, rates),
    {
        let offer = match self.peer_cap_offer {
            Some(o) => o,
            None => {
                return Err(Error::InvalidState);
            },
        };
        let expected_mode = choose_vc_mode(self.endpoint_config.vc_mode, offer.profiles)?;
        let expected_rate = choose_rate(7, offer.rates)?;
        if profiles != selected_mode_flag(expected_mode) || rates != expected_rate {
            return Err(Error::InvalidField);
        }
        if !self.cap_confirmation_sent {
            self.control_tx.push_back(
                DlpControlFrame::Capabilities {
                    kind: DlpCapabilityKind::Confirmation,
                    sender_generation: self.local_generation,
                    profiles,
                    rates,
                },
            );
            self.cap_confirmation_sent = true;
        }
        Ok(())
    }

    fn caps_confirmation(&mut self, profiles: u8, rates: u8) -> (r: Result<()>)
        requires
            old(self).wf(),
        ensures
            final(self).wf(),
            (final(self)@, r) == spec_caps_confirmation(old(self)@, profiles, rates),
    {
        let mode = match self.selected_mode {
            Some(m) => m,
            None => {
                return Err(Error::InvalidState);
            },
        };
        let rate = match self.selected_rate {
            Some(x) => x,
            None => {
                return Err(Error::InvalidState);
            },
        };
        if profiles != selected_mode_flag(mode) || rates != rate {
            return Err(Error::InvalidField);
        }
        self.cap_confirmation_received = true;
        Ok(())
    }

    fn on_capabilities(&mut self, kind: DlpCapabilityKind, profiles: u8, rates: u8) -> (r: Result<()>)
        requires
            old(self).wf(),
        ensures
            final(self).wf(),
            (final(self)@, r) == spec_on_capabilities(old(self)@, kind, profiles, rates),
    {
        if self.state != DlpControlState::Negotiate {
            return Err(Error::InvalidState);
        }
        let step = match kind {
            DlpCapabilityKind::Offer => self.caps_offer(profiles, rates),
            DlpCapabilityKind::Selection => self.caps_selection(profiles, rates),
            DlpCapabilityKind::Confirmation => self.caps_confirmation(profiles, rates),
        };
        step?;
        self.maybe_install_profile()
    }

    #[verifier::rlimit(60)]
    fn params_offer(&mut self, rx_window_units: u8, rx: u32, burst: u32) -> (r: Result<()>)
        requires
            old(self).wf(),
            rx_window_units != 0,
            rx == rx_window_units * 4,
            valid_parameter(burst),
        ensures
            final(self).wf(),
            (final(self)@, r) == spec_params_offer(old(self)@, rx_window_units, rx, burst),
    {
        match self.peer_params_offer {
            Some(old) => {
                if old.rx_buffer_flits != rx || old.max_burst_flits != burst {
                    return Err(Error::InvalidField);
                }
            },
            None => {
                self.peer_params_offer = Some(
                    PeerParameterOffer { rx_buffer_flits: rx, max_burst_flits: burst },
                );
            },
        }
        let selected_burst = if self.max_burst_flits <= burst {
            self.max_burst_flits
        } else {
            burst
        };
        self.selected_peer_rx = Some(rx);
        self.selected_burst = Some(selected_burst);
        if !self.params_selection_sent {
            let rx_units = encode_parameter_units(rx)?;
            let sb_units = encode_parameter_units(selected_burst)?;
            self.control_tx.push_back(
                DlpControlFrame::LinkParameters {
                    kind: DlpCapabilityKind::Selection,
                    sender_generation: self.local_generation,
                    rx_window_units: rx_units,
                    burst_units: sb_units,
                },
            );
            self.params_selection_sent = true;
        }
        Ok(())
    }

    fn params_selection(&mut self, rx_window_units: u8, burst_units: u8, rx: u32, burst: u32) -> (r: Result<()>)
        requires
            old(self).wf(),
        ensures
            final(self).wf(),
            (final(self)@, r) == spec_params_selection(old(self)@, rx_window_units, burst_units, rx, burst),
    {
        let offer = match self.peer_params_offer {
            Some(o) => o,
            None => {
                return Err(Error::InvalidState);
            },
        };
        let expected_burst = if self.max_burst_flits <= offer.max_burst_flits {
            self.max_burst_flits
        } else {
            offer.max_burst_flits
        };
        if rx != self.endpoint_config.rx_buffer_flits || burst != expected_burst {
            return Err(Error::InvalidField);
        }
        if !self.params_confirmation_sent {
            self.control_tx.push_back(
                DlpControlFrame::LinkParameters {
                    kind: DlpCapabilityKind::Confirmation,
                    sender_generation: self.local_generation,
                    rx_window_units,
                    burst_units,
                },
            );
            self.params_confirmation_sent = true;
        }
        Ok(())
    }

    fn params_confirmation(&mut self, rx: u32, burst: u32) -> (r: Result<()>)
        requires
            old(self).wf(),
        ensures
            final(self).wf(),
            (final(self)@, r) == spec_params_confirmation(old(self)@, rx, burst),
    {
        let peer_rx = match self.selected_peer_rx {
            Some(x) => x,
            None => {
                return Err(Error::InvalidState);
            },
        };
        let selected_burst = match self.selected_burst {
            Some(b) => b,
            None => {
                return Err(Error::InvalidState);
            },
        };
        if rx != peer_rx || burst != selected_burst {
            return Err(Error::InvalidField);
        }
        self.params_confirmation_received = true;
        Ok(())
    }

    fn on_link_parameters(&mut self, kind: DlpCapabilityKind, rx_window_units: u8, burst_units: u8) -> (r: Result<()>)
        requires
            old(self).wf(),
        ensures
            final(self).wf(),
            (final(self)@, r) == spec_on_link_parameters(old(self)@, kind, rx_window_units, burst_units),
    {
        if self.state != DlpControlState::Negotiate {
            return Err(Error::InvalidState);
        }
        let rx = decode_parameter_units(rx_window_units)?;
        let burst = decode_parameter_units(burst_units)?;
        let step = match kind {
            DlpCapabilityKind::Offer => self.params_offer(rx_window_units, rx, burst),
            DlpCapabilityKind::Selection => self.params_selection(rx_window_units, burst_units, rx, burst),
            DlpCapabilityKind::Confirmation => self.params_confirmation(rx, burst),
        };
        step?;
        self.maybe_install_profile()
    }

    fn on_reset(&mut self, sender_generation: u8)
        requires
            old(self).wf(),
        ensures
            final(self).wf(),
            final(self)@ == spec_on_reset(old(self)@, sender_generation),
    {
        if self.peer_generation != Some(sender_generation) {
            return;
        }
        self.dlp.set_link_up(false);
        self.control_tx.clear();
        self.peer_generation = None;
        self.local_generation = next_generation(self.local_generation);
        self.clear_negotiation_state();
        self.state = DlpControlState::Hello;
        self.queue_hello_initial();
        assert(self@.control_tx =~= seq![hello_initial(self@.local_generation)]);
    }
}

} // verus!

verus! {

/// State after the carrier is lost.
pub open spec fn carrier_lost(v: ManagedView) -> ManagedView {
    ManagedView {
        dlp: link_down_state(v.dlp),
        control_tx: Seq::empty(),
        peer_generation: None,
        state: DlpControlState::Down,
        ..cleared(v)
    }
}

/// State after a locally requested reset with `reason`.
pub open spec fn reset_requested(v: ManagedView, reason: u8) -> ManagedView {
    let g = next_gen(v.local_generation);
    ManagedView {
        dlp: link_down_state(v.dlp),
        control_tx: seq![
            DlpControlFrame::Reset { sender_generation: v.local_generation, reason },
            hello_initial(g),
        ],
        local_generation: g,
        peer_generation: None,
        state: DlpControlState::Hello,
        ..cleared(v)
    }
}

impl DlpManagedEndpoint {
    /// The carrier appeared: start HELLO. Only valid while down.
    pub fn carrier_up(&mut self) -> (r: Result<()>)
        requires
            old(self).wf(),
        ensures
            final(self).wf(),
            old(self)@.state != DlpControlState::Down ==> r == Err::<(), Error>(Error::InvalidState)
                && final(self)@ == old(self)@,
            old(self)@.state == DlpControlState::Down ==> r == Ok::<(), Error>(()) && final(self)@
                == restarted(old(self)@, false, false),
    {
        if self.state != DlpControlState::Down {
            return Err(Error::InvalidState);
        }
        self.restart_negotiation(false, false);
        Ok(())
    }

    /// The carrier was lost: everything negotiated is forgotten.
    pub fn carrier_down(&mut self)
        requires
            old(self).wf(),
        ensures
            final(self).wf(),
            final(self)@ == carrier_lost(old(self)@),
    {
        self.dlp.set_link_up(false);
        self.control_tx.clear();
        self.peer_generation = None;
        self.clear_negotiation_state();
        self.state = DlpControlState::Down;
    }

    /// Sends RESET for the current generation and restarts with the next one.
    pub fn request_reset(&mut self, reason: u32) -> (r: Result<()>)
        requires
            old(self).wf(),
        ensures
            final(self).wf(),
            old(self)@.state == DlpControlState::Down ==> r == Err::<(), Error>(Error::LinkDown)
                && final(self)@ == old(self)@,
            old(self)@.state != DlpControlState::Down && reason > 15 ==> r == Err::<(), Error>(
                Error::InvalidField,
            ) && final(self)@ == old(self)@,
            old(self)@.state != DlpControlState::Down && reason <= 15 ==> r == Ok::<(), Error>(())
                && final(self)@ == reset_requested(old(self)@, reason as u8),
    {
        if self.state == DlpControlState::Down {
            return Err(Error::LinkDown);
        }
        if reason > 0x0f {
            return Err(Error::InvalidField);
        }
        let old_generation = self.local_generation;
        self.dlp.set_link_up(false);
        self.control_tx.clear();
        self.control_tx.push_back(
            DlpControlFrame::Reset { sender_generation: old_generation, reason: reason as u8 },
        );
        self.local_generation = next_generation(self.local_generation);
        self.peer_generation = None;
        self.clear_negotiation_state();
        self.state = DlpControlState::Hello;
        self.queue_hello_initial();
        assert(self@.control_tx =~= seq![
            DlpControlFrame::Reset { sender_generation: old_generation, reason: reason as u8 },
            hello_initial(self@.local_generation),
        ]);
        Ok(())
    }

    /// The next queued control flit, encoded.
    pub fn poll_control(&mut self) -> (r: Option<[u8; DLP_CONTROL_FRAME_LEN]>)
        requires
            old(self).wf(),
        ensures
            final(self).wf(),
            old(self)@.control_tx.len() == 0 ==> r is None && final(self)@ == old(self)@,
            old(self)@.control_tx.len() > 0 ==> r is Some && r->0@ == u32_be(
                spec_control_word(old(self)@.control_tx[0]),
            ) && final(self)@ == (ManagedView {
                control_tx: old(self)@.control_tx.drop_first(),
                ..old(self)@
            }),
    {
        match self.control_tx.pop_front() {
            Some(frame) => {
                assert(self@.control_tx =~= old(self)@.control_tx.drop_first());
                Some(frame.encode())
            },
            None => None,
        }
    }

    /// Processes one received control flit.
    pub fn receive_control(&mut self, bytes: &[u8]) -> (r: Result<()>)
        requires
            old(self).wf(),
        ensures
            final(self).wf(),
            (final(self)@, r) == spec_receive_control(old(self)@, bytes@),
    {
        let frame = DlpControlFrame::decode(bytes)?;
        match frame {
            DlpControlFrame::Hello { kind, sender_generation, peer_generation } => self.on_hello(
                kind,
                sender_generation,
                peer_generation,
            ),
            DlpControlFrame::Reset { sender_generation, .. } => {
                self.on_reset(sender_generation);
                Ok(())
            },
            DlpControlFrame::Capabilities { kind, sender_generation, profiles, rates } => {
                if self.peer_generation != Some(sender_generation) {
                    return Ok(());
                }
                self.on_capabilities(kind, profiles, rates)
            },
            DlpControlFrame::LinkParameters {
                kind,
                sender_generation,
                rx_window_units,
                burst_units,
            } => {
                if self.peer_generation != Some(sender_generation) {
                    return Ok(());
                }
                self.on_link_parameters(kind, rx_window_units, burst_units)
            },
        }
    }

    fn data_path_active(&self) -> (r: bool)
        ensures
            r == (self@.state == DlpControlState::CreditSync || self@.state == DlpControlState::Up),
    {
        self.state == DlpControlState::CreditSync || self.state == DlpControlState::Up
    }

    /// The next data-path frame, once the link is negotiated.
    pub fn poll_tx_frame(&mut self) -> (r: Result<Option<GnetFrame>>)
        requires
            old(self).wf(),
        ensures
            final(self).wf(),
            !(old(self)@.state == DlpControlState::CreditSync || old(self)@.state
                == DlpControlState::Up) ==> r == Err::<Option<GnetFrame>, Error>(Error::LinkDown)
                && final(self)@ == old(self)@,
            (old(self)@.state == DlpControlState::CreditSync || old(self)@.state
                == DlpControlState::Up) ==> final(self)@ == (ManagedView {
                dlp: spec_poll_tx_frame(old(self)@.dlp).0,
                ..old(self)@
            }) && match spec_poll_tx_frame(old(self)@.dlp).1 {
                Ok(Some(f)) => r is Ok && r->Ok_0 is Some && r->Ok_0->0@ == f,
                Ok(None) => r is Ok && r->Ok_0 is None,
                Err(e) => r is Err && r->Err_0 == e,
            },
    {
        if !self.data_path_active() {
            return Err(Error::LinkDown);
        }
        self.dlp.poll_tx_frame()
    }

    /// Receives a data-path frame, once the link is negotiated.
    pub fn receive_frame(&mut self, frame: GnetFrame) -> (r: Result<GdpPacket>)
        requires
            old(self).wf(),
        ensures
            final(self).wf(),
            !(old(self)@.state == DlpControlState::CreditSync || old(self)@.state
                == DlpControlState::Up) ==> r == Err::<GdpPacket, Error>(Error::LinkDown)
                && final(self)@ == old(self)@,
            (old(self)@.state == DlpControlState::CreditSync || old(self)@.state
                == DlpControlState::Up) && old(self)@.negotiated is None ==> r == Err::<
                GdpPacket,
                Error,
            >(Error::InvalidState) && final(self)@ == old(self)@,
            (old(self)@.state == DlpControlState::CreditSync || old(self)@.state
                == DlpControlState::Up) && old(self)@.negotiated is Some ==> final(self)@ == (
            ManagedView { dlp: spec_receive_frame(old(self)@.dlp, frame@).0, ..old(self)@ })
                && match spec_receive_frame(old(self)@.dlp, frame@).1 {
                Ok(p) => r is Ok && r->Ok_0@ == p,
                Err(e) => r is Err && r->Err_0 == e,
            },
    {
        if !self.data_path_active() {
            return Err(Error::LinkDown);
        }
        if self.negotiated.is_none() {
            return Err(Error::InvalidState);
        }
        self.dlp.receive_frame(frame)
    }
}

} // verus!

verus! {

impl DlpManagedEndpoint {
    /// Binds the data path to the peer: the reserved control window becomes
    /// transmit credit, and all grantable receive buffer is promised to the peer.
    /// Returns the data credit granted.
    fn bind_credit_peer(&mut self) -> (r: Result<u32>)
        requires
            old(self).wf(),
        ensures
            final(self).wf(),
            old(self)@.state != DlpControlState::CreditSync ==> r == Err::<u32, Error>(
                Error::InvalidState,
            ) && final(self)@ == old(self)@,
            old(self)@.state == DlpControlState::CreditSync ==> r == Ok::<u32, Error>(
                credit_bound(old(self)@).1,
            ) && final(self)@ == credit_bound(old(self)@).0,
    {
        if self.state != DlpControlState::CreditSync {
            return Err(Error::InvalidState);
        }
        self.dlp.grant_control_tx_credit(DLP_RESERVED_CONTROL_WINDOW_FLITS);
        let grant = self.dlp.grantable_data_credit();
        self.dlp.note_data_credit_granted(grant)?;
        Ok(grant)
    }

    /// Data credit granted by the peer.
    fn accept_peer_credit(&mut self, count: u32)
        requires
            old(self).wf(),
        ensures
            final(self).wf(),
            final(self)@ == with_data_credit(old(self)@, count),
    {
        self.dlp.grant_data_tx_credit(count);
    }

    fn finish_credit_sync(&mut self) -> (r: Result<()>)
        requires
            old(self).wf(),
        ensures
            final(self).wf(),
            old(self)@.state != DlpControlState::CreditSync ==> r == Err::<(), Error>(
                Error::InvalidState,
            ) && final(self)@ == old(self)@,
            old(self)@.state == DlpControlState::CreditSync && old(self)@.dlp.data_tx_credit == 0
                ==> r == Err::<(), Error>(Error::NoCredit) && final(self)@ == old(self)@,
            old(self)@.state == DlpControlState::CreditSync && old(self)@.dlp.data_tx_credit != 0
                ==> r == Ok::<(), Error>(()) && final(self)@ == (ManagedView {
                state: DlpControlState::Up,
                ..old(self)@
            }),
    {
        if self.state != DlpControlState::CreditSync {
            return Err(Error::InvalidState);
        }
        if self.dlp.data_tx_credit() == 0 {
            return Err(Error::NoCredit);
        }
        self.state = DlpControlState::Up;
        Ok(())
    }
}

/// Binding the data path to the peer: the reserved control window becomes
/// transmit credit and all grantable receive buffer is promised to the peer;
/// the second component is the data credit promised.
pub open spec fn credit_bound(v: ManagedView) -> (ManagedView, u32) {
    let g = spec_grantable(v.dlp.rx_buffer_flits, v.dlp.data_rx_in_use, v.dlp.data_credit_outstanding);
    (
        ManagedView {
            dlp: DlpState {
                control_tx_credit: sat_add(v.dlp.control_tx_credit, DLP_RESERVED_CONTROL_WINDOW_FLITS),
                data_credit_outstanding: (v.dlp.data_credit_outstanding + g) as u32,
                ..v.dlp
            },
            ..v
        },
        g,
    )
}

/// `v` after the peer granted `count` flits of data credit.
pub open spec fn with_data_credit(v: ManagedView, count: u32) -> ManagedView {
    ManagedView { dlp: DlpState { data_tx_credit: sat_add(v.dlp.data_tx_credit, count), ..v.dlp }, ..v }
}

/// `v` once its credit synchronisation is finished.
pub open spec fn credit_synced(v: ManagedView) -> ManagedView {
    if v.state == DlpControlState::CreditSync {
        ManagedView { state: DlpControlState::Up, ..v }
    } else {
        v
    }
}

/// The credit exchange between two negotiated ends `a` and `b`: each end in
/// credit synchronisation binds its data path and the other accepts the
/// credit; without data credit on both sides the exchange fails, else both
/// ends come up.
pub open spec fn credit_exchange(a: ManagedView, b: ManagedView) -> (ManagedView, ManagedView, Result<()>) {
    let (a1, b1) = bind_into(a, b);
    let (b2, a2) = bind_into(b1, a1);
    if a2.dlp.data_tx_credit == 0 || b2.dlp.data_tx_credit == 0 {
        (a2, b2, Err(Error::NoCredit))
    } else {
        (credit_synced(a2), credit_synced(b2), Ok(()))
    }
}

/// `x` binds its data path if it is in credit synchronisation, and `y`
/// accepts the credit `x` promised.
pub open spec fn bind_into(x: ManagedView, y: ManagedView) -> (ManagedView, ManagedView) {
    if x.state == DlpControlState::CreditSync {
        (credit_bound(x).0, with_data_credit(y, credit_bound(x).1))
    } else {
        (x, y)
    }
}

/// `x` sends its oldest queued control flit, if any, and `y` processes it:
/// the two ends after the step, and whether a flit moved (or `y`'s error).
pub open spec fn spec_send_control(x: ManagedView, y: ManagedView) -> (ManagedView, ManagedView, Result<bool>) {
    if x.control_tx.len() == 0 {
        (x, y, Ok(false))
    } else {
        let received = spec_receive_control(y, u32_be(spec_control_word(x.control_tx[0])));
        (
            ManagedView { control_tx: x.control_tx.drop_first(), ..x },
            received.0,
            match received.1 {
                Ok(_) => Ok(true),
                Err(e) => Err(e),
            },
        )
    }
}

/// One exchange over a cable: `a` sends a control flit to `b`, then `b` to `a`.
pub open spec fn spec_pump(a: ManagedView, b: ManagedView) -> (ManagedView, ManagedView, Result<bool>) {
    let first = spec_send_control(a, b);
    match first.2 {
        Err(e) => first,
        Ok(p1) => {
            let second = spec_send_control(first.1, first.0);
            (
                second.1,
                second.0,
                match second.2 {
                    Err(e) => Err(e),
                    Ok(p2) => Ok(p1 || p2),
                },
            )
        },
    }
}

/// Both ends have negotiated their link profile.
pub open spec fn ready_for_credit(v: ManagedView) -> bool {
    v.state == DlpControlState::CreditSync || v.state == DlpControlState::Up
}

/// A deterministic in-memory cable between two managed endpoints.
#[derive(Debug, Clone)]
pub struct DlpDirectCable {
    carrier: bool,
    credit_bound: bool,
}

impl DlpDirectCable {
    /// A cable with no carrier yet.
    pub fn new() -> (r: Self)
        ensures
            !r.spec_carrier(),
    {
        DlpDirectCable { carrier: false, credit_bound: false }
    }

    pub closed spec fn spec_carrier(&self) -> bool {
        self.carrier
    }

    /// Whether the credit exchange over this cable has been done.
    pub closed spec fn spec_credit_bound(&self) -> bool {
        self.credit_bound
    }

    fn both_up(a: &DlpManagedEndpoint, b: &DlpManagedEndpoint) -> (r: bool)
        ensures
            r == (a@.state == DlpControlState::Up && b@.state == DlpControlState::Up),
    {
        a.control_state() == DlpControlState::Up && b.control_state() == DlpControlState::Up
    }

    fn both_ready_for_credit(a: &DlpManagedEndpoint, b: &DlpManagedEndpoint) -> (r: bool)
        ensures
            r == (ready_for_credit(a@) && ready_for_credit(b@)),
    {
        a.data_path_active() && b.data_path_active()
    }

    /// `x` sends its oldest control flit, if any, and `y` processes it.
    fn send_control(x: &mut DlpManagedEndpoint, y: &mut DlpManagedEndpoint) -> (r: Result<bool>)
        requires
            old(x).wf(),
            old(y).wf(),
        ensures
            final(x).wf(),
            final(y).wf(),
            (final(x)@, final(y)@, r) == spec_send_control(old(x)@, old(y)@),
    {
        match x.poll_control() {
            Some(frame) => {
                y.receive_control(&frame)?;
                Ok(true)
            },
            None => Ok(false),
        }
    }

    /// Moves at most one control flit each way; reports whether any moved.
    pub fn pump_control(a: &mut DlpManagedEndpoint, b: &mut DlpManagedEndpoint) -> (r: Result<bool>)
        requires
            old(a).wf(),
            old(b).wf(),
        ensures
            final(a).wf(),
            final(b).wf(),
            (final(a)@, final(b)@, r) == spec_pump(old(a)@, old(b)@),
    {
        let p1 = Self::send_control(a, b)?;
        let p2 = Self::send_control(b, a)?;
        Ok(p1 || p2)
    }

    /// `x` binds its data path if it is in credit synchronisation; `y` accepts the credit.
    fn bind_one(x: &mut DlpManagedEndpoint, y: &mut DlpManagedEndpoint)
        requires
            old(x).wf(),
            old(y).wf(),
        ensures
            final(x).wf(),
            final(y).wf(),
            (final(x)@, final(y)@) == bind_into(old(x)@, old(y)@),
    {
        if x.control_state() == DlpControlState::CreditSync {
            match x.bind_credit_peer() {
                Ok(granted) => y.accept_peer_credit(granted),
                Err(_) => {},
            }
        }
    }

    /// Ends the credit synchronisation of `x`, which holds data credit.
    fn finish_one(x: &mut DlpManagedEndpoint)
        requires
            old(x).wf(),
            old(x)@.dlp.data_tx_credit != 0,
        ensures
            final(x).wf(),
            final(x)@ == credit_synced(old(x)@),
    {
        if x.control_state() == DlpControlState::CreditSync {
            match x.finish_credit_sync() {
                Ok(()) => {},
                Err(_) => {},
            }
        }
    }

    /// The credit exchange between two negotiated ends.
    fn exchange_credit(a: &mut DlpManagedEndpoint, b: &mut DlpManagedEndpoint) -> (r: Result<()>)
        requires
            old(a).wf(),
            old(b).wf(),
            ready_for_credit(old(a)@),
            ready_for_credit(old(b)@),
        ensures
            final(a).wf(),
            final(b).wf(),
            final(a)@ == credit_exchange(old(a)@, old(b)@).0,
            final(b)@ == credit_exchange(old(a)@, old(b)@).1,
            r == credit_exchange(old(a)@, old(b)@).2,
    {
        Self::bind_one(a, b);
        Self::bind_one(b, a);
        if a.dlp().data_tx_credit() == 0 || b.dlp().data_tx_credit() == 0 {
            return Err(Error::NoCredit);
        }
        Self::finish_one(a);
        Self::finish_one(b);
        Ok(())
    }

    /// Pumps control flits until both ends are negotiated, at most 512
    /// exchanges; fails when an exchange moves nothing. Two fresh ends `x`
    /// and `y` whose carrier just came up finish the handshake.
    fn negotiate(
        a: &mut DlpManagedEndpoint,
        b: &mut DlpManagedEndpoint,
        Ghost(x): Ghost<ManagedView>,
        Ghost(y): Ghost<ManagedView>,
        Ghost(fresh): Ghost<bool>,
    ) -> (r: Result<()>)
        requires
            old(a).wf(),
            old(b).wf(),
            fresh ==> fresh_end(x) && fresh_end(y) && managed_inv(x) && managed_inv(y),
            fresh ==> old(a)@ == phase(x, y, 0) && old(b)@ == phase(y, x, 0),
        ensures
            final(a).wf(),
            final(b).wf(),
            fresh ==> r is Ok && final(a)@ == phase(x, y, 8) && final(b)@ == phase(y, x, 8),
    {
        let mut rounds: usize = 0;
        while rounds < 512 && !Self::both_ready_for_credit(a, b)
            invariant
                a.wf(),
                b.wf(),
                fresh ==> fresh_end(x) && fresh_end(y) && managed_inv(x) && managed_inv(y),
                fresh ==> rounds <= 8 && a@ == phase(x, y, rounds as nat) && b@ == phase(
                    y,
                    x,
                    rounds as nat,
                ),
            decreases 512 - rounds,
        {
            proof {
                if fresh {
                    lemma_handshake(x, y);
                    lemma_handshake(y, x);
                }
            }
            let progress = Self::pump_control(a, b)?;
            if !Self::both_ready_for_credit(a, b) && !progress {
                return Err(Error::InvalidState);
            }
            rounds = rounds + 1;
        }
        proof {
            if fresh {
                lemma_handshake(x, y);
                lemma_handshake(y, x);
            }
        }
        Ok(())
    }

    /// Brings both ends up: carrier, control negotiation, then credit exchange.
    pub fn attach(&mut self, a: &mut DlpManagedEndpoint, b: &mut DlpManagedEndpoint) -> (r: Result<()>)
        requires
            old(a).wf(),
            old(b).wf(),
        ensures
            final(a).wf(),
            final(b).wf(),
            r is Ok ==> final(a)@.state == DlpControlState::Up && final(b)@.state
                == DlpControlState::Up && final(self).spec_carrier() && final(self).spec_credit_bound(),
            // Two negotiated ends: only the credit exchange is left, done once per cable.
            ready_for_credit(old(a)@) && ready_for_credit(old(b)@) ==> final(self).spec_carrier()
                && final(self).spec_credit_bound() && if old(self).spec_credit_bound() {
                &&& final(a)@ == old(a)@
                &&& final(b)@ == old(b)@
                &&& r == (if old(a)@.state == DlpControlState::Up && old(b)@.state
                    == DlpControlState::Up {
                    Ok::<(), Error>(())
                } else {
                    Err(Error::InvalidState)
                })
            } else {
                &&& final(a)@ == credit_exchange(old(a)@, old(b)@).0
                &&& final(b)@ == credit_exchange(old(a)@, old(b)@).1
                &&& r == credit_exchange(old(a)@, old(b)@).2
            },
            // Two fresh ends on a new cable: the handshake runs to completion and
            // both ends come up with the profile they agree on.
            fresh_end(old(a)@) && fresh_end(old(b)@) && !old(self).spec_carrier() ==> {
                &&& r == Ok::<(), Error>(())
                &&& final(a)@.state == DlpControlState::Up
                &&& final(b)@.state == DlpControlState::Up
                &&& final(a)@.negotiated == Some(negotiated_with(old(a)@, old(b)@))
                &&& final(b)@.negotiated == Some(negotiated_with(old(b)@, old(a)@))
                &&& final(a)@.dlp.data_tx_credit == old(b)@.config.rx_buffer_flits
                &&& final(b)@.dlp.data_tx_credit == old(a)@.config.rx_buffer_flits
                &&& final(a)@.dlp.data_tx_credit > 0
                &&& final(b)@.dlp.data_tx_credit > 0
            },
    {
        let ghost a0 = a@;
        let ghost b0 = b@;
        let ghost fresh = fresh_end(a0) && fresh_end(b0) && !self.carrier;
        proof {
            if fresh {
                lemma_handshake(a0, b0);
                lemma_handshake(b0, a0);
                lemma_handshake_credit(a0, b0);
            }
        }
        if !self.carrier {
            if a.control_state() == DlpControlState::Down {
                a.carrier_up()?;
            }
            if b.control_state() == DlpControlState::Down {
                b.carrier_up()?;
            }
            self.carrier = true;
        }
        if !Self::both_ready_for_credit(a, b) {
            self.credit_bound = false;
            Self::negotiate(a, b, Ghost(a0), Ghost(b0), Ghost(fresh))?;
        }
        if !Self::both_ready_for_credit(a, b) {
            return Err(Error::InvalidState);
        }
        if !self.credit_bound {
            self.credit_bound = true;
            Self::exchange_credit(a, b)?;
        }
        if !Self::both_up(a, b) {
            return Err(Error::InvalidState);
        }
        Ok(())
    }
}

} // verus!

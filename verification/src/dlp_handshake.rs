//! The control handshake of two fresh managed endpoints over a direct cable:
//! eight exchanges bring both ends from HELLO to credit synchronisation.
use vstd::prelude::*;

use crate::dlp_control::{
    cleared, credit_exchange, hello_initial, ready_for_credit, DlpNegotiatedProfile,
    DLP_RESERVED_CONTROL_WINDOW_FLITS, law_control_frame_roundtrip, managed_inv, min_u32, restarted,
    spec_choose_vc_mode, spec_install, spec_mode_flag, spec_pump, spec_supported_flags,
    valid_parameter, DlpCapabilityKind, DlpControlFrame, DlpControlState, DlpHelloKind, ManagedView,
};
use crate::error::Error;
use crate::link::VcMode;

verus! {

/// An end whose carrier never came up: down, no peer, nothing queued or negotiated.
pub open spec fn fresh_end(v: ManagedView) -> bool {
    &&& v.state == DlpControlState::Down
    &&& v.peer_generation is None
    &&& v.control_tx.len() == 0
    &&& v == cleared(v)
}

/// The mode two ends choose: four channels only when both support four.
pub open spec fn common_mode(x: VcMode, y: VcMode) -> VcMode {
    if x == VcMode::Four && y == VcMode::Four {
        VcMode::Four
    } else {
        VcMode::Two
    }
}

/// The burst two ends agree on: the smaller of their maxima.
pub open spec fn common_burst(x: ManagedView, y: ManagedView) -> u32 {
    min_u32(x.max_burst_flits, y.max_burst_flits)
}

/// A parameter in units of four flits, as carried on the wire.
pub open spec fn units(v: u32) -> u8 {
    (v / 4) as u8
}

pub open spec fn hello_ack(x: ManagedView, y: ManagedView) -> DlpControlFrame {
    DlpControlFrame::Hello {
        kind: DlpHelloKind::Acknowledgement,
        sender_generation: x.local_generation,
        peer_generation: y.local_generation,
    }
}

pub open spec fn caps(kind: DlpCapabilityKind, x: ManagedView, profiles: u8, rates: u8) -> DlpControlFrame {
    DlpControlFrame::Capabilities { kind, sender_generation: x.local_generation, profiles, rates }
}

pub open spec fn params(kind: DlpCapabilityKind, x: ManagedView, rx: u8, burst: u8) -> DlpControlFrame {
    DlpControlFrame::LinkParameters {
        kind,
        sender_generation: x.local_generation,
        rx_window_units: rx,
        burst_units: burst,
    }
}

/// `x`'s capability selection or confirmation: the common mode at the top rate.
pub open spec fn caps_reply(kind: DlpCapabilityKind, x: ManagedView, y: ManagedView) -> DlpControlFrame {
    caps(kind, x, spec_mode_flag(common_mode(x.config.vc_mode, y.config.vc_mode)), 4)
}

/// End `x` (with peer `y`) after 0 exchanges of the handshake.
pub open spec fn phase0(x: ManagedView, y: ManagedView) -> ManagedView {
    restarted(x, false, false)
}

/// End `x` (with peer `y`) after 1 exchanges of the handshake.
pub open spec fn phase1(x: ManagedView, y: ManagedView) -> ManagedView {
    ManagedView {
        control_tx: seq![hello_ack(x, y)],
        peer_generation: Some(y.local_generation),
        hello_ack_sent: true,
        ..phase0(x, y)
    }
}

/// End `x` (with peer `y`) after 2 exchanges of the handshake.
pub open spec fn phase2(x: ManagedView, y: ManagedView) -> ManagedView {
    ManagedView {
        state: DlpControlState::Negotiate,
        hello_ack_received: true,
        control_tx: seq![
            caps(DlpCapabilityKind::Offer, x, spec_supported_flags(x.config.vc_mode), 7),
            params(DlpCapabilityKind::Offer, x, units(x.config.rx_buffer_flits), units(x.max_burst_flits)),
        ],
        cap_offer_sent: true,
        params_offer_sent: true,
        ..phase1(x, y)
    }
}

/// End `x` (with peer `y`) after 3 exchanges of the handshake.
pub open spec fn phase3(x: ManagedView, y: ManagedView) -> ManagedView {
    let cm = common_mode(x.config.vc_mode, y.config.vc_mode);
    ManagedView {
        peer_cap_offer: Some((spec_supported_flags(y.config.vc_mode), 7u8)),
        selected_mode: Some(cm),
        selected_rate: Some(4u8),
        cap_selection_sent: true,
        control_tx: seq![
            params(DlpCapabilityKind::Offer, x, units(x.config.rx_buffer_flits), units(x.max_burst_flits)),
            caps_reply(DlpCapabilityKind::Selection, x, y),
        ],
        ..phase2(x, y)
    }
}

/// End `x` (with peer `y`) after 4 exchanges of the handshake.
pub open spec fn phase4(x: ManagedView, y: ManagedView) -> ManagedView {
    ManagedView {
        peer_params_offer: Some((y.config.rx_buffer_flits, y.max_burst_flits)),
        selected_peer_rx: Some(y.config.rx_buffer_flits),
        selected_burst: Some(common_burst(x, y)),
        params_selection_sent: true,
        control_tx: seq![
            caps_reply(DlpCapabilityKind::Selection, x, y),
            params(DlpCapabilityKind::Selection, x, units(y.config.rx_buffer_flits), units(common_burst(x, y))),
        ],
        ..phase3(x, y)
    }
}

/// End `x` (with peer `y`) after 5 exchanges of the handshake.
pub open spec fn phase5(x: ManagedView, y: ManagedView) -> ManagedView {
    ManagedView {
        cap_confirmation_sent: true,
        control_tx: seq![
            params(DlpCapabilityKind::Selection, x, units(y.config.rx_buffer_flits), units(common_burst(x, y))),
            caps_reply(DlpCapabilityKind::Confirmation, x, y),
        ],
        ..phase4(x, y)
    }
}

/// End `x` (with peer `y`) after 6 exchanges of the handshake.
pub open spec fn phase6(x: ManagedView, y: ManagedView) -> ManagedView {
    ManagedView {
        params_confirmation_sent: true,
        control_tx: seq![
            caps_reply(DlpCapabilityKind::Confirmation, x, y),
            params(DlpCapabilityKind::Confirmation, x, units(x.config.rx_buffer_flits), units(common_burst(x, y))),
        ],
        ..phase5(x, y)
    }
}

/// End `x` (with peer `y`) after 7 exchanges of the handshake.
pub open spec fn phase7(x: ManagedView, y: ManagedView) -> ManagedView {
    ManagedView {
        cap_confirmation_received: true,
        control_tx: seq![
            params(DlpCapabilityKind::Confirmation, x, units(x.config.rx_buffer_flits), units(common_burst(x, y))),
        ],
        ..phase6(x, y)
    }
}

/// End `x` (with peer `y`) after 8 exchanges of the handshake.
pub open spec fn phase8(x: ManagedView, y: ManagedView) -> ManagedView {
    spec_install(
        ManagedView {
            params_confirmation_received: true,
            control_tx: Seq::empty(),
            ..phase7(x, y)
        },
    )
}

/// End `x` (with peer `y`) after `k` exchanges of the handshake.
pub open spec fn phase(x: ManagedView, y: ManagedView, k: nat) -> ManagedView {
    if k == 0 {
        phase0(x, y)
    } else if k == 1 {
        phase1(x, y)
    } else if k == 2 {
        phase2(x, y)
    } else if k == 3 {
        phase3(x, y)
    } else if k == 4 {
        phase4(x, y)
    } else if k == 5 {
        phase5(x, y)
    } else if k == 6 {
        phase6(x, y)
    } else if k == 7 {
        phase7(x, y)
    } else {
        phase8(x, y)
    }
}

/// Two ends that can run the handshake.
pub open spec fn handshake_pair(x: ManagedView, y: ManagedView) -> bool {
    &&& fresh_end(x) && managed_inv(x)
    &&& fresh_end(y) && managed_inv(y)
}

proof fn lemma_choose_mode(x: VcMode, y: VcMode)
    ensures
        spec_choose_vc_mode(x, spec_supported_flags(y)) == Ok::<VcMode, Error>(common_mode(x, y)),
        common_mode(x, y) == common_mode(y, x),
{
    assert((1u8 & 1u8) & 2u8 == 0u8 && (1u8 & 1u8) & 1u8 != 0u8) by (bit_vector);
    assert((1u8 & 3u8) & 2u8 == 0u8 && (1u8 & 3u8) & 1u8 != 0u8) by (bit_vector);
    assert((3u8 & 1u8) & 2u8 == 0u8 && (3u8 & 1u8) & 1u8 != 0u8) by (bit_vector);
    assert((3u8 & 3u8) & 2u8 != 0u8) by (bit_vector);
}

proof fn lemma_units(v: u32)
    requires
        valid_parameter(v),
    ensures
        (units(v) as u32 * 4) as u32 == v,
        units(v) != 0,
{
}

proof fn lemma_rate()
    ensures
        crate::dlp_control::spec_choose_rate(7, 7) == Ok::<u8, Error>(4),
{
    assert(((7u8 & 7u8) & 0x07u8) & 4u8 != 0u8) by (bit_vector);
}

#[verifier::rlimit(80)]
proof fn lemma_round0(x: ManagedView, y: ManagedView)
    requires
        handshake_pair(x, y),
    ensures
        spec_pump(phase0(x, y), phase0(y, x)) == (phase1(x, y), phase1(y, x), Ok::<bool, Error>(true)),
{
    law_control_frame_roundtrip(hello_initial(x.local_generation));
    law_control_frame_roundtrip(hello_initial(y.local_generation));
    let r = spec_pump(phase0(x, y), phase0(y, x));
    assert(r.0.control_tx =~= phase1(x, y).control_tx);
    assert(r.1.control_tx =~= phase1(y, x).control_tx);
}

#[verifier::rlimit(80)]
proof fn lemma_round1(x: ManagedView, y: ManagedView)
    requires
        handshake_pair(x, y),
    ensures
        spec_pump(phase1(x, y), phase1(y, x)) == (phase2(x, y), phase2(y, x), Ok::<bool, Error>(true)),
{
    law_control_frame_roundtrip(hello_ack(x, y));
    law_control_frame_roundtrip(hello_ack(y, x));
    let r = spec_pump(phase1(x, y), phase1(y, x));
    assert(r.0.control_tx =~= phase2(x, y).control_tx);
    assert(r.1.control_tx =~= phase2(y, x).control_tx);
}

#[verifier::rlimit(80)]
proof fn lemma_round2(x: ManagedView, y: ManagedView)
    requires
        handshake_pair(x, y),
    ensures
        spec_pump(phase2(x, y), phase2(y, x)) == (phase3(x, y), phase3(y, x), Ok::<bool, Error>(true)),
{
    law_control_frame_roundtrip(caps(DlpCapabilityKind::Offer, x, spec_supported_flags(x.config.vc_mode), 7));
    law_control_frame_roundtrip(caps(DlpCapabilityKind::Offer, y, spec_supported_flags(y.config.vc_mode), 7));
    lemma_choose_mode(x.config.vc_mode, y.config.vc_mode);
    lemma_choose_mode(y.config.vc_mode, x.config.vc_mode);
    lemma_rate();
    let r = spec_pump(phase2(x, y), phase2(y, x));
    assert(r.0.control_tx =~= phase3(x, y).control_tx);
    assert(r.1.control_tx =~= phase3(y, x).control_tx);
}

#[verifier::rlimit(80)]
proof fn lemma_round3(x: ManagedView, y: ManagedView)
    requires
        handshake_pair(x, y),
    ensures
        spec_pump(phase3(x, y), phase3(y, x)) == (phase4(x, y), phase4(y, x), Ok::<bool, Error>(true)),
{
    lemma_units(x.config.rx_buffer_flits);
    lemma_units(y.config.rx_buffer_flits);
    lemma_units(x.max_burst_flits);
    lemma_units(y.max_burst_flits);
    lemma_units(common_burst(x, y));
    lemma_units(common_burst(y, x));
    law_control_frame_roundtrip(params(DlpCapabilityKind::Offer, x, units(x.config.rx_buffer_flits), units(x.max_burst_flits)));
    law_control_frame_roundtrip(params(DlpCapabilityKind::Offer, y, units(y.config.rx_buffer_flits), units(y.max_burst_flits)));
    let r = spec_pump(phase3(x, y), phase3(y, x));
    assert(r.0.control_tx =~= phase4(x, y).control_tx);
    assert(r.1.control_tx =~= phase4(y, x).control_tx);
}

#[verifier::rlimit(80)]
proof fn lemma_round4(x: ManagedView, y: ManagedView)
    requires
        handshake_pair(x, y),
    ensures
        spec_pump(phase4(x, y), phase4(y, x)) == (phase5(x, y), phase5(y, x), Ok::<bool, Error>(true)),
{
    lemma_choose_mode(x.config.vc_mode, y.config.vc_mode);
    lemma_choose_mode(y.config.vc_mode, x.config.vc_mode);
    lemma_rate();
    law_control_frame_roundtrip(caps_reply(DlpCapabilityKind::Selection, x, y));
    law_control_frame_roundtrip(caps_reply(DlpCapabilityKind::Selection, y, x));
    let r = spec_pump(phase4(x, y), phase4(y, x));
    assert(r.0.control_tx =~= phase5(x, y).control_tx);
    assert(r.1.control_tx =~= phase5(y, x).control_tx);
}

#[verifier::rlimit(80)]
proof fn lemma_round5(x: ManagedView, y: ManagedView)
    requires
        handshake_pair(x, y),
    ensures
        spec_pump(phase5(x, y), phase5(y, x)) == (phase6(x, y), phase6(y, x), Ok::<bool, Error>(true)),
{
    lemma_units(x.config.rx_buffer_flits);
    lemma_units(y.config.rx_buffer_flits);
    lemma_units(common_burst(x, y));
    lemma_units(common_burst(y, x));
    law_control_frame_roundtrip(params(DlpCapabilityKind::Selection, x, units(y.config.rx_buffer_flits), units(common_burst(x, y))));
    law_control_frame_roundtrip(params(DlpCapabilityKind::Selection, y, units(x.config.rx_buffer_flits), units(common_burst(y, x))));
    let r = spec_pump(phase5(x, y), phase5(y, x));
    assert(r.0.control_tx =~= phase6(x, y).control_tx);
    assert(r.1.control_tx =~= phase6(y, x).control_tx);
}

#[verifier::rlimit(80)]
proof fn lemma_round6(x: ManagedView, y: ManagedView)
    requires
        handshake_pair(x, y),
    ensures
        spec_pump(phase6(x, y), phase6(y, x)) == (phase7(x, y), phase7(y, x), Ok::<bool, Error>(true)),
{
    lemma_choose_mode(x.config.vc_mode, y.config.vc_mode);
    law_control_frame_roundtrip(caps_reply(DlpCapabilityKind::Confirmation, x, y));
    law_control_frame_roundtrip(caps_reply(DlpCapabilityKind::Confirmation, y, x));
    let r = spec_pump(phase6(x, y), phase6(y, x));
    assert(r.0.control_tx =~= phase7(x, y).control_tx);
    assert(r.1.control_tx =~= phase7(y, x).control_tx);
}

#[verifier::rlimit(80)]
proof fn lemma_round7(x: ManagedView, y: ManagedView)
    requires
        handshake_pair(x, y),
    ensures
        spec_pump(phase7(x, y), phase7(y, x)) == (phase8(x, y), phase8(y, x), Ok::<bool, Error>(true)),
{
    lemma_units(x.config.rx_buffer_flits);
    lemma_units(y.config.rx_buffer_flits);
    lemma_units(common_burst(x, y));
    lemma_units(common_burst(y, x));
    law_control_frame_roundtrip(params(DlpCapabilityKind::Confirmation, x, units(x.config.rx_buffer_flits), units(common_burst(x, y))));
    law_control_frame_roundtrip(params(DlpCapabilityKind::Confirmation, y, units(y.config.rx_buffer_flits), units(common_burst(y, x))));
    let r = spec_pump(phase7(x, y), phase7(y, x));
    assert(r.0.control_tx =~= phase8(x, y).control_tx);
    assert(r.1.control_tx =~= phase8(y, x).control_tx);
}

/// The profile that end `x` negotiates with peer `y`.
pub open spec fn negotiated_with(x: ManagedView, y: ManagedView) -> DlpNegotiatedProfile {
    DlpNegotiatedProfile {
        vc_mode: common_mode(x.config.vc_mode, y.config.vc_mode),
        burst_flits: common_burst(x, y),
        peer_rx_buffer_flits: y.config.rx_buffer_flits,
        peer_control_window_flits: DLP_RESERVED_CONTROL_WINDOW_FLITS,
    }
}

/// Two fresh ends whose carrier came up run the handshake in eight
/// exchanges, each moving a control flit, and only then are both negotiated.
pub proof fn lemma_handshake(x: ManagedView, y: ManagedView)
    requires
        handshake_pair(x, y),
    ensures
        forall|k: nat|
            k < 8 ==> #[trigger] spec_pump(phase(x, y, k), phase(y, x, k)) == (
                phase(x, y, k + 1),
                phase(y, x, k + 1),
                Ok::<bool, Error>(true),
            ),
        forall|k: nat| k < 8 ==> !ready_for_credit(#[trigger] phase(x, y, k)),
        phase(x, y, 0) == restarted(x, false, false),
        phase(x, y, 8).state == DlpControlState::CreditSync,
        phase(x, y, 8).negotiated == Some(negotiated_with(x, y)),
        phase(x, y, 8).dlp.rx_buffer_flits == x.config.rx_buffer_flits,
        phase(x, y, 8).dlp.data_rx_in_use == 0,
        phase(x, y, 8).dlp.data_credit_outstanding == 0,
        phase(x, y, 8).dlp.data_tx_credit == 0,
{
    assert forall|k: nat| k < 8 implies #[trigger] spec_pump(phase(x, y, k), phase(y, x, k)) == (
        phase(x, y, k + 1),
        phase(y, x, k + 1),
        Ok::<bool, Error>(true),
    ) by {
        if k == 0 {
            lemma_round0(x, y);
        } else if k == 1 {
            lemma_round1(x, y);
        } else if k == 2 {
            lemma_round2(x, y);
        } else if k == 3 {
            lemma_round3(x, y);
        } else if k == 4 {
            lemma_round4(x, y);
        } else if k == 5 {
            lemma_round5(x, y);
        } else if k == 6 {
            lemma_round6(x, y);
        } else {
            lemma_round7(x, y);
        }
    }
    lemma_choose_mode(x.config.vc_mode, y.config.vc_mode);
}

/// After the handshake the credit exchange succeeds: both ends come up, each
/// with the other's whole receive buffer as data credit.
pub proof fn lemma_handshake_credit(x: ManagedView, y: ManagedView)
    requires
        handshake_pair(x, y),
    ensures
        ({
            let e = credit_exchange(phase(x, y, 8), phase(y, x, 8));
            &&& e.2 == Ok::<(), Error>(())
            &&& e.0.state == DlpControlState::Up
            &&& e.1.state == DlpControlState::Up
            &&& e.0.negotiated == Some(negotiated_with(x, y))
            &&& e.1.negotiated == Some(negotiated_with(y, x))
            &&& e.0.dlp.data_tx_credit == y.config.rx_buffer_flits
            &&& e.1.dlp.data_tx_credit == x.config.rx_buffer_flits
        }),
{
    lemma_handshake(x, y);
    lemma_handshake(y, x);
}

} // verus!

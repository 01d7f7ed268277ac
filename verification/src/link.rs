use vstd::prelude::*;

use std::collections::VecDeque;

use crate::error::{Error, Result};
use crate::wire::bytes::{be32, push_slice, push_u32, read_u32, u32_be};
use crate::wire::gdp::{
    clear_low16, form_header_len, law_packet_roundtrip, lemma_header_bytes_len, spec_header_bytes,
    spec_header_encode, GdpType,
    spec_packet_decode, spec_packet_encode, AddressForm, GdpPacket, GdpPacketView, GdpWireConfig,
    SizeClass,
};

verus! {

/// Number of virtual channels exposed by the physical/link profile.
///
/// Higher protocol layers never select a numeric VCID. VC 0 is reserved by
/// DLP for link/control traffic; data packets are distributed over the
/// remaining channels.
#[derive(Debug, Clone, Copy, PartialEq, Eq, Structural)]
pub enum VcMode {
    Two,
    Four,
}

impl VcMode {
    pub open spec fn spec_count(self) -> u8 {
        match self {
            VcMode::Two => 2,
            VcMode::Four => 4,
        }
    }

    pub fn count(self) -> (r: u8)
        ensures
            r == self.spec_count(),
    {
        match self {
            VcMode::Two => 2,
            VcMode::Four => 4,
        }
    }
}

/// Virtual channel identifier, 0 to 3.
#[derive(Debug, Clone, Copy, PartialEq, Eq, Structural, PartialOrd, Ord, Hash)]
pub struct Vcid(u8);

impl Vcid {
    pub closed spec fn spec_get(self) -> u8 {
        self.0
    }

    /// The control channel.
    pub fn control() -> (r: Self)
        ensures
            r.spec_get() == 0,
    {
        Vcid(0)
    }

    pub fn vc1() -> (r: Self)
        ensures
            r.spec_get() == 1,
    {
        Vcid(1)
    }

    pub fn vc2() -> (r: Self)
        ensures
            r.spec_get() == 2,
    {
        Vcid(2)
    }

    pub fn vc3() -> (r: Self)
        ensures
            r.spec_get() == 3,
    {
        Vcid(3)
    }

    /// The channel `v`; only 0 to 3 exist.
    pub fn new(v: u8) -> (r: Result<Self>)
        ensures
            v < 4 ==> r is Ok && r->Ok_0.spec_get() == v,
            v >= 4 ==> r == Err::<Vcid, Error>(Error::InvalidField),
    {
        if v < 4 {
            Ok(Vcid(v))
        } else {
            Err(Error::InvalidField)
        }
    }

    pub fn get(self) -> (r: u8)
        ensures
            r == self.spec_get(),
    {
        self.0
    }

    pub fn is_control(self) -> (r: bool)
        ensures
            r == (self.spec_get() == 0),
    {
        self.0 == 0
    }

    /// Channels with the same number are the same channel.
    pub proof fn lemma_eq(self, other: Self)
        ensures
            (self.spec_get() == other.spec_get()) <==> self == other,
    {
    }
}

/// One physical 32-bit flit on a virtual channel.
#[derive(Debug, Clone, Copy, PartialEq, Eq, Structural)]
pub struct Flit {
    pub vcid: Vcid,
    pub data: u32,
}

/// Class of link traffic: control (VC 0) or data.
#[derive(Debug, Clone, Copy, PartialEq, Eq, Structural)]
pub enum LinkTraffic {
    Control,
    Data,
}

/// Flits needed to carry `n` bytes.
pub open spec fn flits_for(n: nat) -> nat {
    (n + 3) / 4
}

fn flit_count(n: usize) -> (r: usize)
    ensures
        r == flits_for(n as nat),
{
    n / 4 + if n % 4 != 0 {
        1
    } else {
        0
    }
}

/// A complete DLP/GNET frame at the QDX-GNET-style host/device boundary.
///
/// The bytes are the actual encoded GDP frame. `vcid` and `traffic` are
/// link-local metadata used by the software model; GDP/GCTL/GTS do not see or
/// select them. A real QDX-GNET controller can keep the equivalent state in
/// hardware while DMA moves the contiguous frame buffer.
#[derive(Debug, Clone, PartialEq, Eq)]
pub struct GnetFrame {
    pub vcid: Vcid,
    pub traffic: LinkTraffic,
    pub bytes: Vec<u8>,
}

impl GnetFrame {
    /// Flits the frame occupies on the link.
    pub fn flit_len(&self) -> (r: usize)
        ensures
            r == flits_for(self.bytes@.len()),
    {
        flit_count(self.bytes.len())
    }
}

/// Link configuration of a DLP endpoint.
#[derive(Debug, Clone, Copy)]
pub struct DlpConfig {
    pub gdp: GdpWireConfig,
    pub local_prefix: u64,
    pub vc_mode: VcMode,
    /// Receive storage available to ordinary data flits.
    pub rx_buffer_flits: u32,
    /// Statically provisioned control receive window. This is kept separate
    /// from the dynamically advertised data receive buffer so CREDIT traffic
    /// cannot deadlock waiting for the credit it is trying to advertise.
    pub control_window_flits: u32,
}

impl DlpConfig {
    /// Standard GDP polarity, no local prefix, a 32-flit control window.
    pub fn new(rx_buffer_flits: u32, vc_mode: VcMode) -> (r: Result<Self>)
        ensures
            rx_buffer_flits == 0 ==> r is Err && r->Err_0 == Error::InvalidField,
            rx_buffer_flits != 0 ==> r is Ok && r->Ok_0.gdp.local_form_bit && r->Ok_0.local_prefix
                == 0 && r->Ok_0.vc_mode == vc_mode && r->Ok_0.rx_buffer_flits == rx_buffer_flits
                && r->Ok_0.control_window_flits == 32,
    {
        if rx_buffer_flits == 0 {
            return Err(Error::InvalidField);
        }
        Ok(
            DlpConfig {
                gdp: GdpWireConfig::standard(),
                local_prefix: 0,
                vc_mode,
                rx_buffer_flits,
                control_window_flits: 32,
            },
        )
    }
}

/// Big-endian word of flit `k` of `bytes`, zero-padded past the end.
pub open spec fn flit_word(bytes: Seq<u8>, k: int) -> u32 {
    let b = |j: int| if 0 <= j < bytes.len() { bytes[j] } else { 0u8 };
    (b(4 * k) as int * 16777216 + b(4 * k + 1) as int * 65536 + b(4 * k + 2) as int * 256 + b(
        4 * k + 3,
    ) as int) as u32
}

/// A frame waiting for transmission.
#[derive(Debug, Clone)]
struct TxFrame {
    vcid: Vcid,
    traffic: LinkTraffic,
    bytes: Vec<u8>,
    /// Raw-flit backends advance this cursor. The normal QDX frame path keeps
    /// it at zero and moves the complete buffer in one operation.
    flit_offset: usize,
}

/// Mathematical value of a queued frame.
pub struct TxFrameView {
    pub vcid: Vcid,
    pub traffic: LinkTraffic,
    pub bytes: Seq<u8>,
    pub flit_offset: nat,
}

impl TxFrameView {
    pub open spec fn remaining(self) -> int {
        flits_for(self.bytes.len()) - self.flit_offset
    }

    /// The flits still to be sent, in order.
    pub open spec fn pending_flits(self) -> Seq<Flit> {
        Seq::new(
            (if self.remaining() > 0 {
                self.remaining()
            } else {
                0
            }) as nat,
            |k: int| Flit { vcid: self.vcid, data: flit_word(self.bytes, self.flit_offset + k) },
        )
    }
}

impl View for TxFrame {
    type V = TxFrameView;

    closed spec fn view(&self) -> TxFrameView {
        TxFrameView {
            vcid: self.vcid,
            traffic: self.traffic,
            bytes: self.bytes@,
            flit_offset: self.flit_offset as nat,
        }
    }
}

impl TxFrame {
    fn flit_len(&self) -> (r: usize)
        ensures
            r == flits_for(self@.bytes.len()),
    {
        flit_count(self.bytes.len())
    }

    fn remaining_flits(&self) -> (r: usize)
        ensures
            r == if self@.remaining() > 0 {
                self@.remaining()
            } else {
                0
            },
    {
        let n = self.flit_len();
        if self.flit_offset < n {
            n - self.flit_offset
        } else {
            0
        }
    }

    /// The next flit of the frame, advancing the cursor.
    fn next_flit(&mut self) -> (r: Option<Flit>)
        ensures
            old(self)@.remaining() <= 0 ==> r is None && final(self)@ == old(self)@,
            old(self)@.remaining() > 0 ==> r == Some(old(self)@.pending_flits()[0])
                && final(self)@ == (TxFrameView {
                flit_offset: old(self)@.flit_offset + 1,
                ..old(self)@
            }),
    {
        let n = self.flit_len();
        if self.flit_offset >= n {
            return None;
        }
        let len = self.bytes.len();
        proof {
            let o = self.flit_offset as int;
            let l = len as int;
            assert(o * 4 < l) by (nonlinear_arith)
                requires
                    o < (l + 3) / 4,
                    l >= 0,
            ;
        }
        let start = self.flit_offset * 4;
        let b0: u32 = if start < len { self.bytes[start] as u32 } else { 0 };
        let b1: u32 = if start + 1 < len { self.bytes[start + 1] as u32 } else { 0 };
        let b2: u32 = if start + 2 < len { self.bytes[start + 2] as u32 } else { 0 };
        let b3: u32 = if start + 3 < len { self.bytes[start + 3] as u32 } else { 0 };
        let data = b0 * 16777216 + b1 * 65536 + b2 * 256 + b3;
        self.flit_offset = self.flit_offset + 1;
        Some(Flit { vcid: self.vcid, data })
    }

    fn into_frame(self) -> (r: Result<GnetFrame>)
        ensures
            self@.flit_offset != 0 ==> r == Err::<GnetFrame, Error>(Error::InvalidState),
            self@.flit_offset == 0 ==> r is Ok && r->Ok_0.vcid == self@.vcid && r->Ok_0.traffic
                == self@.traffic && r->Ok_0.bytes@ == self@.bytes,
    {
        if self.flit_offset != 0 {
            return Err(Error::InvalidState);
        }
        Ok(GnetFrame { vcid: self.vcid, traffic: self.traffic, bytes: self.bytes })
    }
}

} // verus!

verus! {

/// Flits still queued in `q`.
pub open spec fn queue_flit_total(q: Seq<TxFrameView>) -> nat
    decreases q.len(),
{
    if q.len() == 0 {
        0
    } else {
        (if q[0].remaining() > 0 {
            q[0].remaining() as nat
        } else {
            0nat
        }) + queue_flit_total(q.drop_first())
    }
}

/// Every flit still queued in `q`, in transmission order.
pub open spec fn queue_stream(q: Seq<TxFrameView>) -> Seq<Flit>
    decreases q.len(),
{
    if q.len() == 0 {
        Seq::empty()
    } else {
        q[0].pending_flits() + queue_stream(q.drop_first())
    }
}

/// The queue after its first `w` flits have been sent; a frame leaves the
/// queue with its last flit.
pub open spec fn advance(q: Seq<TxFrameView>, w: int) -> Seq<TxFrameView>
    decreases q.len(), w,
{
    if w <= 0 || q.len() == 0 {
        q
    } else if q[0].remaining() <= w {
        advance(q.drop_first(), w - q[0].remaining())
    } else {
        q.update(0, TxFrameView { flit_offset: (q[0].flit_offset + w) as nat, ..q[0] })
    }
}

/// Every queued frame still has a flit to send.
pub open spec fn frames_pending(q: Seq<TxFrameView>) -> bool {
    forall|i: int| 0 <= i < q.len() ==> (#[trigger] q[i]).remaining() > 0
}

/// A frame that is still being reassembled on one virtual channel.
#[derive(Debug, Clone)]
struct RxSegment {
    bytes: Vec<u8>,
    expected_bytes: usize,
    expected_flits: usize,
    received_flits: usize,
    traffic: LinkTraffic,
}

/// Mathematical value of a reassembly buffer.
pub struct RxSegView {
    pub bytes: Seq<u8>,
    pub expected_bytes: nat,
    pub expected_flits: nat,
    pub received_flits: nat,
    pub traffic: LinkTraffic,
}

impl View for RxSegment {
    type V = RxSegView;

    closed spec fn view(&self) -> RxSegView {
        RxSegView {
            bytes: self.bytes@,
            expected_bytes: self.expected_bytes as nat,
            expected_flits: self.expected_flits as nat,
            received_flits: self.received_flits as nat,
            traffic: self.traffic,
        }
    }
}

/// The receive-side state of a DLP endpoint.
pub struct RxModel {
    pub link_up: bool,
    pub vc_count: u8,
    pub cfg: GdpWireConfig,
    pub local_prefix: u64,
    pub rx_buffer_flits: u32,
    pub data_credit_outstanding: u32,
    pub data_rx_in_use: u32,
    pub rx: Seq<Option<RxSegView>>,
    pub desynchronized: Seq<bool>,
}

/// Bytes of a header whose first word is `w`, plus its payload.
pub open spec fn frame_total_bytes(w: u32, cfg: GdpWireConfig) -> nat {
    form_header_len(cfg.spec_form_from_bit(((w >> 21u32) & 1u32) != 0)) + SizeClass::of_code(
        ((w >> 22u32) & 0xfu32) as u8,
    ).spec_bytes()
}

/// Releases `n` flits of receive buffer.
pub open spec fn released(m: RxModel, n: nat) -> RxModel {
    RxModel {
        data_rx_in_use: (if m.data_rx_in_use >= n {
            m.data_rx_in_use - n
        } else {
            0
        }) as u32,
        ..m
    }
}

/// What one raw flit does to the receive side, and what it yields.
pub open spec fn spec_receive(m: RxModel, flit: Flit) -> (RxModel, Result<Option<GdpPacketView>>) {
    let idx = flit.vcid.spec_get() as int;
    let data = idx != 0;
    let traffic = if data {
        LinkTraffic::Data
    } else {
        LinkTraffic::Control
    };
    if !m.link_up {
        (m, Err(Error::LinkDown))
    } else if idx >= m.vc_count {
        (m, Err(Error::InvalidField))
    } else if m.desynchronized[idx] {
        (m, Err(Error::Desynchronized))
    } else if data && m.data_credit_outstanding == 0 {
        (m, Err(Error::CreditViolation))
    } else if data && m.data_rx_in_use >= m.rx_buffer_flits {
        (m, Err(Error::BufferFull))
    } else {
        let m1 = if data {
            RxModel {
                data_credit_outstanding: (m.data_credit_outstanding - 1) as u32,
                data_rx_in_use: (m.data_rx_in_use + 1) as u32,
                ..m
            }
        } else {
            m
        };
        let code = ((flit.data >> 22u32) & 0xfu32) as u8;
        if m.rx[idx] is None && code >= 16 {
            let m2 = if data {
                released(m1, 1)
            } else {
                m1
            };
            (
                RxModel { desynchronized: m2.desynchronized.update(idx, true), ..m2 },
                Err(Error::InvalidSizeClass),
            )
        } else {
            let seg = if m.rx[idx] is None {
                let total = frame_total_bytes(flit.data, m.cfg);
                RxSegView {
                    bytes: Seq::empty(),
                    expected_bytes: total,
                    expected_flits: flits_for(total),
                    received_flits: 0,
                    traffic,
                }
            } else {
                m.rx[idx]->0
            };
            if seg.traffic != traffic {
                (RxModel { rx: m1.rx.update(idx, Some(seg)), ..m1 }, Err(Error::InvalidState))
            } else {
                let seg2 = RxSegView {
                    bytes: seg.bytes + u32_be(flit.data),
                    received_flits: seg.received_flits + 1,
                    ..seg
                };
                if seg2.received_flits < seg2.expected_flits {
                    (RxModel { rx: m1.rx.update(idx, Some(seg2)), ..m1 }, Ok(None))
                } else {
                    let m2 = RxModel { rx: m1.rx.update(idx, None), ..m1 };
                    let m3 = if data {
                        released(m2, seg2.received_flits)
                    } else {
                        m2
                    };
                    let bytes = seg2.bytes.subrange(0, seg2.expected_bytes as int);
                    match spec_packet_decode(bytes, m.cfg, m.local_prefix) {
                        Ok(p) => (m3, Ok(Some(p))),
                        Err(e) => (
                            RxModel { desynchronized: m3.desynchronized.update(idx, true), ..m3 },
                            Err(e),
                        ),
                    }
                }
            }
        }
    }
}

} // verus!

verus! {

/// One end of a DLP link: credit accounting, transmit queues and per-VC
/// reassembly.
#[derive(Debug, Clone)]
pub struct DlpEndpoint {
    cfg: GdpWireConfig,
    local_prefix: u64,
    vc_mode: VcMode,
    rx_buffer_flits: u32,
    control_window_flits: u32,
    data_tx_credit: u32,
    control_tx_credit: u32,
    data_credit_outstanding: u32,
    data_rx_in_use: u32,
    control_tx_queue: VecDeque<TxFrame>,
    data_tx_queue: VecDeque<TxFrame>,
    rx: Vec<Option<RxSegment>>,
    desynchronized: Vec<bool>,
    next_data_vc: u8,
    link_up: bool,
}

/// Views of the frames of a queue.
pub open spec fn frames_view(q: Seq<TxFrame>) -> Seq<TxFrameView> {
    q.map_values(|f: TxFrame| f@)
}

/// Mathematical value of a DLP endpoint.
pub struct DlpState {
    pub cfg: GdpWireConfig,
    pub local_prefix: u64,
    pub vc_mode: VcMode,
    pub rx_buffer_flits: u32,
    pub control_window_flits: u32,
    pub data_tx_credit: u32,
    pub control_tx_credit: u32,
    pub data_credit_outstanding: u32,
    pub data_rx_in_use: u32,
    pub control_queue: Seq<TxFrameView>,
    pub data_queue: Seq<TxFrameView>,
    pub rx: Seq<Option<RxSegView>>,
    pub desynchronized: Seq<bool>,
    pub next_data_vc: u8,
    pub link_up: bool,
}

impl View for DlpEndpoint {
    type V = DlpState;

    closed spec fn view(&self) -> DlpState {
        DlpState {
            cfg: self.cfg,
            local_prefix: self.local_prefix,
            vc_mode: self.vc_mode,
            rx_buffer_flits: self.rx_buffer_flits,
            control_window_flits: self.control_window_flits,
            data_tx_credit: self.data_tx_credit,
            control_tx_credit: self.control_tx_credit,
            data_credit_outstanding: self.data_credit_outstanding,
            data_rx_in_use: self.data_rx_in_use,
            control_queue: frames_view(self.control_tx_queue@),
            data_queue: frames_view(self.data_tx_queue@),
            rx: self.rx@.map_values(|o: Option<RxSegment>| match o {
                Some(s) => Some(s@),
                None => None,
            }),
            desynchronized: self.desynchronized@,
            next_data_vc: self.next_data_vc,
            link_up: self.link_up,
        }
    }
}

/// The receive side of an endpoint state.
pub open spec fn rx_model(s: DlpState) -> RxModel {
    RxModel {
        link_up: s.link_up,
        vc_count: s.vc_mode.spec_count(),
        cfg: s.cfg,
        local_prefix: s.local_prefix,
        rx_buffer_flits: s.rx_buffer_flits,
        data_credit_outstanding: s.data_credit_outstanding,
        data_rx_in_use: s.data_rx_in_use,
        rx: s.rx,
        desynchronized: s.desynchronized,
    }
}

/// The endpoint state with its receive side replaced.
pub open spec fn with_rx_model(s: DlpState, m: RxModel) -> DlpState {
    DlpState {
        data_credit_outstanding: m.data_credit_outstanding,
        data_rx_in_use: m.data_rx_in_use,
        rx: m.rx,
        desynchronized: m.desynchronized,
        ..s
    }
}

impl DlpEndpoint {
    pub closed spec fn wf(&self) -> bool {
        &&& self.rx@.len() == 4
        &&& self.desynchronized@.len() == 4
        &&& self.data_rx_in_use <= self.rx_buffer_flits
        &&& 1 <= self.next_data_vc < self.vc_mode.spec_count()
        &&& frames_pending(frames_view(self.control_tx_queue@))
        &&& frames_pending(frames_view(self.data_tx_queue@))
        &&& forall|i: int|
            0 <= i < 4 && (#[trigger] self.rx@[i]) is Some ==> {
                let s = self.rx@[i]->0;
                &&& s.received_flits < s.expected_flits
                &&& s.bytes@.len() == 4 * s.received_flits
                &&& s.expected_flits == flits_for(s.expected_bytes as nat)
                &&& s.expected_bytes <= 8192 + 20
            }
    }

    /// A link-up endpoint with no credit, nothing queued and nothing received.
    pub fn new(config: DlpConfig) -> (r: Result<Self>)
        ensures
            (config.rx_buffer_flits == 0 || config.control_window_flits == 0) ==> r is Err
                && r->Err_0 == Error::InvalidField,
            !(config.rx_buffer_flits == 0 || config.control_window_flits == 0) ==> r is Ok
                && r->Ok_0.wf() && r->Ok_0@ == fresh_dlp_state(config),
    {
        if config.rx_buffer_flits == 0 || config.control_window_flits == 0 {
            return Err(Error::InvalidField);
        }
        let mut rx: Vec<Option<RxSegment>> = Vec::new();
        rx.push(None);
        rx.push(None);
        rx.push(None);
        rx.push(None);
        let mut desynchronized: Vec<bool> = Vec::new();
        desynchronized.push(false);
        desynchronized.push(false);
        desynchronized.push(false);
        desynchronized.push(false);
        let e = DlpEndpoint {
            cfg: config.gdp,
            local_prefix: config.local_prefix & !0xffffu64,
            vc_mode: config.vc_mode,
            rx_buffer_flits: config.rx_buffer_flits,
            control_window_flits: config.control_window_flits,
            data_tx_credit: 0,
            control_tx_credit: 0,
            data_credit_outstanding: 0,
            data_rx_in_use: 0,
            control_tx_queue: VecDeque::new(),
            data_tx_queue: VecDeque::new(),
            rx,
            desynchronized,
            next_data_vc: 1,
            link_up: true,
        };
        assert(e@.rx =~= seq![None::<RxSegView>, None, None, None]);
        assert(e@.desynchronized =~= seq![false, false, false, false]);
        assert(e@.control_queue =~= Seq::<TxFrameView>::empty());
        assert(e@.data_queue =~= Seq::<TxFrameView>::empty());
        assert(e@ == fresh_dlp_state(config));
        Ok(e)
    }

    pub fn vc_mode(&self) -> (r: VcMode)
        ensures
            r == self@.vc_mode,
    {
        self.vc_mode
    }

    pub fn vc_count(&self) -> (r: u8)
        ensures
            r == self@.vc_mode.spec_count(),
    {
        self.vc_mode.count()
    }

    pub fn rx_buffer_flits(&self) -> (r: u32)
        ensures
            r == self@.rx_buffer_flits,
    {
        self.rx_buffer_flits
    }

    pub fn rx_buffer_in_use(&self) -> (r: u32)
        ensures
            r == self@.data_rx_in_use,
    {
        self.data_rx_in_use
    }

    pub fn control_window_flits(&self) -> (r: u32)
        ensures
            r == self@.control_window_flits,
    {
        self.control_window_flits
    }

    pub fn data_tx_credit(&self) -> (r: u32)
        ensures
            r == self@.data_tx_credit,
    {
        self.data_tx_credit
    }

    pub fn control_tx_credit(&self) -> (r: u32)
        ensures
            r == self@.control_tx_credit,
    {
        self.control_tx_credit
    }

    pub fn data_credit_outstanding(&self) -> (r: u32)
        ensures
            r == self@.data_credit_outstanding,
    {
        self.data_credit_outstanding
    }

    /// Receive buffer not currently holding data flits.
    pub fn available_rx_flits(&self) -> (r: u32)
        ensures
            r == (if self@.rx_buffer_flits >= self@.data_rx_in_use {
                self@.rx_buffer_flits - self@.data_rx_in_use
            } else {
                0
            }),
    {
        self.rx_buffer_flits.saturating_sub(self.data_rx_in_use)
    }

    /// Capacity that may still safely be advertised to the peer.
    pub fn grantable_data_credit(&self) -> (r: u32)
        ensures
            r == spec_grantable(self@.rx_buffer_flits, self@.data_rx_in_use, self@.data_credit_outstanding),
    {
        self.available_rx_flits().saturating_sub(self.data_credit_outstanding)
    }

    /// Records that `count` flits of data credit were granted to the peer.
    pub fn note_data_credit_granted(&mut self, count: u32) -> (r: Result<()>)
        requires
            old(self).wf(),
        ensures
            final(self).wf(),
            count > spec_grantable(old(self)@.rx_buffer_flits, old(self)@.data_rx_in_use, old(self)@.data_credit_outstanding)
                ==> r == Err::<(), Error>(Error::BufferFull) && final(self)@ == old(self)@,
            r is Ok && count > 0 ==> final(self)@.data_rx_in_use + final(self)@.data_credit_outstanding
                <= final(self)@.rx_buffer_flits,
            count <= spec_grantable(old(self)@.rx_buffer_flits, old(self)@.data_rx_in_use, old(self)@.data_credit_outstanding)
                ==> r is Ok && final(self)@ == (DlpState {
                data_credit_outstanding: (old(self)@.data_credit_outstanding + count) as u32,
                ..old(self)@
            }),
    {
        if count > self.grantable_data_credit() {
            return Err(Error::BufferFull);
        }
        self.data_credit_outstanding = self.data_credit_outstanding + count;
        Ok(())
    }

    /// Adds transmit credit for data channels, saturating.
    pub fn grant_data_tx_credit(&mut self, count: u32)
        ensures
            old(self).wf() ==> final(self).wf(),
            final(self)@ == (DlpState {
                data_tx_credit: sat_add(old(self)@.data_tx_credit, count),
                ..old(self)@
            }),
    {
        self.data_tx_credit = self.data_tx_credit.saturating_add(count);
    }

    /// Adds transmit credit for the control channel, saturating.
    pub fn grant_control_tx_credit(&mut self, count: u32)
        ensures
            old(self).wf() ==> final(self).wf(),
            final(self)@ == (DlpState {
                control_tx_credit: sat_add(old(self)@.control_tx_credit, count),
                ..old(self)@
            }),
    {
        self.control_tx_credit = self.control_tx_credit.saturating_add(count);
    }

    /// Sets the local-address prefix; the low 16 bits are cleared.
    pub fn set_local_prefix(&mut self, prefix: u64)
        ensures
            old(self).wf() ==> final(self).wf(),
            final(self)@ == (DlpState { local_prefix: prefix & !0xffffu64, ..old(self)@ }),
    {
        self.local_prefix = prefix & !0xffffu64;
    }

    /// Brings the link up or down; going down discards queues, reassembly
    /// state and all credit.
    pub fn set_link_up(&mut self, up: bool)
        requires
            old(self).wf(),
        ensures
            final(self).wf(),
            final(self)@.link_up == up,
            final(self)@.cfg == old(self)@.cfg,
            final(self)@.local_prefix == old(self)@.local_prefix,
            final(self)@.vc_mode == old(self)@.vc_mode,
            final(self)@.rx_buffer_flits == old(self)@.rx_buffer_flits,
            final(self)@.control_window_flits == old(self)@.control_window_flits,
            final(self)@.next_data_vc == old(self)@.next_data_vc,
            up ==> final(self)@ == (DlpState { link_up: true, ..old(self)@ }),
            !up ==> final(self)@ == link_down_state(old(self)@),
    {
        self.link_up = up;
        let ghost s0 = old(self)@;
        if !up {
            self.control_tx_queue.clear();
            self.data_tx_queue.clear();
            self.rx = empty_rx_slots();
            self.desynchronized = clear_flags();
            self.data_tx_credit = 0;
            self.control_tx_credit = 0;
            self.data_credit_outstanding = 0;
            self.data_rx_in_use = 0;
            assert(self@.rx =~= seq![None::<RxSegView>, None, None, None]);
            assert(self@.desynchronized =~= seq![false, false, false, false]);
            assert(self@.control_queue =~= Seq::<TxFrameView>::empty());
            assert(self@.data_queue =~= Seq::<TxFrameView>::empty());
            assert(self@ == link_down_state(s0));
        }
    }
}

fn empty_rx_slots() -> (r: Vec<Option<RxSegment>>)
    ensures
        r@.len() == 4,
        forall|i: int| 0 <= i < 4 ==> r@[i] is None,
{
    let mut rx: Vec<Option<RxSegment>> = Vec::new();
    rx.push(None);
    rx.push(None);
    rx.push(None);
    rx.push(None);
    rx
}

fn clear_flags() -> (r: Vec<bool>)
    ensures
        r@ == seq![false, false, false, false],
{
    let mut d: Vec<bool> = Vec::new();
    d.push(false);
    d.push(false);
    d.push(false);
    d.push(false);
    assert(d@ =~= seq![false, false, false, false]);
    d
}

/// State of a newly created endpoint.
pub open spec fn fresh_dlp_state(config: DlpConfig) -> DlpState {
    DlpState {
        cfg: config.gdp,
        local_prefix: config.local_prefix & !0xffffu64,
        vc_mode: config.vc_mode,
        rx_buffer_flits: config.rx_buffer_flits,
        control_window_flits: config.control_window_flits,
        data_tx_credit: 0,
        control_tx_credit: 0,
        data_credit_outstanding: 0,
        data_rx_in_use: 0,
        control_queue: Seq::empty(),
        data_queue: Seq::empty(),
        rx: seq![None, None, None, None],
        desynchronized: seq![false, false, false, false],
        next_data_vc: 1,
        link_up: true,
    }
}

/// State after the link goes down: queues, reassembly and credit are gone.
pub open spec fn link_down_state(s: DlpState) -> DlpState {
    DlpState {
        link_up: false,
        control_queue: Seq::empty(),
        data_queue: Seq::empty(),
        rx: seq![None, None, None, None],
        desynchronized: seq![false, false, false, false],
        data_tx_credit: 0,
        control_tx_credit: 0,
        data_credit_outstanding: 0,
        data_rx_in_use: 0,
        ..s
    }
}

/// Credit that may be granted: free receive buffer not already promised.
pub open spec fn spec_grantable(rx_buffer: u32, in_use: u32, outstanding: u32) -> u32 {
    let avail = if rx_buffer >= in_use {
        rx_buffer - in_use
    } else {
        0
    };
    (if avail >= outstanding {
        avail - outstanding
    } else {
        0
    }) as u32
}

/// `a + b`, saturating at `u32::MAX`.
pub open spec fn sat_add(a: u32, b: u32) -> u32 {
    if a + b > u32::MAX {
        u32::MAX
    } else {
        (a + b) as u32
    }
}

} // verus!

verus! {

/// An encoded packet is at least a local header long.
proof fn lemma_packet_bytes_nonempty(p: GdpPacketView, cfg: GdpWireConfig)
    requires
        spec_packet_encode(p, cfg) is Ok,
    ensures
        spec_packet_encode(p, cfg)->Ok_0.len() >= 8,
{
    lemma_header_bytes_len(p.header, cfg);
}

proof fn lemma_total_step(s: Seq<TxFrameView>, i: int)
    requires
        0 <= i < s.len(),
    ensures
        queue_flit_total(s.skip(i)) == (if s[i].remaining() > 0 {
            s[i].remaining() as nat
        } else {
            0nat
        }) + queue_flit_total(s.skip(i + 1)),
{
    assert(s.skip(i).drop_first() =~= s.skip(i + 1));
}

fn queue_flits(queue: &VecDeque<TxFrame>) -> (r: usize)
    requires
        queue_flit_total(frames_view(queue@)) <= usize::MAX,
    ensures
        r == queue_flit_total(frames_view(queue@)),
{
    let ghost s = frames_view(queue@);
    let mut total: usize = 0;
    let mut i: usize = 0;
    proof {
        assert(s.skip(0) =~= s);
    }
    while i < queue.len()
        invariant
            s == frames_view(queue@),
            i <= queue@.len(),
            queue_flit_total(s) == total + queue_flit_total(s.skip(i as int)),
            queue_flit_total(s) <= usize::MAX,
        decreases queue@.len() - i,
    {
        proof {
            lemma_total_step(s, i as int);
        }
        let r = queue[i].remaining_flits();
        total = total + r;
        i = i + 1;
    }
    proof {
        assert(s.skip(i as int) =~= Seq::<TxFrameView>::empty());
    }
    total
}

impl DlpEndpoint {
    /// Flits queued on every channel.
    pub fn queued_flits(&self) -> (r: usize)
        requires
            queue_flit_total(self@.control_queue) + queue_flit_total(self@.data_queue) <= usize::MAX,
        ensures
            r == queue_flit_total(self@.control_queue) + queue_flit_total(self@.data_queue),
    {
        queue_flits(&self.control_tx_queue) + queue_flits(&self.data_tx_queue)
    }

    /// Flits queued on the data channels.
    pub fn queued_data_flits(&self) -> (r: usize)
        requires
            queue_flit_total(self@.data_queue) <= usize::MAX,
        ensures
            r == queue_flit_total(self@.data_queue),
    {
        queue_flits(&self.data_tx_queue)
    }

    /// Flits queued on the control channel.
    pub fn queued_control_flits(&self) -> (r: usize)
        requires
            queue_flit_total(self@.control_queue) <= usize::MAX,
        ensures
            r == queue_flit_total(self@.control_queue),
    {
        queue_flits(&self.control_tx_queue)
    }

    fn choose_data_vc(&mut self) -> (r: Vcid)
        requires
            old(self).wf(),
        ensures
            final(self).wf(),
            r.spec_get() == old(self)@.next_data_vc,
            final(self)@ == (DlpState {
                next_data_vc: next_data_vc(old(self)@.next_data_vc, old(self)@.vc_mode),
                ..old(self)@
            }),
    {
        let count = self.vc_mode.count();
        let vc = self.next_data_vc;
        self.next_data_vc = if vc + 1 >= count {
            1
        } else {
            vc + 1
        };
        Vcid(vc)
    }

    /// Queues a packet on the control channel; returns its flit count.
    pub fn queue_control_packet(&mut self, packet: &GdpPacket) -> (r: Result<usize>)
        requires
            old(self).wf(),
        ensures
            final(self).wf(),
            queue_outcome(old(self)@, final(self)@, LinkTraffic::Control, Vcid::spec_new(0), packet@, r),
    {
        self.queue_packet_on(LinkTraffic::Control, Vcid(0), packet)
    }

    /// Queues a packet on the next data channel in rotation; returns its flit count.
    pub fn queue_data_packet(&mut self, packet: &GdpPacket) -> (r: Result<usize>)
        requires
            old(self).wf(),
        ensures
            final(self).wf(),
            queue_outcome(
                DlpState {
                    next_data_vc: next_data_vc(old(self)@.next_data_vc, old(self)@.vc_mode),
                    ..old(self)@
                },
                final(self)@,
                LinkTraffic::Data,
                Vcid::spec_new(old(self)@.next_data_vc),
                packet@,
                r,
            ),
    {
        let vc = self.choose_data_vc();
        proof {
            Vcid::lemma_spec_new(vc);
        }
        self.queue_packet_on(LinkTraffic::Data, vc, packet)
    }

    /// Queue one encoded GDP frame without pre-materializing physical flits.
    pub fn queue_packet_on(&mut self, traffic: LinkTraffic, vcid: Vcid, packet: &GdpPacket) -> (r:
        Result<usize>)
        requires
            old(self).wf(),
        ensures
            final(self).wf(),
            queue_outcome(old(self)@, final(self)@, traffic, vcid, packet@, r),
    {
        if !self.link_up {
            return Err(Error::LinkDown);
        }
        if vcid.get() >= self.vc_mode.count() {
            return Err(Error::InvalidField);
        }
        if traffic == LinkTraffic::Control && !vcid.is_control() {
            return Err(Error::InvalidField);
        }
        if traffic == LinkTraffic::Data && vcid.is_control() {
            return Err(Error::InvalidField);
        }
        let bytes = packet.encode(self.cfg)?;
        proof {
            lemma_packet_bytes_nonempty(packet@, self.cfg);
        }
        let n = flit_count(bytes.len());
        let frame = TxFrame { vcid, traffic, bytes, flit_offset: 0 };
        let ghost fv = frame@;
        match traffic {
            LinkTraffic::Control => {
                self.control_tx_queue.push_back(frame);
                assert(frames_view(self.control_tx_queue@) =~= frames_view(
                    old(self).control_tx_queue@,
                ).push(fv));
            },
            LinkTraffic::Data => {
                self.data_tx_queue.push_back(frame);
                assert(frames_view(self.data_tx_queue@) =~= frames_view(
                    old(self).data_tx_queue@,
                ).push(fv));
            },
        }
        Ok(n)
    }
}

/// Data channel that follows `vc` in the rotation over channels 1 to count - 1.
pub open spec fn next_data_vc(vc: u8, mode: VcMode) -> u8 {
    if vc + 1 >= mode.spec_count() {
        1
    } else {
        (vc + 1) as u8
    }
}

impl Vcid {
    /// The channel numbered `v`.
    pub closed spec fn spec_new(v: u8) -> Vcid {
        Vcid(v)
    }

    pub proof fn lemma_spec_new(c: Vcid)
        ensures
            Vcid::spec_new(c.spec_get()) == c,
            forall|v: u8| #[trigger] Vcid::spec_new(v).spec_get() == v,
    {
    }
}

/// What queueing `p` as `traffic` on `vcid` does to the endpoint and returns.
pub open spec fn queue_outcome(
    s: DlpState,
    s2: DlpState,
    traffic: LinkTraffic,
    vcid: Vcid,
    p: GdpPacketView,
    r: Result<usize>,
) -> bool {
    if !s.link_up {
        r == Err::<usize, Error>(Error::LinkDown) && s2 == s
    } else if vcid.spec_get() >= s.vc_mode.spec_count() {
        r == Err::<usize, Error>(Error::InvalidField) && s2 == s
    } else if (traffic == LinkTraffic::Control) != (vcid.spec_get() == 0) {
        r == Err::<usize, Error>(Error::InvalidField) && s2 == s
    } else {
        match spec_packet_encode(p, s.cfg) {
            Err(e) => r == Err::<usize, Error>(e) && s2 == s,
            Ok(bytes) => {
                let f = TxFrameView { vcid, traffic, bytes, flit_offset: 0 };
                &&& r == Ok::<usize, Error>(flits_for(bytes.len()) as usize)
                &&& traffic == LinkTraffic::Control ==> s2 == DlpState {
                    control_queue: s.control_queue.push(f),
                    ..s
                }
                &&& traffic == LinkTraffic::Data ==> s2 == DlpState {
                    data_queue: s.data_queue.push(f),
                    ..s
                }
            },
        }
    }
}

} // verus!

verus! {

/// Mathematical value of a frame.
pub struct GnetFrameView {
    pub vcid: Vcid,
    pub traffic: LinkTraffic,
    pub bytes: Seq<u8>,
}

impl View for GnetFrame {
    type V = GnetFrameView;

    open spec fn view(&self) -> GnetFrameView {
        GnetFrameView { vcid: self.vcid, traffic: self.traffic, bytes: self.bytes@ }
    }
}

/// Taking the front frame of `q` whole, if `credit` covers it.
pub open spec fn spec_pop(q: Seq<TxFrameView>, credit: u32) -> (Seq<TxFrameView>, u32, Result<
    Option<GnetFrameView>,
>) {
    if q.len() == 0 {
        (q, credit, Ok(None))
    } else if q[0].flit_offset != 0 {
        (q, credit, Err(Error::InvalidState))
    } else if flits_for(q[0].bytes.len()) > credit {
        (q, credit, Ok(None))
    } else {
        (
            q.drop_first(),
            (credit - flits_for(q[0].bytes.len())) as u32,
            Ok(Some(GnetFrameView { vcid: q[0].vcid, traffic: q[0].traffic, bytes: q[0].bytes })),
        )
    }
}

/// Whole-frame transmission: control first, then data.
pub open spec fn spec_poll_tx_frame(s: DlpState) -> (DlpState, Result<Option<GnetFrameView>>) {
    if !s.link_up {
        (s, Err(Error::LinkDown))
    } else {
        let (cq, cc, cr) = spec_pop(s.control_queue, s.control_tx_credit);
        let s1 = DlpState { control_queue: cq, control_tx_credit: cc, ..s };
        match cr {
            Err(e) => (s1, Err(e)),
            Ok(Some(f)) => (s1, Ok(Some(f))),
            Ok(None) => {
                let (dq, dc, dr) = spec_pop(s1.data_queue, s1.data_tx_credit);
                let s2 = DlpState { data_queue: dq, data_tx_credit: dc, ..s1 };
                match dr {
                    Err(e) => (s2, Err(e)),
                    Ok(Some(f)) => (s2, Ok(Some(f))),
                    Ok(None) => if s2.control_queue.len() == 0 && s2.data_queue.len() == 0 {
                        (s2, Ok(None))
                    } else {
                        (s2, Err(Error::NoCredit))
                    },
                }
            },
        }
    }
}

fn pop_sendable_frame(queue: &mut VecDeque<TxFrame>, credit: &mut u32) -> (r: Result<
    Option<GnetFrame>,
>)
    requires
        frames_pending(frames_view(old(queue)@)),
    ensures
        frames_pending(frames_view(final(queue)@)),
        ({
            let (q2, c2, res) = spec_pop(frames_view(old(queue)@), *old(credit));
            &&& frames_view(final(queue)@) == q2
            &&& *final(credit) == c2
            &&& match res {
                Ok(Some(f)) => r is Ok && r->Ok_0 is Some && r->Ok_0->0@ == f,
                Ok(None) => r is Ok && r->Ok_0 is None,
                Err(e) => r is Err && r->Err_0 == e,
            }
        }),
{
    if queue.len() == 0 {
        return Ok(None);
    }
    if queue[0].flit_offset != 0 {
        return Err(Error::InvalidState);
    }
    let needed = queue[0].flit_len();
    if needed > *credit as usize {
        return Ok(None);
    }
    *credit = *credit - needed as u32;
    let ghost before = frames_view(queue@);
    match queue.pop_front() {
        Some(front) => {
            assert(frames_view(queue@) =~= before.drop_first());
            match front.into_frame() {
                Ok(f) => Ok(Some(f)),
                Err(e) => Err(e),
            }
        },
        None => Ok(None),
    }
}

impl DlpEndpoint {
    /// QDX-GNET-style whole-frame transmit path.
    ///
    /// This is the normal software/device boundary. It preserves DLP credit
    /// accounting but does not create one Rust object/API transition per flit.
    pub fn poll_tx_frame(&mut self) -> (r: Result<Option<GnetFrame>>)
        requires
            old(self).wf(),
        ensures
            final(self).wf(),
            final(self)@ == spec_poll_tx_frame(old(self)@).0,
            match spec_poll_tx_frame(old(self)@).1 {
                Ok(Some(f)) => r is Ok && r->Ok_0 is Some && r->Ok_0->0@ == f,
                Ok(None) => r is Ok && r->Ok_0 is None,
                Err(e) => r is Err && r->Err_0 == e,
            },
    {
        if !self.link_up {
            return Err(Error::LinkDown);
        }
        match pop_sendable_frame(&mut self.control_tx_queue, &mut self.control_tx_credit) {
            Err(e) => {
                return Err(e);
            },
            Ok(Some(frame)) => {
                return Ok(Some(frame));
            },
            Ok(None) => {},
        }
        match pop_sendable_frame(&mut self.data_tx_queue, &mut self.data_tx_credit) {
            Err(e) => {
                return Err(e);
            },
            Ok(Some(frame)) => {
                return Ok(Some(frame));
            },
            Ok(None) => {},
        }
        if self.control_tx_queue.len() == 0 && self.data_tx_queue.len() == 0 {
            Ok(None)
        } else {
            Err(Error::NoCredit)
        }
    }
}

} // verus!

verus! {

/// The queue after its first flit has been sent.
pub open spec fn step(q: Seq<TxFrameView>) -> Seq<TxFrameView> {
    if q[0].remaining() <= 1 {
        q.drop_first()
    } else {
        q.update(0, TxFrameView { flit_offset: q[0].flit_offset + 1, ..q[0] })
    }
}

/// Flits that one emission pass sends: bounded by room, credit and backlog.
pub open spec fn emit_count(q: Seq<TxFrameView>, credit: u32, room: int) -> int {
    let t = queue_flit_total(q) as int;
    let a = if room < credit as int {
        room
    } else {
        credit as int
    };
    if a < t {
        a
    } else {
        t
    }
}

proof fn lemma_stream_len(q: Seq<TxFrameView>)
    requires
        frames_pending(q),
    ensures
        queue_stream(q).len() == queue_flit_total(q),
    decreases q.len(),
{
    if q.len() > 0 {
        assert(frames_pending(q.drop_first()));
        lemma_stream_len(q.drop_first());
    }
}

proof fn lemma_step_stream(q: Seq<TxFrameView>)
    requires
        frames_pending(q),
        q.len() > 0,
    ensures
        frames_pending(step(q)),
        queue_stream(step(q)) == queue_stream(q).drop_first(),
        queue_flit_total(step(q)) + 1 == queue_flit_total(q),
        queue_stream(q)[0] == q[0].pending_flits()[0],
{
    let f = q[0];
    let rest = q.drop_first();
    if f.remaining() <= 1 {
        assert(f.pending_flits().len() == 1);
        assert(queue_stream(q).drop_first() =~= queue_stream(rest));
    } else {
        let f2 = TxFrameView { flit_offset: f.flit_offset + 1, ..f };
        let q2 = q.update(0, f2);
        assert(q2.drop_first() =~= rest);
        assert(f2.pending_flits() =~= f.pending_flits().drop_first());
        assert(queue_stream(q2) =~= queue_stream(q).drop_first());
        assert forall|i: int| 0 <= i < q2.len() implies (#[trigger] q2[i]).remaining() > 0 by {
            if i > 0 {
                assert(q2[i] == q[i]);
            }
        }
    }
}

proof fn lemma_advance_step(q: Seq<TxFrameView>, n: int)
    requires
        frames_pending(q),
        0 <= n < queue_flit_total(q),
    ensures
        advance(q, n).len() > 0,
        frames_pending(advance(q, n)),
        advance(q, n + 1) == step(advance(q, n)),
    decreases q.len(),
{
    let f = q[0];
    let r = f.remaining();
    let rest = q.drop_first();
    assert(frames_pending(rest));
    if n + 1 < r {
        if n > 0 {
            assert forall|i: int| 0 <= i < advance(q, n).len() implies (#[trigger] advance(q, n)[i]).remaining() > 0 by {
                if i > 0 {
                    assert(advance(q, n)[i] == q[i]);
                }
            }
            assert(advance(q, n + 1) =~= step(advance(q, n)));
        } else {
            assert(advance(q, 1) =~= step(q));
        }
    } else if n + 1 == r {
        if n > 0 {
            assert forall|i: int| 0 <= i < advance(q, n).len() implies (#[trigger] advance(q, n)[i]).remaining() > 0 by {
                if i > 0 {
                    assert(advance(q, n)[i] == q[i]);
                }
            }
            assert(advance(q, n).drop_first() =~= rest);
        }
        assert(advance(rest, 0) == rest);
    } else {
        lemma_advance_step(rest, n - r);
    }
}

/// Emits flits from the front of `queue` into `out[start..]` while room and
/// credit last; returns how many were written.
fn emit_queue_flits(queue: &mut VecDeque<TxFrame>, credit: &mut u32, out: &mut [Flit], start: usize) -> (r: usize)
    requires
        frames_pending(frames_view(old(queue)@)),
        start <= old(out)@.len(),
    ensures
        r == emit_count(frames_view(old(queue)@), *old(credit), old(out)@.len() - start),
        frames_pending(frames_view(final(queue)@)),
        frames_view(final(queue)@) == advance(frames_view(old(queue)@), r as int),
        *final(credit) == *old(credit) - r,
        final(out)@.len() == old(out)@.len(),
        forall|i: int|
            0 <= i < final(out)@.len() ==> #[trigger] final(out)@[i] == if start <= i < start + r {
                queue_stream(frames_view(old(queue)@))[i - start]
            } else {
                old(out)@[i]
            },
{
    let ghost q0 = frames_view(queue@);
    let ghost c0 = *credit;
    let ghost o0 = out@;
    let mut written: usize = 0;
    let _olen = out.len();
    proof {
        lemma_stream_len(q0);
    }
    while start + written < out.len() && *credit != 0 && queue.len() > 0
        invariant
            start <= o0.len(),
            o0.len() <= usize::MAX,
            frames_pending(q0),
            out@.len() == o0.len(),
            frames_pending(frames_view(queue@)),
            frames_view(queue@) == advance(q0, written as int),
            queue_stream(frames_view(queue@)) == queue_stream(q0).skip(written as int),
            queue_stream(q0).len() == queue_flit_total(q0),
            written <= queue_flit_total(q0),
            written <= c0,
            *credit == c0 - written,
            start + written <= o0.len(),
            forall|i: int|
                0 <= i < out@.len() ==> #[trigger] out@[i] == if start <= i < start + written {
                    queue_stream(q0)[i - start]
                } else {
                    o0[i]
                },
        decreases o0.len() - written + queue@.len(),
    {
        let ghost qv = frames_view(queue@);
        proof {
            lemma_stream_len(qv);
            lemma_step_stream(qv);
            assert(written < queue_flit_total(q0));
            lemma_advance_step(q0, written as int);
        }
        let mut front = match queue.pop_front() {
            Some(f) => f,
            None => {
                return written;
            },
        };
        match front.next_flit() {
            None => {},
            Some(flit) => {
                out[start + written] = flit;
                written = written + 1;
                *credit = *credit - 1;
                if front.remaining_flits() > 0 {
                    queue.push_front(front);
                }
                proof {
                    assert(frames_view(queue@) =~= step(qv));
                    assert(queue_stream(q0).skip(written as int) =~= queue_stream(q0).skip(
                        written - 1,
                    ).drop_first());
                }
            },
        }
    }
    proof {
        lemma_stream_len(frames_view(queue@));
    }
    written
}

/// Emission in the burst path: control first into `out`, then data into what is left.
pub open spec fn burst_counts(s: DlpState, room: int) -> (int, int) {
    let wc = emit_count(s.control_queue, s.control_tx_credit, room);
    let wd = emit_count(s.data_queue, s.data_tx_credit, room - wc);
    (wc, wd)
}

/// `t`, `out1` and `r` are the link state, output and result after a
/// burst transmit from `s` into `out0`.
pub open spec fn tx_burst_outcome(s: DlpState, t: DlpState, out0: Seq<Flit>, out1: Seq<Flit>, r: Result<usize>) -> bool {
    if !s.link_up {
        r == Err::<usize, Error>(Error::LinkDown) && t == s && out1 == out0
    } else if out0.len() == 0 {
        r == Ok::<usize, Error>(0usize) && t == s && out1 == out0
    } else {
        let (wc, wd) = burst_counts(s, out0.len() as int);
        &&& t == DlpState {
            control_queue: advance(s.control_queue, wc),
            control_tx_credit: (s.control_tx_credit - wc) as u32,
            data_queue: advance(s.data_queue, wd),
            data_tx_credit: (s.data_tx_credit - wd) as u32,
            ..s
        }
        &&& out1.len() == out0.len()
        &&& forall|i: int|
            0 <= i < out1.len() ==> #[trigger] out1[i] == if i < wc {
                queue_stream(s.control_queue)[i]
            } else if i < wc + wd {
                queue_stream(s.data_queue)[i - wc]
            } else {
                out0[i]
            }
        &&& wc + wd != 0 ==> r == Ok::<usize, Error>((wc + wd) as usize)
        &&& wc + wd == 0 ==> (if s.control_queue.len() == 0 && s.data_queue.len() == 0 {
            r == Ok::<usize, Error>(0usize)
        } else {
            r == Err::<usize, Error>(Error::NoCredit)
        })
    }
}

/// `t` and `r` are the link state and result after sending one flit from `s`.
pub open spec fn tx_poll_outcome(s: DlpState, t: DlpState, r: Result<Option<Flit>>) -> bool {
    if !s.link_up {
        r == Err::<Option<Flit>, Error>(Error::LinkDown) && t == s
    } else {
        let (wc, wd) = burst_counts(s, 1);
        &&& t == DlpState {
            control_queue: advance(s.control_queue, wc),
            control_tx_credit: (s.control_tx_credit - wc) as u32,
            data_queue: advance(s.data_queue, wd),
            data_tx_credit: (s.data_tx_credit - wd) as u32,
            ..s
        }
        &&& wc == 1 ==> r == Ok::<Option<Flit>, Error>(Some(queue_stream(s.control_queue)[0]))
        &&& wd == 1 ==> r == Ok::<Option<Flit>, Error>(Some(queue_stream(s.data_queue)[0]))
        &&& wc + wd == 0 ==> (if s.control_queue.len() == 0 && s.data_queue.len() == 0 {
            r == Ok::<Option<Flit>, Error>(None)
        } else {
            r == Err::<Option<Flit>, Error>(Error::NoCredit)
        })
    }
}

impl DlpEndpoint {
    /// Raw-flit backend API. Flits are materialized lazily from contiguous
    /// queued frames only when a raw physical/simulation backend asks for them.
    pub fn poll_tx_burst(&mut self, out: &mut [Flit]) -> (r: Result<usize>)
        requires
            old(self).wf(),
        ensures
            final(self).wf(),
            tx_burst_outcome(old(self)@, final(self)@, old(out)@, final(out)@, r),
    {
        if !self.link_up {
            return Err(Error::LinkDown);
        }
        if out.len() == 0 {
            return Ok(0);
        }
        let control_n = emit_queue_flits(
            &mut self.control_tx_queue,
            &mut self.control_tx_credit,
            out,
            0,
        );
        let data_n = emit_queue_flits(
            &mut self.data_tx_queue,
            &mut self.data_tx_credit,
            out,
            control_n,
        );
        let written = control_n + data_n;
        if written != 0 {
            return Ok(written);
        }
        if self.control_tx_queue.len() == 0 && self.data_tx_queue.len() == 0 {
            Ok(0)
        } else {
            Err(Error::NoCredit)
        }
    }

    /// One flit, or `None` when nothing is queued.
    pub fn poll_tx(&mut self) -> (r: Result<Option<Flit>>)
        requires
            old(self).wf(),
        ensures
            final(self).wf(),
            tx_poll_outcome(old(self)@, final(self)@, r),
    {
        let mut one: Vec<Flit> = Vec::new();
        one.push(Flit { vcid: Vcid(0), data: 0 });
        let n = self.poll_tx_burst(one.as_mut_slice())?;
        if n == 0 {
            Ok(None)
        } else {
            Ok(Some(one[0]))
        }
    }
}

} // verus!

verus! {

/// Whole-frame reception.
pub open spec fn spec_receive_frame(s: DlpState, f: GnetFrameView) -> (DlpState, Result<GdpPacketView>) {
    let flits = flits_for(f.bytes.len());
    let data = f.traffic == LinkTraffic::Data;
    if !s.link_up {
        (s, Err(Error::LinkDown))
    } else if f.vcid.spec_get() >= s.vc_mode.spec_count() {
        (s, Err(Error::InvalidField))
    } else if (f.traffic == LinkTraffic::Control) != (f.vcid.spec_get() == 0) {
        (s, Err(Error::InvalidField))
    } else if data && s.data_credit_outstanding < flits {
        (s, Err(Error::CreditViolation))
    } else if data && s.rx_buffer_flits - s.data_rx_in_use < flits {
        (s, Err(Error::BufferFull))
    } else {
        let s2 = if data {
            DlpState { data_credit_outstanding: (s.data_credit_outstanding - flits) as u32, ..s }
        } else {
            s
        };
        (s2, spec_packet_decode(f.bytes, s.cfg, s.local_prefix))
    }
}

impl DlpEndpoint {
    fn release_data_segment(&mut self, flits: usize)
        requires
            old(self).wf(),
            flits <= u32::MAX,
        ensures
            final(self).wf(),
            final(self)@ == (DlpState {
                data_rx_in_use: (if old(self)@.data_rx_in_use >= flits {
                    old(self)@.data_rx_in_use - flits
                } else {
                    0
                }) as u32,
                ..old(self)@
            }),
    {
        self.data_rx_in_use = self.data_rx_in_use.saturating_sub(flits as u32);
    }

    /// QDX-GNET-style whole-frame receive path.
    pub fn receive_frame(&mut self, frame: GnetFrame) -> (r: Result<GdpPacket>)
        requires
            old(self).wf(),
        ensures
            final(self).wf(),
            final(self)@ == spec_receive_frame(old(self)@, frame@).0,
            match spec_receive_frame(old(self)@, frame@).1 {
                Ok(p) => r is Ok && r->Ok_0@ == p,
                Err(e) => r is Err && r->Err_0 == e,
            },
    {
        if !self.link_up {
            return Err(Error::LinkDown);
        }
        if frame.vcid.get() >= self.vc_mode.count() {
            return Err(Error::InvalidField);
        }
        if frame.traffic == LinkTraffic::Control && !frame.vcid.is_control() {
            return Err(Error::InvalidField);
        }
        if frame.traffic == LinkTraffic::Data && frame.vcid.is_control() {
            return Err(Error::InvalidField);
        }
        let flits = frame.flit_len();
        let data = frame.traffic == LinkTraffic::Data;
        if data {
            if (self.data_credit_outstanding as usize) < flits {
                return Err(Error::CreditViolation);
            }
            if ((self.rx_buffer_flits - self.data_rx_in_use) as usize) < flits {
                return Err(Error::BufferFull);
            }
            self.data_credit_outstanding = self.data_credit_outstanding - flits as u32;
            self.data_rx_in_use = self.data_rx_in_use + flits as u32;
        }
        let decoded = GdpPacket::decode(frame.bytes.as_slice(), self.cfg, self.local_prefix);
        if data {
            self.release_data_segment(flits);
        }
        decoded
    }

    /// Raw physical-flit receive path.
    pub fn receive(&mut self, flit: Flit) -> (r: Result<Option<GdpPacket>>)
        requires
            old(self).wf(),
        ensures
            final(self).wf(),
            final(self)@ == with_rx_model(old(self)@, spec_receive(rx_model(old(self)@), flit).0),
            match spec_receive(rx_model(old(self)@), flit).1 {
                Ok(Some(p)) => r is Ok && r->Ok_0 is Some && r->Ok_0->0@ == p,
                Ok(None) => r is Ok && r->Ok_0 is None,
                Err(e) => r is Err && r->Err_0 == e,
            },
    {
        let ghost m = rx_model(self@);
        if !self.link_up {
            return Err(Error::LinkDown);
        }
        let idx = flit.vcid.get() as usize;
        if idx >= self.vc_mode.count() as usize {
            return Err(Error::InvalidField);
        }
        if self.desynchronized[idx] {
            return Err(Error::Desynchronized);
        }
        let data = !flit.vcid.is_control();
        let traffic = if data {
            LinkTraffic::Data
        } else {
            LinkTraffic::Control
        };
        if data {
            if self.data_credit_outstanding == 0 {
                return Err(Error::CreditViolation);
            }
            if self.data_rx_in_use >= self.rx_buffer_flits {
                return Err(Error::BufferFull);
            }
            self.data_credit_outstanding = self.data_credit_outstanding - 1;
            self.data_rx_in_use = self.data_rx_in_use + 1;
        }
        let ghost s1 = self@;
        let mut seg = match self.rx[idx].take() {
            Some(s) => s,
            None => {
                let w = flit.data;
                assert(((w >> 22u32) & 0xfu32) < 16u32) by (bit_vector);
                let size = match SizeClass::from_wire(((w >> 22u32) & 0xfu32) as u8) {
                    Ok(v) => v,
                    Err(e) => {
                        if data {
                            self.release_data_segment(1);
                        }
                        self.desynchronized.set(idx, true);
                        return Err(e);
                    },
                };
                let form = self.cfg.form_from_bit(((w >> 21u32) & 1u32) != 0);
                let header_len: usize = match form {
                    AddressForm::Global => 20,
                    AddressForm::Local => 8,
                };
                let total = header_len + size.bytes();
                RxSegment {
                    bytes: Vec::new(),
                    expected_bytes: total,
                    expected_flits: flit_count(total),
                    received_flits: 0,
                    traffic,
                }
            },
        };
        let ghost s2 = self@;
        if seg.traffic != traffic {
            self.rx.set(idx, Some(seg));
            assert(self@.rx =~= s1.rx.update(idx as int, Some(seg@)));
            return Err(Error::InvalidState);
        }
        push_u32(&mut seg.bytes, flit.data);
        seg.received_flits = seg.received_flits + 1;
        if seg.received_flits < seg.expected_flits {
            self.rx.set(idx, Some(seg));
            assert(self@.rx =~= s1.rx.update(idx as int, Some(seg@)));
            return Ok(None);
        }
        assert(self@.rx =~= s1.rx.update(idx as int, None));
        let received = seg.received_flits;
        seg.bytes.truncate(seg.expected_bytes);
        if data {
            self.release_data_segment(received);
        }
        match GdpPacket::decode(seg.bytes.as_slice(), self.cfg, self.local_prefix) {
            Ok(p) => Ok(Some(p)),
            Err(e) => {
                self.desynchronized.set(idx, true);
                Err(e)
            },
        }
    }

    /// Abandons reassembly on `vcid` and clears its desynchronized flag.
    pub fn reset_vc(&mut self, vcid: Vcid) -> (r: Result<()>)
        requires
            old(self).wf(),
        ensures
            final(self).wf(),
            vcid.spec_get() >= old(self)@.vc_mode.spec_count() ==> r == Err::<(), Error>(
                Error::InvalidField,
            ) && final(self)@ == old(self)@,
            vcid.spec_get() < old(self)@.vc_mode.spec_count() ==> r is Ok && ({
                let i = vcid.spec_get() as int;
                let s = old(self)@;
                let in_use = match s.rx[i] {
                    Some(seg) => if seg.traffic == LinkTraffic::Data {
                        if s.data_rx_in_use >= seg.received_flits {
                            (s.data_rx_in_use - seg.received_flits) as u32
                        } else {
                            0u32
                        }
                    } else {
                        s.data_rx_in_use
                    },
                    None => s.data_rx_in_use,
                };
                final(self)@ == DlpState {
                    rx: s.rx.update(i, None),
                    desynchronized: s.desynchronized.update(i, false),
                    data_rx_in_use: in_use,
                    ..s
                }
            }),
    {
        if vcid.get() >= self.vc_mode.count() {
            return Err(Error::InvalidField);
        }
        let i = vcid.get() as usize;
        let ghost s0 = self@;
        match self.rx[i].take() {
            Some(segment) => {
                if segment.traffic == LinkTraffic::Data {
                    self.release_data_segment(segment.received_flits);
                }
            },
            None => {},
        }
        self.desynchronized.set(i, false);
        assert(self@.rx =~= s0.rx.update(i as int, None));
        Ok(())
    }
}

} // verus!

verus! {

/// Receiving `flits` in order: the final receive state, the packets completed,
/// and the first error, which stops the burst.
pub open spec fn spec_receive_burst(m: RxModel, flits: Seq<Flit>) -> (RxModel, Seq<GdpPacketView>, Option<Error>)
    decreases flits.len(),
{
    if flits.len() == 0 {
        (m, Seq::empty(), None)
    } else {
        let (m1, r) = spec_receive(m, flits[0]);
        match r {
            Err(e) => (m1, Seq::empty(), Some(e)),
            Ok(o) => {
                let (m2, ps, e) = spec_receive_burst(m1, flits.drop_first());
                let head: Seq<GdpPacketView> = match o {
                    Some(p) => seq![p],
                    None => Seq::empty(),
                };
                (m2, head + ps, e)
            },
        }
    }
}

/// Views of received packets.
pub open spec fn packets_view(v: Seq<GdpPacket>) -> Seq<GdpPacketView> {
    v.map_values(|p: GdpPacket| p@)
}

impl DlpEndpoint {
    /// Receives every flit of `flits`, appending completed packets to `packets`;
    /// returns how many were appended, or the first error.
    pub fn receive_burst(&mut self, flits: &[Flit], packets: &mut Vec<GdpPacket>) -> (r: Result<usize>)
        requires
            old(self).wf(),
        ensures
            final(self).wf(),
            ({
                let (m2, ps, e) = spec_receive_burst(rx_model(old(self)@), flits@);
                &&& final(self)@ == with_rx_model(old(self)@, m2)
                &&& packets_view(final(packets)@) == packets_view(old(packets)@) + ps
                &&& match e {
                    Some(err) => r == Err::<usize, Error>(err),
                    None => r == Ok::<usize, Error>(ps.len() as usize),
                }
            }),
    {
        let ghost s0 = self@;
        let ghost p0 = packets_view(packets@);
        let ghost whole = spec_receive_burst(rx_model(s0), flits@);
        let before = packets.len();
        let mut i: usize = 0;
        let mut failure: Option<Error> = None;
        proof {
            assert(flits@.skip(0) =~= flits@);
            assert(p0 + Seq::<GdpPacketView>::empty() =~= p0);
        }
        while i < flits.len() && failure.is_none()
            invariant
                self.wf(),
                i <= flits@.len(),
                before == p0.len(),
                packets_view(packets@).len() >= p0.len(),
                packets_view(packets@).subrange(0, p0.len() as int) == p0,
                failure is None ==> ({
                    let rest = spec_receive_burst(rx_model(self@), flits@.skip(i as int));
                    &&& whole.0 == rest.0
                    &&& whole.1 == packets_view(packets@).subrange(p0.len() as int, packets_view(packets@).len() as int) + rest.1
                    &&& whole.2 == rest.2
                }),
                failure is Some ==> ({
                    &&& whole.0 == rx_model(self@)
                    &&& whole.1 == packets_view(packets@).subrange(p0.len() as int, packets_view(packets@).len() as int)
                    &&& whole.2 == failure
                }),
                self@ == with_rx_model(s0, rx_model(self@)),
            decreases flits@.len() - i,
        {
            let ghost pv = packets_view(packets@);
            let ghost m_before = rx_model(self@);
            proof {
                assert(flits@.skip(i as int).drop_first() =~= flits@.skip(i + 1));
                assert(flits@.skip(i as int)[0] == flits@[i as int]);
            }
            let got = self.receive(flits[i]);
            match got {
                Err(e) => {
                    proof {
                        assert(pv.subrange(p0.len() as int, pv.len() as int) + Seq::<GdpPacketView>::empty()
                            =~= pv.subrange(p0.len() as int, pv.len() as int));
                    }
                    failure = Some(e);
                },
                Ok(Some(packet)) => {
                    let ghost pp = packet@;
                    packets.push(packet);
                    proof {
                        assert(packets_view(packets@) =~= pv.push(pp));
                        assert(packets_view(packets@).subrange(p0.len() as int, packets_view(packets@).len() as int)
                            =~= pv.subrange(p0.len() as int, pv.len() as int).push(pp));
                        assert(packets_view(packets@).subrange(0, p0.len() as int) =~= pv.subrange(0, p0.len() as int));
                    }
                },
                Ok(None) => {},
            }
            i = i + 1;
        }
        proof {
            if failure is None {
                assert(flits@.skip(i as int) =~= Seq::<Flit>::empty());
            }
            let pv = packets_view(packets@);
            assert(pv =~= p0 + pv.subrange(p0.len() as int, pv.len() as int));
        }
        match failure {
            Some(e) => Err(e),
            None => Ok(packets.len() - before),
        }
    }
}


/// What one end of a link sends is what the other end receives: a packet
/// queued on an up link with nothing queued ahead of it on its channel class,
/// and enough transmit credit for it, leaves as the next frame, and a peer
/// that is up, speaks the same wire polarity and local prefix and has room
/// for it decodes exactly that packet from the frame.
pub proof fn law_link_delivers_packet(
    s: DlpState,
    s1: DlpState,
    traffic: LinkTraffic,
    vcid: Vcid,
    p: GdpPacketView,
    r: Result<usize>,
    peer: DlpState,
)
    requires
        queue_outcome(s, s1, traffic, vcid, p, r),
        r is Ok,
        s.control_queue.len() == 0,
        traffic == LinkTraffic::Data ==> s.data_queue.len() == 0,
        traffic == LinkTraffic::Control ==> s1.control_tx_credit >= r->Ok_0,
        traffic == LinkTraffic::Data ==> s1.data_tx_credit >= r->Ok_0,
        GdpType::spec_from_wire(p.header.packet_type.spec_to_wire()) == p.header.packet_type,
        p.header.addresses is Local ==> p.header.addresses->prefix == clear_low16(peer.local_prefix),
        peer.link_up,
        peer.cfg == s.cfg,
        vcid.spec_get() < peer.vc_mode.spec_count(),
        traffic == LinkTraffic::Data ==> peer.data_credit_outstanding >= r->Ok_0
            && peer.rx_buffer_flits - peer.data_rx_in_use >= r->Ok_0,
    ensures
        spec_poll_tx_frame(s1).1 matches Ok(Some(f)) && spec_receive_frame(peer, f).1 == Ok::<
            GdpPacketView,
            Error,
        >(p),
{
    law_packet_roundtrip(p, s.cfg, peer.local_prefix);
}

} // verus!

verus! {

/// Credit never promises more than the free receive buffer: while the flits
/// in use and the credit outstanding fit the buffer, what may still be
/// granted is exactly the rest of it, and granting any more would overflow it.
pub proof fn law_grantable_fills_free_buffer(rx_buffer: u32, in_use: u32, outstanding: u32)
    ensures
        in_use + outstanding <= rx_buffer ==> spec_grantable(rx_buffer, in_use, outstanding) + outstanding
            + in_use == rx_buffer,
        in_use + outstanding >= rx_buffer ==> spec_grantable(rx_buffer, in_use, outstanding) == 0,
{
}

} // verus!

use vstd::prelude::*;

use crate::error::{Error, Result};
use crate::gts::{acked, bit_set, lemma_set_bit};
use crate::wire::bytes::copy_range;
use crate::storage::{MessagePool, MessageSlot, count_used, entry_bytes, entry_meta, first_unused};
use crate::wire::css::ServiceSelector;
use crate::wire::gts::StreamProfile;

verus! {

use vstd::wrapping::u32_specs::{wrapping_add, wrapping_sub};

pub const DEFAULT_RTO_MS: u64 = 500;

#[derive(Debug, Clone, Copy, PartialEq, Eq, Structural)]
pub enum TunnelRole {
    Initiator,
    Responder,
}

#[derive(Debug, Clone, Copy, PartialEq, Eq, Structural)]
pub enum TunnelState {
    Connecting,
    Established,
    Closing,
    Closed,
    Reset,
}

#[derive(Debug, Clone, Copy, PartialEq, Eq, Structural)]
pub enum StreamState {
    Opening,
    Open,
    Closing,
    Closed,
    Reset,
}

/// Metadata of a message waiting for acknowledgement.
#[derive(Debug, Clone, Copy, PartialEq, Eq, Structural)]
pub struct TxMeta {
    pub stream_id: u8,
    pub sequence: u32,
    pub end: bool,
    pub sent_at: u64,
}

#[derive(Debug, Clone, Copy, PartialEq, Eq, Structural)]
pub enum RxDisposition {
    Pending,
    Delivered,
}

/// Metadata of a received message: held for reordering, or readable in
/// delivery `order`.
#[derive(Debug, Clone, Copy, PartialEq, Eq, Structural)]
pub struct RxMeta {
    pub stream_id: u8,
    pub sequence: u32,
    pub end: bool,
    pub disposition: RxDisposition,
    pub order: u64,
}

/// Per-stream state of a bounded socket.
#[derive(Debug, Clone, Copy, PartialEq, Eq)]
pub struct StreamCore {
    pub id: u8,
    pub profile: StreamProfile,
    pub state: StreamState,
    pub opened_by_local: bool,
    pub next_tx_sequence: u32,
    pub next_expected: u32,
    pub peer_credit: u8,
    pub receive_capacity: u8,
    pub seen_reliable: bool,
    pub unrel_rx_highest: Option<u32>,
    pub unrel_tx_sequence: u32,
    pub local_ended: bool,
    pub remote_ended: bool,
}

/// Caller-supplied storage for one stream.
#[derive(Debug, Clone, Copy)]
pub struct BoundedStreamSlot {
    stream: Option<StreamCore>,
}

impl BoundedStreamSlot {
    pub closed spec fn spec_stream(&self) -> Option<StreamCore> {
        self.stream
    }

    /// A slot holding no stream.
    pub fn empty() -> (r: Self)
        ensures
            r.spec_stream() is None,
    {
        BoundedStreamSlot { stream: None }
    }

    pub fn is_empty(&self) -> (r: bool)
        ensures
            r == self.spec_stream() is None,
    {
        self.stream.is_none()
    }
}

/// Cumulative acknowledgement of a reliable stream.
#[derive(Debug, Clone, Copy, PartialEq, Eq, Structural)]
pub struct AckState {
    pub ack_base: u32,
    pub receive_bitmap: u32,
    pub receive_credit: u8,
}

#[derive(Debug, Clone, Copy, PartialEq, Eq, Structural)]
pub struct SendInfo {
    pub sequence: Option<u32>,
}

#[derive(Debug, Clone, Copy, PartialEq, Eq, Structural)]
pub struct ReceivedMessage {
    pub len: usize,
    pub end: bool,
}

/// A message whose retransmission timer expired.
#[derive(Debug)]
pub struct Retransmit {
    pub stream_id: u8,
    pub sequence: u32,
    pub end: bool,
    pub data: Vec<u8>,
}

/// Heapless GTS tunnel/socket state.
///
/// Every byte of retransmission and receive storage is supplied by the
/// caller. The byte arenas are divided into fixed maximum-message slots; this
/// matches GTS credit semantics, where one credit promises capacity for one
/// complete message up to the negotiated maximum class.
#[derive(Debug)]
pub struct BoundedGtsSocket {
    pub role: TunnelRole,
    pub state: TunnelState,
    pub local_receive_id: u32,
    pub remote_receive_id: Option<u32>,
    pub local_reset_id: u32,
    pub remote_reset_id: Option<u32>,
    pub css: ServiceSelector,
    streams: Vec<BoundedStreamSlot>,
    tx: MessagePool<TxMeta>,
    rx: MessagePool<RxMeta>,
    next_stream_id: u8,
    next_delivery_order: u64,
    rto_ms: u64,
}

/// A bounded socket as plain values.
pub struct BoundedGtsView {
    pub role: TunnelRole,
    pub state: TunnelState,
    pub local_receive_id: u32,
    pub remote_receive_id: Option<u32>,
    pub local_reset_id: u32,
    pub remote_reset_id: Option<u32>,
    pub css: ServiceSelector,
    /// Stream slots.
    pub streams: Seq<Option<StreamCore>>,
    /// Retransmission slots: metadata and message bytes.
    pub tx: Seq<Option<(TxMeta, Seq<u8>)>>,
    /// Receive slots: metadata and message bytes.
    pub rx: Seq<Option<(RxMeta, Seq<u8>)>>,
    pub tx_slot_size: nat,
    pub rx_slot_size: nat,
    pub next_stream_id: u8,
    pub next_delivery_order: u64,
    pub rto_ms: u64,
}

impl View for BoundedGtsSocket {
    type V = BoundedGtsView;

    closed spec fn view(&self) -> BoundedGtsView {
        BoundedGtsView {
            role: self.role,
            state: self.state,
            local_receive_id: self.local_receive_id,
            remote_receive_id: self.remote_receive_id,
            local_reset_id: self.local_reset_id,
            remote_reset_id: self.remote_reset_id,
            css: self.css,
            streams: self.streams@.map_values(|s: BoundedStreamSlot| s.stream),
            tx: self.tx.view(),
            rx: self.rx.view(),
            tx_slot_size: self.tx.spec_slot_size(),
            rx_slot_size: self.rx.spec_slot_size(),
            next_stream_id: self.next_stream_id,
            next_delivery_order: self.next_delivery_order,
            rto_ms: self.rto_ms,
        }
    }
}

/// Slot `i` holds stream `id`.
pub open spec fn holds_stream(s: Seq<Option<StreamCore>>, i: int, id: u8) -> bool {
    s[i] is Some && s[i].unwrap().id == id
}

/// First slot at or after `i` that holds stream `id`, or the length.
pub open spec fn stream_slot_from(s: Seq<Option<StreamCore>>, id: u8, i: int) -> int
    decreases s.len() - i,
{
    if i < 0 || i >= s.len() {
        s.len() as int
    } else if holds_stream(s, i, id) {
        i
    } else {
        stream_slot_from(s, id, i + 1)
    }
}

proof fn lemma_stream_slot_from(s: Seq<Option<StreamCore>>, id: u8, i: int)
    requires
        0 <= i <= s.len(),
    ensures
        i <= stream_slot_from(s, id, i) <= s.len(),
        stream_slot_from(s, id, i) < s.len() ==> holds_stream(s, stream_slot_from(s, id, i), id),
        forall|j: int| i <= j < stream_slot_from(s, id, i) ==> !holds_stream(s, j, id),
    decreases s.len() - i,
{
    if i < s.len() && !holds_stream(s, i, id) {
        lemma_stream_slot_from(s, id, i + 1);
    }
}

proof fn lemma_free_slot_from(s: Seq<Option<StreamCore>>, i: int)
    requires
        0 <= i <= s.len(),
    ensures
        i <= free_stream_slot_from(s, i) <= s.len(),
        free_stream_slot_from(s, i) < s.len() ==> s[free_stream_slot_from(s, i)] is None,
    decreases s.len() - i,
{
    if i < s.len() && s[i] is Some {
        lemma_free_slot_from(s, i + 1);
    }
}

/// Slot of stream `id`, or the length when no slot holds it.
pub open spec fn stream_slot(s: Seq<Option<StreamCore>>, id: u8) -> int {
    stream_slot_from(s, id, 0)
}

pub open spec fn has_stream(v: BoundedGtsView, id: u8) -> bool {
    stream_slot(v.streams, id) < v.streams.len()
}

/// The state of stream `id`; meaningful when `has_stream(v, id)`.
pub open spec fn core_of(v: BoundedGtsView, id: u8) -> StreamCore {
    v.streams[stream_slot(v.streams, id)].unwrap()
}

/// First empty stream slot, or the length.
pub open spec fn free_stream_slot_from(s: Seq<Option<StreamCore>>, i: int) -> int
    decreases s.len() - i,
{
    if i < 0 || i >= s.len() {
        s.len() as int
    } else if s[i] is None {
        i
    } else {
        free_stream_slot_from(s, i + 1)
    }
}

/// Whether this end may send on the stream.
pub open spec fn core_local_may_send(c: StreamCore) -> bool {
    if c.opened_by_local {
        c.profile.direction.spec_opener_may_send()
    } else {
        c.profile.direction.spec_peer_may_send()
    }
}

/// Whether the other end may send on the stream.
pub open spec fn core_remote_may_send(c: StreamCore) -> bool {
    if c.opened_by_local {
        c.profile.direction.spec_peer_may_send()
    } else {
        c.profile.direction.spec_opener_may_send()
    }
}

/// Length check for a message of `len` bytes on a stream with `profile`:
/// variable classes bound the length by the class size less the header,
/// fixed classes require the exact payload size (an END segment may be
/// shorter).
pub open spec fn send_len_check(profile: StreamProfile, len: nat, end: bool) -> Result<()> {
    let bytes = profile.size_class.spec_bytes();
    if profile.unreliable {
        if end {
            Err(Error::ProfileViolation)
        } else if profile.variable {
            let overhead: nat = if profile.sequenced {
                16
            } else {
                12
            };
            if len + overhead > bytes {
                Err(Error::MessageTooLarge)
            } else {
                Ok(())
            }
        } else {
            let overhead: nat = if profile.sequenced {
                14
            } else {
                10
            };
            if bytes < overhead {
                Err(Error::InvalidLength)
            } else if len != bytes - overhead {
                Err(Error::InvalidLength)
            } else {
                Ok(())
            }
        }
    } else if profile.variable {
        if len + 16 > bytes {
            Err(Error::MessageTooLarge)
        } else {
            Ok(())
        }
    } else if end {
        if bytes < 16 {
            Err(Error::InvalidLength)
        } else if len > bytes - 16 {
            Err(Error::MessageTooLarge)
        } else {
            Ok(())
        }
    } else if bytes < 14 {
        Err(Error::InvalidLength)
    } else if len != bytes - 14 {
        Err(Error::InvalidLength)
    } else {
        Ok(())
    }
}

/// `v` with the stream in slot `i` replaced by `c`.
pub open spec fn with_core(v: BoundedGtsView, i: int, c: StreamCore) -> BoundedGtsView {
    BoundedGtsView { streams: v.streams.update(i, Some(c)), ..v }
}

/// State and result of sending `data` on stream `id`.
pub open spec fn spec_send(v: BoundedGtsView, id: u8, data: Seq<u8>, end: bool, now: u64) -> (BoundedGtsView, Result<SendInfo>) {
    let i = stream_slot(v.streams, id);
    let c = core_of(v, id);
    if !has_stream(v, id) {
        (v, Err(Error::UnknownStream))
    } else if c.state != StreamState::Open || c.local_ended {
        (v, Err(Error::InvalidState))
    } else if !core_local_may_send(c) {
        (v, Err(Error::DirectionViolation))
    } else if send_len_check(c.profile, data.len(), end) is Err {
        (v, Err(send_len_check(c.profile, data.len(), end)->Err_0))
    } else if c.profile.unreliable {
        if c.profile.sequenced {
            (
                with_core(v, i, StreamCore { unrel_tx_sequence: wrapping_add(c.unrel_tx_sequence, 1), ..c }),
                Ok(SendInfo { sequence: Some(c.unrel_tx_sequence) }),
            )
        } else {
            (v, Ok(SendInfo { sequence: None }))
        }
    } else if c.peer_credit == 0 {
        (v, Err(Error::WouldBlock))
    } else if data.len() > v.tx_slot_size {
        (v, Err(Error::MessageTooLarge))
    } else if first_unused(v.tx, 0) >= v.tx.len() {
        (v, Err(Error::BufferFull))
    } else {
        let meta = TxMeta { stream_id: id, sequence: c.next_tx_sequence, end, sent_at: now };
        let w = BoundedGtsView { tx: v.tx.update(first_unused(v.tx, 0), Some((meta, data))), ..v };
        (
            with_core(
                w,
                i,
                StreamCore {
                    next_tx_sequence: wrapping_add(c.next_tx_sequence, 1),
                    peer_credit: (c.peer_credit - 1) as u8,
                    local_ended: c.local_ended || end,
                    ..c
                },
            ),
            Ok(SendInfo { sequence: Some(c.next_tx_sequence) }),
        )
    }
}

/// Retransmission slots after an acknowledgement of stream `id`: its
/// messages that the acknowledgement covers are freed.
pub open spec fn tx_after_ack(
    tx: Seq<Option<(TxMeta, Seq<u8>)>>,
    id: u8,
    base: u32,
    bitmap: u32,
) -> Seq<Option<(TxMeta, Seq<u8>)>> {
    Seq::new(
        tx.len(),
        |i: int|
            if tx[i] is Some && entry_meta(tx[i]).stream_id == id && acked(
                entry_meta(tx[i]).sequence,
                base,
                bitmap,
            ) {
                None
            } else {
                tx[i]
            },
    )
}

/// The message waited at least `rto` since it was last sent.
pub open spec fn tx_due(m: TxMeta, now: u64, rto: u64) -> bool {
    (if now >= m.sent_at {
        now - m.sent_at
    } else {
        0
    }) >= rto
}

/// First retransmission slot at or after `i` whose timer expired, or the length.
pub open spec fn first_due_from(tx: Seq<Option<(TxMeta, Seq<u8>)>>, now: u64, rto: u64, i: int) -> int
    decreases tx.len() - i,
{
    if i < 0 || i >= tx.len() {
        tx.len() as int
    } else if tx[i] is Some && tx_due(entry_meta(tx[i]), now, rto) {
        i
    } else {
        first_due_from(tx, now, rto, i + 1)
    }
}

proof fn lemma_first_due_from(tx: Seq<Option<(TxMeta, Seq<u8>)>>, now: u64, rto: u64, i: int)
    requires
        0 <= i <= tx.len(),
    ensures
        i <= first_due_from(tx, now, rto, i) <= tx.len(),
        first_due_from(tx, now, rto, i) < tx.len() ==> tx[first_due_from(tx, now, rto, i)] is Some
            && tx_due(entry_meta(tx[first_due_from(tx, now, rto, i)]), now, rto),
    decreases tx.len() - i,
{
    if i < tx.len() && !(tx[i] is Some && tx_due(entry_meta(tx[i]), now, rto)) {
        lemma_first_due_from(tx, now, rto, i + 1);
    }
}

/// Receive slots among the first `n` that hold messages of stream `id`.
pub open spec fn count_for(rx: Seq<Option<(RxMeta, Seq<u8>)>>, id: u8, n: int) -> nat
    decreases n,
{
    if n <= 0 {
        0
    } else {
        count_for(rx, id, n - 1) + if rx[n - 1] is Some && entry_meta(rx[n - 1]).stream_id == id {
            1nat
        } else {
            0nat
        }
    }
}

/// Receive slot `i` holds a message of stream `id` with sequence `seq` that
/// waits for an earlier one.
pub open spec fn pending_at(rx: Seq<Option<(RxMeta, Seq<u8>)>>, i: int, id: u8, seq: u32) -> bool {
    &&& rx[i] is Some
    &&& entry_meta(rx[i]).stream_id == id
    &&& entry_meta(rx[i]).sequence == seq
    &&& entry_meta(rx[i]).disposition == RxDisposition::Pending
}

/// Bit `j` of the bitmap reports whether sequence `base + 1 + j` of stream
/// `id` is held for reordering.
pub open spec fn rx_bitmap_reports(bitmap: u32, rx: Seq<Option<(RxMeta, Seq<u8>)>>, id: u8, base: u32) -> bool {
    forall|j: u32|
        j < 32 ==> (bit_set(bitmap, j) <==> exists|i: int|
            0 <= i < rx.len() && #[trigger] pending_at(rx, i, id, wrapping_add(wrapping_add(base, 1), j)))
}

/// Credit a stream advertises: its free receive capacity, bounded by the
/// free slots of the shared pool and by 255.
pub open spec fn stream_credit(v: BoundedGtsView, c: StreamCore) -> u8 {
    let own = c.receive_capacity - count_for(v.rx, c.id, v.rx.len() as int);
    let own_free: int = if own < 0 {
        0
    } else {
        own
    };
    let pool_free = v.rx.len() - count_used(v.rx, v.rx.len() as int);
    let m = if own_free < pool_free {
        own_free
    } else {
        pool_free
    };
    if m > 255 {
        255
    } else {
        m as u8
    }
}

/// What an acknowledgement of stream `id` reports, the bitmap aside:
/// base and credit, `None` before anything reliable arrived.
pub open spec fn ack_outcome(v: BoundedGtsView, id: u8) -> Result<Option<(u32, u8)>> {
    let c = core_of(v, id);
    if !has_stream(v, id) {
        Err(Error::UnknownStream)
    } else if c.profile.unreliable || !c.seen_reliable {
        Ok(None)
    } else {
        Ok(Some((wrapping_sub(c.next_expected, 1), stream_credit(v, c))))
    }
}

/// `r` is the acknowledgement state of stream `id` in `v`.
pub open spec fn ack_matches(v: BoundedGtsView, id: u8, r: Result<Option<AckState>>) -> bool {
    match ack_outcome(v, id) {
        Err(e) => r == Err::<Option<AckState>, Error>(e),
        Ok(None) => r == Ok::<Option<AckState>, Error>(None),
        Ok(Some((base, credit))) => r matches Ok(Some(a)) && a.ack_base == base && a.receive_credit == credit
            && rx_bitmap_reports(a.receive_bitmap, v.rx, id, base),
    }
}

/// Delivery order after `o`; zero is skipped when it wraps.
pub open spec fn next_order(o: u64) -> u64 {
    if o == u64::MAX {
        1
    } else {
        (o + 1) as u64
    }
}

/// Messages of stream `id` among the first `n` receive slots that wait for
/// an earlier one.
pub open spec fn pending_count(rx: Seq<Option<(RxMeta, Seq<u8>)>>, id: u8, n: int) -> nat
    decreases n,
{
    if n <= 0 {
        0
    } else {
        pending_count(rx, id, n - 1) + if rx[n - 1] is Some && entry_meta(rx[n - 1]).stream_id == id
            && entry_meta(rx[n - 1]).disposition == RxDisposition::Pending {
            1nat
        } else {
            0nat
        }
    }
}

/// First receive slot at or after `i` where sequence `seq` of stream `id`
/// waits, or the length.
pub open spec fn first_pending_from(rx: Seq<Option<(RxMeta, Seq<u8>)>>, id: u8, seq: u32, i: int) -> int
    decreases rx.len() - i,
{
    if i < 0 || i >= rx.len() {
        rx.len() as int
    } else if pending_at(rx, i, id, seq) {
        i
    } else {
        first_pending_from(rx, id, seq, i + 1)
    }
}

pub proof fn lemma_first_pending_from(rx: Seq<Option<(RxMeta, Seq<u8>)>>, id: u8, seq: u32, i: int)
    requires
        0 <= i <= rx.len(),
    ensures
        i <= first_pending_from(rx, id, seq, i) <= rx.len(),
        first_pending_from(rx, id, seq, i) < rx.len() ==> pending_at(rx, first_pending_from(rx, id, seq, i), id, seq),
    decreases rx.len() - i,
{
    if i < rx.len() && !pending_at(rx, i, id, seq) {
        lemma_first_pending_from(rx, id, seq, i + 1);
    }
}

pub proof fn lemma_pending_count_update(
    rx: Seq<Option<(RxMeta, Seq<u8>)>>,
    id: u8,
    f: int,
    e: Option<(RxMeta, Seq<u8>)>,
    n: int,
)
    requires
        0 <= f < rx.len(),
        n <= rx.len(),
        pending_at(rx, f, id, entry_meta(rx[f]).sequence),
        e is Some && entry_meta(e).disposition == RxDisposition::Delivered,
    ensures
        pending_count(rx.update(f, e), id, n) + (if f < n {
            1nat
        } else {
            0nat
        }) == pending_count(rx, id, n),
    decreases n,
{
    if n > 0 {
        lemma_pending_count_update(rx, id, f, e, n - 1);
    }
}

/// Delivers, in order, every held message of the stream in slot `i` that
/// continues its in-order run: each takes the next delivery order and
/// advances the expected sequence number; an END segment ends the stream's
/// receive side.
pub open spec fn mark_run(v: BoundedGtsView, i: int, id: u8) -> BoundedGtsView
    decreases pending_count(v.rx, id, v.rx.len() as int),
{
    if 0 <= i < v.streams.len() && v.streams[i] is Some {
        let c = v.streams[i].unwrap();
        let f = first_pending_from(v.rx, id, c.next_expected, 0);
        if f < v.rx.len() {
            let (m, b) = v.rx[f]->0;
            let e = Some((RxMeta { disposition: RxDisposition::Delivered, order: v.next_delivery_order, ..m }, b));
            let w = BoundedGtsView {
                rx: v.rx.update(f, e),
                next_delivery_order: next_order(v.next_delivery_order),
                streams: v.streams.update(
                    i,
                    Some(
                        StreamCore {
                            next_expected: wrapping_add(c.next_expected, 1),
                            remote_ended: c.remote_ended || m.end,
                            ..c
                        },
                    ),
                ),
                ..v
            };
            proof {
                lemma_first_pending_from(v.rx, id, c.next_expected, 0);
                lemma_pending_count_update(v.rx, id, f, e, v.rx.len() as int);
            }
            mark_run(w, i, id)
        } else {
            v
        }
    } else {
        v
    }
}

/// Some receive slot holds sequence `seq` of stream `id`.
pub open spec fn holds_message(rx: Seq<Option<(RxMeta, Seq<u8>)>>, id: u8, seq: u32) -> bool {
    exists|k: int|
        0 <= k < rx.len() && #[trigger] rx[k] is Some && entry_meta(rx[k]).stream_id == id && entry_meta(
            rx[k],
        ).sequence == seq
}

/// `v` after storing `meta` and `data` in the first free receive slot, or
/// the error the pool gives.
pub open spec fn rx_insert(v: BoundedGtsView, meta: RxMeta, data: Seq<u8>) -> (BoundedGtsView, Result<()>) {
    if data.len() > v.rx_slot_size {
        (v, Err(Error::MessageTooLarge))
    } else if first_unused(v.rx, 0) >= v.rx.len() {
        (v, Err(Error::BufferFull))
    } else {
        (BoundedGtsView { rx: v.rx.update(first_unused(v.rx, 0), Some((meta, data))), ..v }, Ok(()))
    }
}

/// State after a message arrives on stream `id`, and the answer: `Some` of
/// a direct result, or `None` when the answer is the stream's
/// acknowledgement state in the new state.
pub open spec fn spec_receive(
    v: BoundedGtsView,
    id: u8,
    sequence: Option<u32>,
    data: Seq<u8>,
    end: bool,
) -> (BoundedGtsView, Option<Result<Option<AckState>>>) {
    let i = stream_slot(v.streams, id);
    let c = core_of(v, id);
    if !has_stream(v, id) {
        (v, Some(Err(Error::UnknownStream)))
    } else if c.state == StreamState::Closed || c.state == StreamState::Reset || c.remote_ended {
        (v, Some(Err(Error::InvalidState)))
    } else if !core_remote_may_send(c) {
        (v, Some(Err(Error::DirectionViolation)))
    } else if send_len_check(c.profile, data.len(), end) is Err {
        (v, Some(Err(send_len_check(c.profile, data.len(), end)->Err_0)))
    } else if c.profile.unreliable {
        if c.profile.sequenced && sequence is None || !c.profile.sequenced && sequence is Some {
            (v, Some(Err(Error::ProfileViolation)))
        } else {
            let seq: u32 = if c.profile.sequenced {
                sequence.unwrap()
            } else {
                0
            };
            if c.profile.sequenced && c.unrel_rx_highest is Some && seq <= c.unrel_rx_highest.unwrap() {
                (v, Some(Ok(None)))
            } else {
                let v1 = if c.profile.sequenced {
                    with_core(v, i, StreamCore { unrel_rx_highest: Some(seq), ..c })
                } else {
                    v
                };
                let v2 = BoundedGtsView { next_delivery_order: next_order(v.next_delivery_order), ..v1 };
                let meta = RxMeta {
                    stream_id: id,
                    sequence: seq,
                    end: false,
                    disposition: RxDisposition::Delivered,
                    order: v.next_delivery_order,
                };
                let (v3, res) = rx_insert(v2, meta, data);
                match res {
                    Err(e) => (v3, Some(Err(e))),
                    Ok(_) => (v3, Some(Ok(None))),
                }
            }
        }
    } else if sequence is None {
        (v, Some(Err(Error::ProfileViolation)))
    } else {
        let seq = sequence.unwrap();
        if seq < c.next_expected {
            (v, None)
        } else if seq - c.next_expected > 32 {
            (v, Some(Err(Error::BufferFull)))
        } else if count_for(v.rx, id, v.rx.len() as int) >= c.receive_capacity {
            (v, Some(Err(Error::BufferFull)))
        } else if holds_message(v.rx, id, seq) {
            (v, None)
        } else {
            let delivered = seq == c.next_expected;
            let v1 = if delivered {
                BoundedGtsView { next_delivery_order: next_order(v.next_delivery_order), ..v }
            } else {
                v
            };
            let meta = RxMeta {
                stream_id: id,
                sequence: seq,
                end,
                disposition: if delivered {
                    RxDisposition::Delivered
                } else {
                    RxDisposition::Pending
                },
                order: if delivered {
                    v.next_delivery_order
                } else {
                    0
                },
            };
            let (v2, res) = rx_insert(v1, meta, data);
            match res {
                Err(e) => (v2, Some(Err(e))),
                Ok(_) => {
                    let c2 = StreamCore {
                        seen_reliable: true,
                        next_expected: if delivered {
                            wrapping_add(c.next_expected, 1)
                        } else {
                            c.next_expected
                        },
                        remote_ended: c.remote_ended || delivered && end,
                        ..c
                    };
                    (mark_run(with_core(v2, i, c2), i, id), None)
                },
            }
        }
    }
}

/// Slot `i` holds a readable message of stream `id`.
pub open spec fn delivered_at(rx: Seq<Option<(RxMeta, Seq<u8>)>>, i: int, id: u8) -> bool {
    rx[i] is Some && entry_meta(rx[i]).stream_id == id && entry_meta(rx[i]).disposition
        == RxDisposition::Delivered
}

/// Among the first `n` slots, the readable message of stream `id` with the
/// lowest delivery order (the lowest slot among equals), or -1.
pub open spec fn oldest_delivered(rx: Seq<Option<(RxMeta, Seq<u8>)>>, id: u8, n: int) -> int
    decreases n,
{
    if n <= 0 {
        -1
    } else {
        let b = oldest_delivered(rx, id, n - 1);
        if delivered_at(rx, n - 1, id) && (b < 0 || entry_meta(rx[n - 1]).order < entry_meta(rx[b]).order) {
            n - 1
        } else {
            b
        }
    }
}

proof fn lemma_oldest_delivered(rx: Seq<Option<(RxMeta, Seq<u8>)>>, id: u8, n: int)
    requires
        0 <= n <= rx.len(),
    ensures
        -1 <= oldest_delivered(rx, id, n) < n,
        oldest_delivered(rx, id, n) >= 0 ==> delivered_at(rx, oldest_delivered(rx, id, n), id),
    decreases n,
{
    if n > 0 {
        lemma_oldest_delivered(rx, id, n - 1);
    }
}

/// Retransmission slots without the messages of stream `id`.
pub open spec fn tx_without(tx: Seq<Option<(TxMeta, Seq<u8>)>>, id: u8) -> Seq<Option<(TxMeta, Seq<u8>)>> {
    Seq::new(
        tx.len(),
        |i: int|
            if tx[i] is Some && entry_meta(tx[i]).stream_id == id {
                None
            } else {
                tx[i]
            },
    )
}

/// Receive slots without the messages of stream `id`.
pub open spec fn rx_without(rx: Seq<Option<(RxMeta, Seq<u8>)>>, id: u8) -> Seq<Option<(RxMeta, Seq<u8>)>> {
    Seq::new(
        rx.len(),
        |i: int|
            if rx[i] is Some && entry_meta(rx[i]).stream_id == id {
                None
            } else {
                rx[i]
            },
    )
}

/// A stream after a reset: nothing more is sent or accepted on it.
pub open spec fn reset_core(c: StreamCore) -> StreamCore {
    StreamCore {
        state: StreamState::Reset,
        local_ended: true,
        remote_ended: true,
        peer_credit: 0,
        ..c
    }
}

proof fn lemma_wrap_offset(base: u32, seq: u32, j: u32)
    requires
        j < 32,
    ensures
        (seq == wrapping_add(wrapping_add(base, 1), j)) <==> (wrapping_sub(wrapping_sub(seq, base), 1) == j),
{
}

impl BoundedGtsSocket {
    pub closed spec fn wf(&self) -> bool {
        &&& self.tx.wf()
        &&& self.rx.wf()
    }

    /// A socket over caller-supplied storage; the initiator starts
    /// connecting and allocates even stream ids, the responder starts
    /// established and allocates odd ones.
    pub fn new(
        role: TunnelRole,
        local_receive_id: u32,
        local_reset_id: u32,
        css: ServiceSelector,
        streams: Vec<BoundedStreamSlot>,
        tx_slots: Vec<MessageSlot<TxMeta>>,
        tx_bytes: Vec<u8>,
        rx_slots: Vec<MessageSlot<RxMeta>>,
        rx_bytes: Vec<u8>,
    ) -> (r: Result<Self>)
        ensures
            streams@.len() == 0 || tx_slots@.len() == 0 || tx_bytes@.len() < tx_slots@.len()
                || rx_slots@.len() == 0 || rx_bytes@.len() < rx_slots@.len() ==> r == Err::<Self, Error>(
                Error::InvalidLength,
            ),
            !(streams@.len() == 0 || tx_slots@.len() == 0 || tx_bytes@.len() < tx_slots@.len()
                || rx_slots@.len() == 0 || rx_bytes@.len() < rx_slots@.len()) ==> (r matches Ok(s) && s.wf()
                && s@ == (BoundedGtsView {
                role,
                state: if role == TunnelRole::Initiator {
                    TunnelState::Connecting
                } else {
                    TunnelState::Established
                },
                local_receive_id,
                remote_receive_id: None,
                local_reset_id,
                remote_reset_id: None,
                css,
                streams: Seq::new(streams@.len(), |_i: int| None::<StreamCore>),
                tx: Seq::new(tx_slots@.len(), |_i: int| None::<(TxMeta, Seq<u8>)>),
                rx: Seq::new(rx_slots@.len(), |_i: int| None::<(RxMeta, Seq<u8>)>),
                tx_slot_size: tx_bytes@.len() / tx_slots@.len(),
                rx_slot_size: rx_bytes@.len() / rx_slots@.len(),
                next_stream_id: if role == TunnelRole::Initiator {
                    2
                } else {
                    1
                },
                next_delivery_order: 1,
                rto_ms: DEFAULT_RTO_MS,
            })),
    {
        if streams.len() == 0 {
            return Err(Error::InvalidLength);
        }
        let ghost n0 = streams@.len();
        let mut streams = streams;
        let mut i: usize = 0;
        while i < streams.len()
            invariant
                i <= streams@.len() == n0,
                forall|j: int| 0 <= j < i ==> (#[trigger] streams@[j]).stream is None,
            decreases streams@.len() - i,
        {
            streams.set(i, BoundedStreamSlot { stream: None });
            i = i + 1;
        }
        let tx = match MessagePool::new(tx_slots, tx_bytes) {
            Ok(p) => p,
            Err(e) => return Err(e),
        };
        let rx = match MessagePool::new(rx_slots, rx_bytes) {
            Ok(p) => p,
            Err(e) => return Err(e),
        };
        let initiator = role == TunnelRole::Initiator;
        let s = BoundedGtsSocket {
            role,
            state: if initiator {
                TunnelState::Connecting
            } else {
                TunnelState::Established
            },
            local_receive_id,
            remote_receive_id: None,
            local_reset_id,
            remote_reset_id: None,
            css,
            streams,
            tx,
            rx,
            next_stream_id: if initiator {
                2
            } else {
                1
            },
            next_delivery_order: 1,
            rto_ms: DEFAULT_RTO_MS,
        };
        assert(s@.streams =~= Seq::new(s.streams@.len(), |_i: int| None::<StreamCore>));
        Ok(s)
    }

    /// Sets the retransmission timeout; zero is refused.
    pub fn set_rto_ms(&mut self, value: u64) -> (r: Result<()>)
        requires
            old(self).wf(),
        ensures
            final(self).wf(),
            value == 0 ==> r == Err::<(), Error>(Error::InvalidField) && final(self)@ == old(self)@,
            value != 0 ==> r == Ok::<(), Error>(()) && final(self)@ == (BoundedGtsView { rto_ms: value, ..old(self)@ }),
    {
        if value == 0 {
            return Err(Error::InvalidField);
        }
        self.rto_ms = value;
        Ok(())
    }

    /// Records the peer's tunnel identifiers.
    pub fn establish(&mut self, remote_receive_id: u32, remote_reset_id: u32) -> (r: Result<()>)
        requires
            old(self).wf(),
        ensures
            final(self).wf(),
            !(old(self)@.state == TunnelState::Connecting || old(self)@.state == TunnelState::Established)
                ==> r == Err::<(), Error>(Error::InvalidState) && final(self)@ == old(self)@,
            (old(self)@.state == TunnelState::Connecting || old(self)@.state == TunnelState::Established)
                ==> r == Ok::<(), Error>(()) && final(self)@ == (BoundedGtsView {
                remote_receive_id: Some(remote_receive_id),
                remote_reset_id: Some(remote_reset_id),
                state: TunnelState::Established,
                ..old(self)@
            }),
    {
        match self.state {
            TunnelState::Connecting | TunnelState::Established => {},
            _ => return Err(Error::InvalidState),
        }
        self.remote_receive_id = Some(remote_receive_id);
        self.remote_reset_id = Some(remote_reset_id);
        self.state = TunnelState::Established;
        Ok(())
    }

    fn stream_index(&self, id: u8) -> (r: Result<usize>)
        ensures
            has_stream(self@, id) ==> holds_stream(self@.streams, stream_slot(self@.streams, id), id)
                && 0 <= stream_slot(self@.streams, id),
            has_stream(self@, id) ==> (r matches Ok(i) && i == stream_slot(self@.streams, id)),
            !has_stream(self@, id) ==> r == Err::<usize, Error>(Error::UnknownStream),
    {
        let ghost s = self@.streams;
        proof {
            lemma_stream_slot_from(s, id, 0);
        }
        let mut i: usize = 0;
        while i < self.streams.len()
            invariant
                i <= self.streams@.len() == s.len(),
                s == self@.streams,
                stream_slot(s, id) == stream_slot_from(s, id, i as int),
            decreases self.streams@.len() - i,
        {
            assert(s[i as int] == self.streams@[i as int].stream);
            match self.streams[i].stream {
                Some(c) => {
                    if c.id == id {
                        return Ok(i);
                    }
                },
                None => {},
            }
            i = i + 1;
        }
        Err(Error::UnknownStream)
    }

    fn stream(&self, id: u8) -> (r: Result<StreamCore>)
        ensures
            has_stream(self@, id) ==> core_of(self@, id).id == id,
            has_stream(self@, id) ==> r == Ok::<StreamCore, Error>(core_of(self@, id)),
            !has_stream(self@, id) ==> r == Err::<StreamCore, Error>(Error::UnknownStream),
    {
        let idx = match self.stream_index(id) {
            Ok(i) => i,
            Err(e) => return Err(e),
        };
        assert(self@.streams.len() == self.streams@.len());
        assert(has_stream(self@, id));
        assert(stream_slot(self@.streams, id) < self.streams@.len());
        assert(idx as int == stream_slot(self@.streams, id));
        assert(self@.streams[idx as int] == self.streams@[idx as int].stream);
        match self.streams[idx].stream {
            Some(c) => Ok(c),
            None => Err(Error::UnknownStream),
        }
    }

    fn set_core(&mut self, idx: usize, c: StreamCore)
        requires
            old(self).wf(),
            idx < old(self)@.streams.len(),
        ensures
            final(self).wf(),
            final(self)@ == with_core(old(self)@, idx as int, c),
    {
        self.streams.set(idx, BoundedStreamSlot { stream: Some(c) });
        assert(self@.streams =~= old(self)@.streams.update(idx as int, Some(c)));
    }

    pub fn stream_state(&self, id: u8) -> (r: Result<StreamState>)
        ensures
            has_stream(self@, id) ==> r == Ok::<StreamState, Error>(core_of(self@, id).state),
            !has_stream(self@, id) ==> r == Err::<StreamState, Error>(Error::UnknownStream),
    {
        match self.stream(id) {
            Ok(c) => Ok(c.state),
            Err(e) => Err(e),
        }
    }

    pub fn peer_credit(&self, id: u8) -> (r: Result<u8>)
        ensures
            has_stream(self@, id) ==> r == Ok::<u8, Error>(core_of(self@, id).peer_credit),
            !has_stream(self@, id) ==> r == Err::<u8, Error>(Error::UnknownStream),
    {
        match self.stream(id) {
            Ok(c) => Ok(c.peer_credit),
            Err(e) => Err(e),
        }
    }

    /// Hands out the next stream id of this end's parity.
    pub fn alloc_stream_id(&mut self) -> (r: Result<u8>)
        requires
            old(self).wf(),
        ensures
            final(self).wf(),
            (final(self)@, r) == spec_alloc_stream_id(old(self)@),
            old(self)@.state != TunnelState::Established ==> r == Err::<u8, Error>(Error::InvalidState)
                && final(self)@ == old(self)@,
            old(self)@.state == TunnelState::Established && old(self)@.next_stream_id > 253 ==> r == Err::<
                u8,
                Error,
            >(Error::BufferFull) && final(self)@ == old(self)@,
            old(self)@.state == TunnelState::Established && old(self)@.next_stream_id <= 253 ==> r == Ok::<
                u8,
                Error,
            >(old(self)@.next_stream_id) && final(self)@ == (BoundedGtsView {
                next_stream_id: (old(self)@.next_stream_id + 2) as u8,
                ..old(self)@
            }),
    {
        if self.state != TunnelState::Established {
            return Err(Error::InvalidState);
        }
        let id = self.next_stream_id;
        if id > 253 {
            return Err(Error::BufferFull);
        }
        self.next_stream_id = id + 2;
        Ok(id)
    }

    /// Places a new open stream in the first free slot. Unreliable streams
    /// keep no credit and no receive capacity.
    pub fn add_stream(
        &mut self,
        id: u8,
        profile: StreamProfile,
        opened_by_local: bool,
        receive_capacity: u8,
        peer_credit: u8,
    ) -> (r: Result<()>)
        requires
            old(self).wf(),
        ensures
            final(self).wf(),
            !profile.spec_valid() ==> r == Err::<(), Error>(Error::ProfileViolation) && final(self)@ == old(self)@,
            profile.spec_valid() && has_stream(old(self)@, id) ==> r == Err::<(), Error>(Error::InvalidState)
                && final(self)@ == old(self)@,
            profile.spec_valid() && !has_stream(old(self)@, id) && free_stream_slot_from(old(self)@.streams, 0)
                == old(self)@.streams.len() ==> r == Err::<(), Error>(Error::BufferFull) && final(self)@
                == old(self)@,
            profile.spec_valid() && !has_stream(old(self)@, id) && free_stream_slot_from(old(self)@.streams, 0)
                < old(self)@.streams.len() ==> r == Ok::<(), Error>(()) && final(self)@ == with_core(
                old(self)@,
                free_stream_slot_from(old(self)@.streams, 0),
                StreamCore {
                    id,
                    profile,
                    state: StreamState::Open,
                    opened_by_local,
                    next_tx_sequence: 0,
                    next_expected: 0,
                    peer_credit: if profile.unreliable {
                        0
                    } else {
                        peer_credit
                    },
                    receive_capacity: if profile.unreliable {
                        0
                    } else {
                        receive_capacity
                    },
                    seen_reliable: false,
                    unrel_rx_highest: None,
                    unrel_tx_sequence: 0,
                    local_ended: false,
                    remote_ended: false,
                },
            ),
    {
        if let Err(e) = profile.validate() {
            return Err(e);
        }
        if self.stream_index(id).is_ok() {
            return Err(Error::InvalidState);
        }
        let ghost s = self@.streams;
        let mut i: usize = 0;
        while i < self.streams.len() && self.streams[i].stream.is_some()
            invariant
                i <= self.streams@.len() == s.len(),
                s == self@.streams,
                free_stream_slot_from(s, 0) == free_stream_slot_from(s, i as int),
            decreases self.streams@.len() - i,
        {
            assert(s[i as int] == self.streams@[i as int].stream);
            i = i + 1;
        }
        if i == self.streams.len() {
            return Err(Error::BufferFull);
        }
        assert(s[i as int] == self.streams@[i as int].stream);
        let core = StreamCore {
            id,
            profile,
            state: StreamState::Open,
            opened_by_local,
            next_tx_sequence: 0,
            next_expected: 0,
            peer_credit: if profile.unreliable {
                0
            } else {
                peer_credit
            },
            receive_capacity: if profile.unreliable {
                0
            } else {
                receive_capacity
            },
            seen_reliable: false,
            unrel_rx_highest: None,
            unrel_tx_sequence: 0,
            local_ended: false,
            remote_ended: false,
        };
        self.set_core(i, core);
        Ok(())
    }

    fn local_may_send(s: &StreamCore) -> (r: bool)
        ensures
            r == core_local_may_send(*s),
    {
        if s.opened_by_local {
            s.profile.direction.opener_may_send()
        } else {
            s.profile.direction.peer_may_send()
        }
    }

    fn remote_may_send(s: &StreamCore) -> (r: bool)
        ensures
            r == core_remote_may_send(*s),
    {
        if s.opened_by_local {
            s.profile.direction.peer_may_send()
        } else {
            s.profile.direction.opener_may_send()
        }
    }

    fn validate_send_len(profile: StreamProfile, data_len: usize, end: bool) -> (r: Result<()>)
        ensures
            r == send_len_check(profile, data_len as nat, end),
    {
        let bytes = profile.size_class.bytes();
        if profile.unreliable {
            if end {
                return Err(Error::ProfileViolation);
            }
            if profile.variable {
                let overhead: usize = if profile.sequenced {
                    16
                } else {
                    12
                };
                if data_len > bytes || bytes - data_len < overhead {
                    return Err(Error::MessageTooLarge);
                }
            } else {
                let overhead: usize = if profile.sequenced {
                    14
                } else {
                    10
                };
                if bytes < overhead {
                    return Err(Error::InvalidLength);
                }
                if data_len != bytes - overhead {
                    return Err(Error::InvalidLength);
                }
            }
        } else if profile.variable {
            if data_len > bytes || bytes - data_len < 16 {
                return Err(Error::MessageTooLarge);
            }
        } else if end {
            if bytes < 16 {
                return Err(Error::InvalidLength);
            }
            if data_len > bytes - 16 {
                return Err(Error::MessageTooLarge);
            }
        } else {
            if bytes < 14 {
                return Err(Error::InvalidLength);
            }
            if data_len != bytes - 14 {
                return Err(Error::InvalidLength);
            }
        }
        Ok(())
    }

    /// Sends one message on a stream. Unreliable streams only number it;
    /// reliable streams spend a credit and keep a copy for retransmission.
    pub fn send(&mut self, stream_id: u8, data: &[u8], end: bool, now: u64) -> (r: Result<SendInfo>)
        requires
            old(self).wf(),
        ensures
            final(self).wf(),
            (final(self)@, r) == spec_send(old(self)@, stream_id, data@, end, now),
    {
        let idx = match self.stream_index(stream_id) {
            Ok(i) => i,
            Err(e) => return Err(e),
        };
        assert(self@.streams[idx as int] == self.streams@[idx as int].stream);
        let snapshot = match self.streams[idx].stream {
            Some(c) => c,
            None => return Err(Error::UnknownStream),
        };
        if snapshot.state != StreamState::Open || snapshot.local_ended {
            return Err(Error::InvalidState);
        }
        if !Self::local_may_send(&snapshot) {
            return Err(Error::DirectionViolation);
        }
        if let Err(e) = Self::validate_send_len(snapshot.profile, data.len(), end) {
            return Err(e);
        }
        if snapshot.profile.unreliable {
            if snapshot.profile.sequenced {
                let seq = snapshot.unrel_tx_sequence;
                self.set_core(idx, StreamCore { unrel_tx_sequence: seq.wrapping_add(1), ..snapshot });
                return Ok(SendInfo { sequence: Some(seq) });
            }
            return Ok(SendInfo { sequence: None });
        }
        if snapshot.peer_credit == 0 {
            return Err(Error::WouldBlock);
        }
        let sequence = snapshot.next_tx_sequence;
        if let Err(e) = self.tx.insert(TxMeta { stream_id, sequence, end, sent_at: now }, data) {
            return Err(e);
        }
        self.set_core(
            idx,
            StreamCore {
                next_tx_sequence: sequence.wrapping_add(1),
                peer_credit: snapshot.peer_credit - 1,
                local_ended: snapshot.local_ended || end,
                ..snapshot
            },
        );
        Ok(SendInfo { sequence: Some(sequence) })
    }

    fn tx_acked(sequence: u32, base: u32, bitmap: u32) -> (r: bool)
        ensures
            r == acked(sequence, base, bitmap),
    {
        if base == u32::MAX {
            return sequence < 32 && (bitmap & (1u32 << sequence)) != 0;
        }
        if sequence <= base {
            return true;
        }
        let d = sequence - base - 1;
        d < 32 && (bitmap & (1u32 << d)) != 0
    }

    /// Takes the peer's credit and frees every message of the stream that
    /// the acknowledgement covers.
    pub fn on_ack(&mut self, stream_id: u8, ack: AckState) -> (r: Result<()>)
        requires
            old(self).wf(),
        ensures
            final(self).wf(),
            ({
                let v = old(self)@;
                let c = core_of(v, stream_id);
                if !has_stream(v, stream_id) {
                    r == Err::<(), Error>(Error::UnknownStream) && final(self)@ == v
                } else if c.profile.unreliable || c.state == StreamState::Reset {
                    r == Err::<(), Error>(Error::ProfileViolation) && final(self)@ == v
                } else {
                    &&& r == Ok::<(), Error>(())
                    &&& final(self)@ == (BoundedGtsView {
                        tx: tx_after_ack(v.tx, stream_id, ack.ack_base, ack.receive_bitmap),
                        ..with_core(
                            v,
                            stream_slot(v.streams, stream_id),
                            StreamCore { peer_credit: ack.receive_credit, ..c },
                        )
                    })
                }
            }),
    {
        let idx = match self.stream_index(stream_id) {
            Ok(i) => i,
            Err(e) => return Err(e),
        };
        assert(self@.streams[idx as int] == self.streams@[idx as int].stream);
        let c = match self.streams[idx].stream {
            Some(c) => c,
            None => return Err(Error::UnknownStream),
        };
        if c.profile.unreliable || c.state == StreamState::Reset {
            return Err(Error::ProfileViolation);
        }
        self.set_core(idx, StreamCore { peer_credit: ack.receive_credit, ..c });
        let ghost w0 = self@;
        let ghost tx0 = self.tx.view();
        let cap = self.tx.capacity();
        let mut i: usize = 0;
        while i < cap
            invariant
                self.wf(),
                cap == tx0.len(),
                i <= cap,
                self.tx.view().len() == tx0.len(),
                self@ == (BoundedGtsView { tx: self.tx.view(), ..w0 }),
                forall|j: int| 0 <= j < i ==> #[trigger] self.tx.view()[j] == tx_after_ack(
                    tx0,
                    stream_id,
                    ack.ack_base,
                    ack.receive_bitmap,
                )[j],
                forall|j: int| i <= j < tx0.len() ==> #[trigger] self.tx.view()[j] == tx0[j],
            decreases cap - i,
        {
            if let Some(meta) = self.tx.meta(i) {
                if meta.stream_id == stream_id && Self::tx_acked(meta.sequence, ack.ack_base, ack.receive_bitmap) {
                    let _ = self.tx.remove(i);
                }
            }
            i = i + 1;
        }
        assert(self.tx.view() =~= tx_after_ack(tx0, stream_id, ack.ack_base, ack.receive_bitmap));
        assert(self@ == (BoundedGtsView {
            tx: tx_after_ack(tx0, stream_id, ack.ack_base, ack.receive_bitmap),
            ..with_core(old(self)@, idx as int, StreamCore { peer_credit: ack.receive_credit, ..c })
        }));
        Ok(())
    }

    /// The first message whose retransmission timer expired, with its timer
    /// restarted at `now`.
    pub fn retransmit_due(&mut self, now: u64) -> (r: Result<Option<Retransmit>>)
        requires
            old(self).wf(),
        ensures
            final(self).wf(),
            ({
                let v = old(self)@;
                let i = first_due_from(v.tx, now, v.rto_ms, 0);
                if i >= v.tx.len() {
                    r == Ok::<Option<Retransmit>, Error>(None) && final(self)@ == v
                } else {
                    let (m, b) = v.tx[i]->0;
                    &&& r matches Ok(Some(t)) && t.stream_id == m.stream_id && t.sequence == m.sequence
                        && t.end == m.end && t.data@ == b
                    &&& final(self)@ == (BoundedGtsView {
                        tx: v.tx.update(i, Some((TxMeta { sent_at: now, ..m }, b))),
                        ..v
                    })
                }
            }),
    {
        let ghost tx0 = self.tx.view();
        proof {
            lemma_first_due_from(tx0, now, self.rto_ms, 0);
        }
        let cap = self.tx.capacity();
        let mut i: usize = 0;
        let mut found: Option<(usize, TxMeta)> = None;
        while i < cap && found.is_none()
            invariant
                cap == tx0.len(),
                tx0 == self.tx.view(),
                i <= cap,
                found is None ==> first_due_from(tx0, now, self.rto_ms, 0) == first_due_from(
                    tx0,
                    now,
                    self.rto_ms,
                    i as int,
                ),
                found matches Some((j, m)) ==> j == first_due_from(tx0, now, self.rto_ms, 0) && j < cap
                    && tx0[j as int] is Some && entry_meta(tx0[j as int]) == m,
            decreases cap - i,
        {
            if let Some(meta) = self.tx.meta(i) {
                let elapsed = if now >= meta.sent_at {
                    now - meta.sent_at
                } else {
                    0
                };
                if elapsed >= self.rto_ms {
                    found = Some((i, meta));
                }
            }
            i = i + 1;
        }
        let (idx, meta) = match found {
            Some(x) => x,
            None => return Ok(None),
        };
        assert(idx as int == first_due_from(tx0, now, self.rto_ms, 0));
        let fresh = TxMeta { sent_at: now, ..meta };
        let _ = self.tx.set_meta(idx, fresh);
        match self.tx.get(idx) {
            Some((_, bytes)) => {
                let data = copy_range(bytes, 0, bytes.len());
                assert(bytes@.subrange(0, bytes@.len() as int) =~= bytes@);
                Ok(Some(Retransmit { stream_id: fresh.stream_id, sequence: fresh.sequence, end: fresh.end, data }))
            },
            None => Err(Error::InvalidState),
        }
    }

    fn rx_count_for(&self, stream_id: u8) -> (r: usize)
        ensures
            r == count_for(self@.rx, stream_id, self@.rx.len() as int),
    {
        let ghost rx = self.rx.view();
        let cap = self.rx.capacity();
        let mut count: usize = 0;
        let mut i: usize = 0;
        while i < cap
            invariant
                cap == rx.len(),
                rx == self.rx.view(),
                i <= cap,
                count == count_for(rx, stream_id, i as int),
                count <= i,
            decreases cap - i,
        {
            if let Some(meta) = self.rx.meta(i) {
                if meta.stream_id == stream_id {
                    count = count + 1;
                }
            }
            i = i + 1;
        }
        count
    }

    /// The acknowledgement a reliable stream would send now.
    pub fn ack_state(&self, stream_id: u8) -> (r: Result<Option<AckState>>)
        requires
            self.wf(),
        ensures
            ack_matches(self@, stream_id, r),
    {
        let stream = match self.stream(stream_id) {
            Ok(c) => c,
            Err(e) => return Err(e),
        };
        if stream.profile.unreliable || !stream.seen_reliable {
            return Ok(None);
        }
        let base = stream.next_expected.wrapping_sub(1);
        let ghost first = wrapping_add(base, 1);
        let ghost rx = self.rx.view();
        let cap = self.rx.capacity();
        let mut bitmap: u32 = 0;
        let mut i: usize = 0;
        proof {
            assert forall|j: u32| j < 32 implies !bit_set(bitmap, j) by {
                lemma_set_bit(0, 0, j);
            }
        }
        while i < cap
            invariant
                cap == rx.len(),
                rx == self.rx.view(),
                i <= cap,
                first == wrapping_add(base, 1),
                forall|j: u32|
                    j < 32 ==> (bit_set(bitmap, j) <==> exists|k: int|
                        0 <= k < i && #[trigger] pending_at(rx, k, stream_id, wrapping_add(first, j))),
            decreases cap - i,
        {
            let ghost old_bitmap = bitmap;
            if let Some(meta) = self.rx.meta(i) {
                if meta.stream_id == stream_id && meta.disposition == RxDisposition::Pending {
                    let d = meta.sequence.wrapping_sub(base).wrapping_sub(1);
                    if d < 32 {
                        bitmap = bitmap | (1u32 << d);
                        proof {
                            lemma_wrap_offset(base, meta.sequence, d);
                            assert(meta.sequence == wrapping_add(first, d));
                            assert forall|j: u32| j < 32 implies (bit_set(bitmap, j) <==> exists|k: int|
                                0 <= k < i + 1 && #[trigger] pending_at(rx, k, stream_id, wrapping_add(first, j))) by {
                                lemma_set_bit(old_bitmap, d, j);
                                if j == d {
                                    assert(pending_at(rx, i as int, stream_id, wrapping_add(first, j)));
                                } else {
                                    assert(bit_set(bitmap, j) == bit_set(old_bitmap, j));
                                    if exists|k: int| 0 <= k < i + 1 && #[trigger] pending_at(rx, k, stream_id, wrapping_add(first, j)) {
                                        let k = choose|k: int| 0 <= k < i + 1 && #[trigger] pending_at(rx, k, stream_id, wrapping_add(first, j));
                                        if k == i {
                                            lemma_wrap_offset(base, meta.sequence, j);
                                            assert(false);
                                        } else {
                                            assert(0 <= k < i && pending_at(rx, k, stream_id, wrapping_add(first, j)));
                                        }
                                    }
                                }
                            }
                        }
                    } else {
                        proof {
                            assert forall|j: u32| j < 32 implies (bit_set(bitmap, j) <==> exists|k: int|
                                0 <= k < i + 1 && #[trigger] pending_at(rx, k, stream_id, wrapping_add(first, j))) by {
                                if exists|k: int| 0 <= k < i + 1 && #[trigger] pending_at(rx, k, stream_id, wrapping_add(first, j)) {
                                    let k = choose|k: int| 0 <= k < i + 1 && #[trigger] pending_at(rx, k, stream_id, wrapping_add(first, j));
                                    if k == i {
                                        lemma_wrap_offset(base, meta.sequence, j);
                                        assert(false);
                                    }
                                }
                            }
                        }
                    }
                }
            }
            proof {
                assert forall|j: u32| j < 32 implies (bit_set(bitmap, j) <==> exists|k: int|
                    0 <= k < i + 1 && #[trigger] pending_at(rx, k, stream_id, wrapping_add(first, j))) by {
                    if exists|k: int| 0 <= k < i + 1 && #[trigger] pending_at(rx, k, stream_id, wrapping_add(first, j)) {
                        let k = choose|k: int| 0 <= k < i + 1 && #[trigger] pending_at(rx, k, stream_id, wrapping_add(first, j));
                        if k < i {
                            assert(0 <= k < i && pending_at(rx, k, stream_id, wrapping_add(first, j)));
                        }
                    }
                }
            }
            i = i + 1;
        }
        let used = self.rx_count_for(stream_id);
        let capacity = stream.receive_capacity as usize;
        let local_free = if capacity > used {
            capacity - used
        } else {
            0
        };
        let pool_free = self.rx.free();
        let m = if local_free < pool_free {
            local_free
        } else {
            pool_free
        };
        let credit: u8 = if m > 255 {
            255
        } else {
            m as u8
        };
        assert(stream_credit(self@, stream) == credit);
        assert(rx_bitmap_reports(bitmap, self@.rx, stream_id, base));
        Ok(Some(AckState { ack_base: base, receive_bitmap: bitmap, receive_credit: credit }))
    }

    fn find_pending(&self, stream_id: u8, seq: u32) -> (r: Option<usize>)
        ensures
            r matches Some(f) ==> f == first_pending_from(self@.rx, stream_id, seq, 0) && f < self@.rx.len(),
            r is None ==> first_pending_from(self@.rx, stream_id, seq, 0) >= self@.rx.len(),
    {
        let ghost rx = self.rx.view();
        proof {
            lemma_first_pending_from(rx, stream_id, seq, 0);
        }
        let cap = self.rx.capacity();
        let mut i: usize = 0;
        while i < cap
            invariant
                cap == rx.len(),
                rx == self.rx.view(),
                i <= cap,
                first_pending_from(rx, stream_id, seq, 0) == first_pending_from(rx, stream_id, seq, i as int),
            decreases cap - i,
        {
            if let Some(meta) = self.rx.meta(i) {
                if meta.stream_id == stream_id && meta.sequence == seq && meta.disposition
                    == RxDisposition::Pending {
                    return Some(i);
                }
            }
            i = i + 1;
        }
        None
    }

    fn find_message(&self, stream_id: u8, seq: u32) -> (r: bool)
        ensures
            r == holds_message(self@.rx, stream_id, seq),
    {
        let ghost rx = self.rx.view();
        let cap = self.rx.capacity();
        let mut i: usize = 0;
        while i < cap
            invariant
                cap == rx.len(),
                rx == self.rx.view(),
                i <= cap,
                forall|k: int|
                    0 <= k < i ==> !(#[trigger] rx[k] is Some && entry_meta(rx[k]).stream_id == stream_id
                        && entry_meta(rx[k]).sequence == seq),
            decreases cap - i,
        {
            if let Some(meta) = self.rx.meta(i) {
                if meta.stream_id == stream_id && meta.sequence == seq {
                    assert(rx[i as int] is Some && entry_meta(rx[i as int]).stream_id == stream_id);
                    return true;
                }
            }
            i = i + 1;
        }
        false
    }

    fn mark_contiguous_delivered(&mut self, idx: usize, stream_id: u8)
        requires
            old(self).wf(),
            idx < old(self)@.streams.len(),
            old(self)@.streams[idx as int] is Some,
        ensures
            final(self).wf(),
            final(self)@ == mark_run(old(self)@, idx as int, stream_id),
    {
        let ghost target = mark_run(self@, idx as int, stream_id);
        let mut done = false;
        while !done
            invariant
                self.wf(),
                idx < self@.streams.len(),
                self@.streams[idx as int] is Some,
                done ==> self@ == target,
                !done ==> mark_run(self@, idx as int, stream_id) == target,
            decreases pending_count(self@.rx, stream_id, self@.rx.len() as int) + if done {
                0int
            } else {
                1int
            },
        {
            assert(self@.streams[idx as int] == self.streams@[idx as int].stream);
            let c = self.streams[idx].stream.unwrap();
            let ghost v = self@;
            match self.find_pending(stream_id, c.next_expected) {
                None => {
                    done = true;
                },
                Some(f) => {
                    proof {
                        lemma_first_pending_from(v.rx, stream_id, c.next_expected, 0);
                    }
                    let meta = self.rx.meta(f).unwrap();
                    let delivered = RxMeta {
                        disposition: RxDisposition::Delivered,
                        order: self.next_delivery_order,
                        ..meta
                    };
                    let _ = self.rx.set_meta(f, delivered);
                    self.next_delivery_order = if self.next_delivery_order == u64::MAX {
                        1
                    } else {
                        self.next_delivery_order + 1
                    };
                    self.set_core(
                        idx,
                        StreamCore {
                            next_expected: c.next_expected.wrapping_add(1),
                            remote_ended: c.remote_ended || meta.end,
                            ..c
                        },
                    );
                    proof {
                        let e = Some((delivered, entry_bytes(v.rx[f as int])));
                        lemma_pending_count_update(v.rx, stream_id, f as int, e, v.rx.len() as int);
                    }
                },
            }
        }
    }

    /// Takes a message from the peer. Unreliable messages become readable at
    /// once (stale sequenced ones are dropped); reliable ones are held until
    /// every earlier sequence number arrived. The answer on a reliable
    /// stream is its acknowledgement state.
    pub fn receive(&mut self, stream_id: u8, sequence: Option<u32>, data: &[u8], end: bool) -> (r: Result<
        Option<AckState>,
    >)
        requires
            old(self).wf(),
        ensures
            final(self).wf(),
            ({
                let (w, res) = spec_receive(old(self)@, stream_id, sequence, data@, end);
                &&& final(self)@ == w
                &&& match res {
                    Some(x) => r == x,
                    None => ack_matches(w, stream_id, r),
                }
            }),
    {
        let idx = match self.stream_index(stream_id) {
            Ok(i) => i,
            Err(e) => return Err(e),
        };
        assert(self@.streams[idx as int] == self.streams@[idx as int].stream);
        let snapshot = match self.streams[idx].stream {
            Some(c) => c,
            None => return Err(Error::UnknownStream),
        };
        if snapshot.state == StreamState::Closed || snapshot.state == StreamState::Reset
            || snapshot.remote_ended {
            return Err(Error::InvalidState);
        }
        if !Self::remote_may_send(&snapshot) {
            return Err(Error::DirectionViolation);
        }
        if let Err(e) = Self::validate_send_len(snapshot.profile, data.len(), end) {
            return Err(e);
        }
        if snapshot.profile.unreliable {
            let seq: u32 = if snapshot.profile.sequenced {
                match sequence {
                    Some(s) => s,
                    None => return Err(Error::ProfileViolation),
                }
            } else {
                if sequence.is_some() {
                    return Err(Error::ProfileViolation);
                }
                0
            };
            if snapshot.profile.sequenced {
                if let Some(highest) = snapshot.unrel_rx_highest {
                    if seq <= highest {
                        return Ok(None);
                    }
                }
                self.set_core(idx, StreamCore { unrel_rx_highest: Some(seq), ..snapshot });
            }
            let order = self.next_delivery_order;
            self.next_delivery_order = if order == u64::MAX {
                1
            } else {
                order + 1
            };
            let meta = RxMeta {
                stream_id,
                sequence: seq,
                end: false,
                disposition: RxDisposition::Delivered,
                order,
            };
            return match self.rx.insert(meta, data) {
                Ok(_) => Ok(None),
                Err(e) => Err(e),
            };
        }
        let seq = match sequence {
            Some(s) => s,
            None => return Err(Error::ProfileViolation),
        };
        if seq < snapshot.next_expected {
            return self.ack_state(stream_id);
        }
        let distance = seq - snapshot.next_expected;
        if distance > 32 {
            return Err(Error::BufferFull);
        }
        if self.rx_count_for(stream_id) >= snapshot.receive_capacity as usize {
            return Err(Error::BufferFull);
        }
        if self.find_message(stream_id, seq) {
            return self.ack_state(stream_id);
        }
        let delivered = seq == snapshot.next_expected;
        let order = if delivered {
            let o = self.next_delivery_order;
            self.next_delivery_order = if o == u64::MAX {
                1
            } else {
                o + 1
            };
            o
        } else {
            0
        };
        let meta = RxMeta {
            stream_id,
            sequence: seq,
            end,
            disposition: if delivered {
                RxDisposition::Delivered
            } else {
                RxDisposition::Pending
            },
            order,
        };
        if let Err(e) = self.rx.insert(meta, data) {
            return Err(e);
        }
        self.set_core(
            idx,
            StreamCore {
                seen_reliable: true,
                next_expected: if delivered {
                    snapshot.next_expected.wrapping_add(1)
                } else {
                    snapshot.next_expected
                },
                remote_ended: snapshot.remote_ended || delivered && end,
                ..snapshot
            },
        );
        self.mark_contiguous_delivered(idx, stream_id);
        self.ack_state(stream_id)
    }

    /// Copies the oldest readable message of the stream into `out` and frees
    /// its slot.
    pub fn recv_into(&mut self, stream_id: u8, out: &mut [u8]) -> (r: Result<Option<ReceivedMessage>>)
        requires
            old(self).wf(),
        ensures
            final(self).wf(),
            ({
                let v = old(self)@;
                let b = oldest_delivered(v.rx, stream_id, v.rx.len() as int);
                if !has_stream(v, stream_id) {
                    r == Err::<Option<ReceivedMessage>, Error>(Error::UnknownStream) && final(self)@ == v
                        && final(out)@ == old(out)@
                } else if b < 0 {
                    r == Ok::<Option<ReceivedMessage>, Error>(None) && final(self)@ == v && final(out)@ == old(
                        out,
                    )@
                } else {
                    let (m, bytes) = v.rx[b]->0;
                    if old(out)@.len() < bytes.len() {
                        r == Err::<Option<ReceivedMessage>, Error>(Error::BufferFull) && final(self)@ == v
                            && final(out)@ == old(out)@
                    } else {
                        &&& r == Ok::<Option<ReceivedMessage>, Error>(
                            Some(ReceivedMessage { len: bytes.len() as usize, end: m.end }),
                        )
                        &&& final(self)@ == (BoundedGtsView { rx: v.rx.update(b, None), ..v })
                        &&& final(out)@ == bytes + old(out)@.subrange(bytes.len() as int, old(out)@.len() as int)
                    }
                }
            }),
    {
        if let Err(e) = self.stream(stream_id) {
            return Err(e);
        }
        let ghost rx = self.rx.view();
        let cap = self.rx.capacity();
        let mut best: Option<(usize, RxMeta)> = None;
        let mut i: usize = 0;
        while i < cap
            invariant
                cap == rx.len(),
                rx == self.rx.view(),
                i <= cap,
                best is None ==> oldest_delivered(rx, stream_id, i as int) < 0,
                best matches Some((j, m)) ==> j == oldest_delivered(rx, stream_id, i as int) && j < cap
                    && entry_meta(rx[j as int]) == m,
            decreases cap - i,
        {
            proof {
                lemma_oldest_delivered(rx, stream_id, i as int);
            }
            if let Some(meta) = self.rx.meta(i) {
                if meta.stream_id == stream_id && meta.disposition == RxDisposition::Delivered {
                    let better = match best {
                        Some((_, b)) => meta.order < b.order,
                        None => true,
                    };
                    if better {
                        best = Some((i, meta));
                    }
                }
            }
            i = i + 1;
        }
        let (idx, meta) = match best {
            Some(x) => x,
            None => return Ok(None),
        };
        proof {
            lemma_oldest_delivered(rx, stream_id, cap as int);
        }
        match self.rx.remove_into(idx, out) {
            Ok((_, len)) => Ok(Some(ReceivedMessage { len, end: meta.end })),
            Err(e) => Err(e),
        }
    }

    /// Discards every stored message of the stream and resets it.
    pub fn reset_stream(&mut self, stream_id: u8) -> (r: Result<()>)
        requires
            old(self).wf(),
        ensures
            final(self).wf(),
            ({
                let v = old(self)@;
                if !has_stream(v, stream_id) {
                    r == Err::<(), Error>(Error::UnknownStream) && final(self)@ == v
                } else {
                    &&& r == Ok::<(), Error>(())
                    &&& final(self)@ == (BoundedGtsView {
                        tx: tx_without(v.tx, stream_id),
                        rx: rx_without(v.rx, stream_id),
                        ..with_core(v, stream_slot(v.streams, stream_id), reset_core(core_of(v, stream_id)))
                    })
                }
            }),
    {
        let idx = match self.stream_index(stream_id) {
            Ok(i) => i,
            Err(e) => return Err(e),
        };
        let ghost v = self@;
        let cap = self.tx.capacity();
        let mut i: usize = 0;
        while i < cap
            invariant
                self.wf(),
                cap == v.tx.len(),
                i <= cap,
                self@ == (BoundedGtsView { tx: self@.tx, ..v }),
                self@.tx.len() == cap,
                forall|j: int| 0 <= j < i ==> #[trigger] self@.tx[j] == tx_without(v.tx, stream_id)[j],
                forall|j: int| i <= j < cap ==> #[trigger] self@.tx[j] == v.tx[j],
            decreases cap - i,
        {
            if let Some(meta) = self.tx.meta(i) {
                if meta.stream_id == stream_id {
                    let _ = self.tx.remove(i);
                }
            }
            i = i + 1;
        }
        assert(self@.tx =~= tx_without(v.tx, stream_id));
        let cap = self.rx.capacity();
        let mut i: usize = 0;
        while i < cap
            invariant
                self.wf(),
                cap == v.rx.len(),
                i <= cap,
                self@ == (BoundedGtsView { tx: tx_without(v.tx, stream_id), rx: self@.rx, ..v }),
                self@.rx.len() == cap,
                forall|j: int| 0 <= j < i ==> #[trigger] self@.rx[j] == rx_without(v.rx, stream_id)[j],
                forall|j: int| i <= j < cap ==> #[trigger] self@.rx[j] == v.rx[j],
            decreases cap - i,
        {
            if let Some(meta) = self.rx.meta(i) {
                if meta.stream_id == stream_id {
                    let _ = self.rx.remove(i);
                }
            }
            i = i + 1;
        }
        assert(self@.rx =~= rx_without(v.rx, stream_id));
        assert(self@.streams[idx as int] == self.streams@[idx as int].stream);
        let c = self.streams[idx].stream.unwrap();
        self.set_core(
            idx,
            StreamCore { state: StreamState::Reset, local_ended: true, remote_ended: true, peer_credit: 0, ..c },
        );
        Ok(())
    }

    /// Resets the tunnel: every stored message is discarded and every stream
    /// is reset.
    pub fn reset(&mut self)
        requires
            old(self).wf(),
        ensures
            final(self).wf(),
            final(self)@ == (BoundedGtsView {
                state: TunnelState::Reset,
                tx: Seq::new(old(self)@.tx.len(), |_i: int| None::<(TxMeta, Seq<u8>)>),
                rx: Seq::new(old(self)@.rx.len(), |_i: int| None::<(RxMeta, Seq<u8>)>),
                streams: old(self)@.streams.map_values(
                    |s: Option<StreamCore>|
                        match s {
                            Some(c) => Some(reset_core(c)),
                            None => None,
                        },
                ),
                ..old(self)@
            }),
    {
        self.state = TunnelState::Reset;
        self.tx.clear();
        self.rx.clear();
        let ghost s0 = self@.streams;
        assert forall|j: int| 0 <= j < s0.len() implies s0[j] == self.streams@[j].stream by {}
        let mut i: usize = 0;
        while i < self.streams.len()
            invariant
                i <= self.streams@.len() == s0.len(),
                forall|j: int| 0 <= j < i ==> (#[trigger] self.streams@[j]).stream == match s0[j] {
                    Some(c) => Some(reset_core(c)),
                    None => None::<StreamCore>,
                },
                forall|j: int| i <= j < s0.len() ==> (#[trigger] self.streams@[j]).stream == s0[j],
                self.tx.wf(),
                self.rx.wf(),
                self.tx.view() == Seq::new(old(self)@.tx.len(), |_i: int| None::<(TxMeta, Seq<u8>)>),
                self.rx.view() == Seq::new(old(self)@.rx.len(), |_i: int| None::<(RxMeta, Seq<u8>)>),
                self.tx.spec_slot_size() == old(self).tx.spec_slot_size(),
                self.rx.spec_slot_size() == old(self).rx.spec_slot_size(),
                self.state == TunnelState::Reset,
                self.role == old(self).role,
                self.local_receive_id == old(self).local_receive_id,
                self.remote_receive_id == old(self).remote_receive_id,
                self.local_reset_id == old(self).local_reset_id,
                self.remote_reset_id == old(self).remote_reset_id,
                self.css == old(self).css,
                self.next_stream_id == old(self).next_stream_id,
                self.next_delivery_order == old(self).next_delivery_order,
                self.rto_ms == old(self).rto_ms,
                s0 == old(self)@.streams,
            decreases self.streams@.len() - i,
        {
            let slot = self.streams[i];
            if let Some(c) = slot.stream {
                let ghost before = self.streams@;
                self.streams.set(
                    i,
                    BoundedStreamSlot {
                        stream: Some(
                            StreamCore {
                                state: StreamState::Reset,
                                local_ended: true,
                                remote_ended: true,
                                peer_credit: 0,
                                ..c
                            },
                        ),
                    },
                );
                assert forall|j: int| 0 <= j < s0.len() && j != i implies #[trigger] self.streams@[j] == before[j] by {}
            }
            i = i + 1;
        }
        assert(self@.streams.len() == s0.len());
        assert forall|j: int| 0 <= j < s0.len() implies self@.streams[j] == self.streams@[j].stream by {}
        assert(self@.streams =~= s0.map_values(
            |s: Option<StreamCore>|
                match s {
                    Some(c) => Some(reset_core(c)),
                    None => None,
                },
        ));
    }
}

/// Effect of one stream-id allocation on a socket `v`.
pub open spec fn spec_alloc_stream_id(v: BoundedGtsView) -> (BoundedGtsView, Result<u8>) {
    if v.state != TunnelState::Established {
        (v, Err(Error::InvalidState))
    } else if v.next_stream_id > 253 {
        (v, Err(Error::BufferFull))
    } else {
        (BoundedGtsView { next_stream_id: (v.next_stream_id + 2) as u8, ..v }, Ok(v.next_stream_id))
    }
}

/// The results of `n` successive stream-id allocations on `v`.
pub open spec fn alloc_stream_ids(v: BoundedGtsView, n: nat) -> Seq<Result<u8>>
    decreases n,
{
    if n == 0 {
        Seq::empty()
    } else {
        seq![spec_alloc_stream_id(v).1] + alloc_stream_ids(spec_alloc_stream_id(v).0, (n - 1) as nat)
    }
}

/// On an established tunnel, successive allocations hand out the ids
/// `s, s + 2, s + 4, ...` up to 253, where `s` is the next id (2 for the
/// initiator, 1 for the responder, so the parity names the opener); after
/// that every allocation fails with `BufferFull`.
pub proof fn law_stream_ids_in_sequence(v: BoundedGtsView, n: nat)
    requires
        v.state == TunnelState::Established,
    ensures
        alloc_stream_ids(v, n).len() == n,
        forall|j: int|
            0 <= j < n ==> #[trigger] alloc_stream_ids(v, n)[j] == (if v.next_stream_id + 2 * j <= 253 {
                Ok::<u8, Error>((v.next_stream_id + 2 * j) as u8)
            } else {
                Err(Error::BufferFull)
            }),
    decreases n,
{
    if n > 0 {
        let v1 = spec_alloc_stream_id(v).0;
        law_stream_ids_in_sequence(v1, (n - 1) as nat);
        let rest = alloc_stream_ids(v1, (n - 1) as nat);
        assert forall|j: int| 0 <= j < n implies #[trigger] alloc_stream_ids(v, n)[j] == (if v.next_stream_id
            + 2 * j <= 253 {
            Ok::<u8, Error>((v.next_stream_id + 2 * j) as u8)
        } else {
            Err(Error::BufferFull)
        }) by {
            if j > 0 {
                assert(alloc_stream_ids(v, n)[j] == rest[j - 1]);
            }
        }
    }
}

proof fn lemma_slot_after_update(s: Seq<Option<StreamCore>>, k: int, c2: StreamCore, id: u8, i: int)
    requires
        0 <= i <= s.len(),
        0 <= k < s.len(),
        holds_stream(s, k, id),
        c2.id == id,
    ensures
        stream_slot_from(s.update(k, Some(c2)), id, i) == stream_slot_from(s, id, i),
    decreases s.len() - i,
{
    let t = s.update(k, Some(c2));
    if i < s.len() {
        assert(holds_stream(t, i, id) == holds_stream(s, i, id));
        lemma_slot_after_update(s, k, c2, id, i + 1);
    }
}

/// Sequence number `n` places after `start`, wrapping at 2^32.
pub open spec fn sequence_after(start: u32, n: nat) -> u32 {
    ((start + n) % 0x1_0000_0000) as u32
}

/// Number of successful results in `rs`.
pub open spec fn count_ok(rs: Seq<Result<SendInfo>>) -> nat
    decreases rs.len(),
{
    if rs.len() == 0 {
        0
    } else {
        count_ok(rs.drop_last()) + if rs.last() is Ok {
            1nat
        } else {
            0nat
        }
    }
}

/// Sending each of `msgs` (data and end flag) on stream `id` at `now`, in
/// order: the socket afterwards and the results.
pub open spec fn send_run(v: BoundedGtsView, id: u8, msgs: Seq<(Seq<u8>, bool)>, now: u64) -> (
    BoundedGtsView,
    Seq<Result<SendInfo>>,
)
    decreases msgs.len(),
{
    if msgs.len() == 0 {
        (v, Seq::empty())
    } else {
        let before = send_run(v, id, msgs.drop_last(), now);
        let step = spec_send(before.0, id, msgs.last().0, msgs.last().1, now);
        (step.0, before.1.push(step.1))
    }
}

/// On a reliable stream every successful send is numbered by the count of
/// the successful sends before it, counted on from the stream's next
/// sequence number, and spends one credit; a failed send changes nothing.
pub proof fn law_send_sequence(v: BoundedGtsView, id: u8, msgs: Seq<(Seq<u8>, bool)>, now: u64)
    requires
        has_stream(v, id),
        !core_of(v, id).profile.unreliable,
    ensures
        ({
            let (w, rs) = send_run(v, id, msgs, now);
            let c0 = core_of(v, id);
            &&& rs.len() == msgs.len()
            &&& has_stream(w, id)
            &&& core_of(w, id).profile == c0.profile
            &&& core_of(w, id).next_tx_sequence == sequence_after(c0.next_tx_sequence, count_ok(rs))
            &&& core_of(w, id).peer_credit == c0.peer_credit - count_ok(rs)
            &&& forall|j: int|
                0 <= j < rs.len() && #[trigger] rs[j] is Ok ==> rs[j]->Ok_0.sequence == Some(
                    sequence_after(c0.next_tx_sequence, count_ok(rs.take(j))),
                )
        }),
    decreases msgs.len(),
{
    if msgs.len() > 0 {
        let before = send_run(v, id, msgs.drop_last(), now);
        law_send_sequence(v, id, msgs.drop_last(), now);
        let u = before.0;
        let rs0 = before.1;
        let c0 = core_of(v, id);
        let c = core_of(u, id);
        let i = stream_slot(u.streams, id);
        lemma_stream_slot_from(u.streams, id, 0);
        let step = spec_send(u, id, msgs.last().0, msgs.last().1, now);
        let rs = rs0.push(step.1);
        assert(rs.drop_last() =~= rs0);
        if step.1 is Ok {
            let w = step.0;
            let c2 = StreamCore {
                next_tx_sequence: wrapping_add(c.next_tx_sequence, 1),
                peer_credit: (c.peer_credit - 1) as u8,
                local_ended: c.local_ended || msgs.last().1,
                ..c
            };
            let u1 = BoundedGtsView {
                tx: u.tx.update(first_unused(u.tx, 0), Some((TxMeta { stream_id: id, sequence: c.next_tx_sequence, end: msgs.last().1, sent_at: now }, msgs.last().0))),
                ..u
            };
            assert(w == with_core(u1, i, c2));
            lemma_slot_after_update(u.streams, i, c2, id, 0);
            assert(w.streams == u.streams.update(i, Some(c2)));
            let a: int = c0.next_tx_sequence + count_ok(rs0);
            assert(((a + 1) % 0x1_0000_0000) == (if a % 0x1_0000_0000 + 1 == 0x1_0000_0000 {
                0
            } else {
                a % 0x1_0000_0000 + 1
            })) by (nonlinear_arith)
                requires
                    a >= 0,
            ;
        }
        assert forall|j: int| 0 <= j < rs.len() && #[trigger] rs[j] is Ok implies rs[j]->Ok_0.sequence == Some(
            sequence_after(c0.next_tx_sequence, count_ok(rs.take(j))),
        ) by {
            if j < rs0.len() {
                assert(rs.take(j) =~= rs0.take(j));
                assert(rs[j] == rs0[j]);
            } else {
                assert(rs.take(j) =~= rs0);
            }
        }
    }
}

} // verus!

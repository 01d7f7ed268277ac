use vstd::prelude::*;

use std::collections::{BTreeMap, VecDeque};

use crate::error::{Error, Result};
use crate::wire::bytes::copy_range;
use crate::wire::css::ServiceSelector;
use crate::wire::gts::{GtsPacket, GtsPacketView, StreamProfile};

pub use crate::wire::gts::Direction;

verus! {

use vstd::wrapping::u32_specs::{wrapping_add, wrapping_sub};

pub const DEFAULT_RTO_MS: u64 = 500;

pub const DEFAULT_RX_SLOTS: usize = 32;

#[derive(Debug, Clone, Copy, PartialEq, Eq, Structural)]
pub enum TunnelRole {
    Initiator,
    Responder,
}

#[derive(Debug, Clone, Copy, PartialEq, Eq, Structural)]
pub enum TunnelState {
    Connecting,
    Established,
    Closing,
    Closed,
    Reset,
}

#[derive(Debug, Clone, Copy, PartialEq, Eq, Structural)]
pub enum StreamState {
    Opening,
    Open,
    Closing,
    Closed,
    Reset,
}

#[derive(Debug, Clone)]
struct PendingTx {
    data: Vec<u8>,
    end: bool,
    sent_at: u64,
}

/// A message waiting for acknowledgement.
pub struct PendingView {
    pub data: Seq<u8>,
    pub end: bool,
    pub sent_at: u64,
}

impl View for PendingTx {
    type V = PendingView;

    closed spec fn view(&self) -> PendingView {
        PendingView { data: self.data@, end: self.end, sent_at: self.sent_at }
    }
}

/// Transmit side of a reliable stream.
#[derive(Debug, Clone)]
pub struct ReliableTx {
    next_sequence: u32,
    peer_credit: u8,
    outstanding: Vec<(u32, PendingTx)>,
    rto_ms: u64,
}

/// Mathematical value of a reliable transmitter; unacknowledged messages in
/// increasing sequence order.
pub struct ReliableTxView {
    pub next_sequence: u32,
    pub peer_credit: u8,
    pub outstanding: Seq<(u32, PendingView)>,
    pub rto_ms: u64,
}

/// Keys strictly increase along `s`.
pub open spec fn keys_increasing(s: Seq<(u32, PendingView)>) -> bool {
    forall|i: int, j: int| 0 <= i < j < s.len() ==> s[i].0 < s[j].0
}

/// `s2` is `s` with `(k, v)` placed in key order, replacing an entry for `k`.
pub open spec fn inserted_in_order(s: Seq<(u32, PendingView)>, s2: Seq<(u32, PendingView)>, k: u32, v: PendingView) -> bool {
    exists|p: int|
        #![trigger s.take(p)]
        0 <= p <= s.len() && (forall|i: int| 0 <= i < p ==> s[i].0 < k) && (p < s.len() ==> s[p].0
            >= k) && s2 == s.take(p) + seq![(k, v)] + (if p < s.len() && s[p].0 == k {
            s.skip(p + 1)
        } else {
            s.skip(p)
        })
}

/// `t` is `s` after queueing one message: the next sequence number is
/// assigned to it, one credit is spent and the message waits in key order.
pub open spec fn tx_queued(s: ReliableTxView, t: ReliableTxView, data: Seq<u8>, end: bool, now: u64) -> bool {
    &&& t.next_sequence == wrapping_add(s.next_sequence, 1)
    &&& t.peer_credit == s.peer_credit - 1
    &&& t.rto_ms == s.rto_ms
    &&& inserted_in_order(
        s.outstanding,
        t.outstanding,
        s.next_sequence,
        PendingView { data, end, sent_at: now },
    )
}

/// Sequence `k` is covered by an acknowledgement with base `base` and bitmap
/// `bitmap`: cumulatively up to `base`, and bit `j` of the bitmap for sequence
/// `base + 1 + j`. A base of `u32::MAX` is what a receiver reports before any
/// message arrived in order: nothing is covered cumulatively, and the bitmap
/// counts from sequence 0.
pub open spec fn acked(k: u32, base: u32, bitmap: u32) -> bool {
    if base == u32::MAX {
        k < 32 && (bitmap & (1u32 << k)) != 0
    } else {
        k <= base || (k - base - 1 < 32 && (bitmap & (1u32 << ((k - base - 1) as u32))) != 0)
    }
}

/// Entries that an acknowledgement leaves outstanding.
pub open spec fn unacked_by(base: u32, bitmap: u32) -> spec_fn((u32, PendingView)) -> bool {
    |e: (u32, PendingView)| !acked(e.0, base, bitmap)
}

/// Entries whose retransmission timer has expired.
pub open spec fn due_at(now: u64, rto: u64) -> spec_fn((u32, PendingView)) -> bool {
    |e: (u32, PendingView)| is_due(e.1, now, rto)
}

/// An entry after a retransmission pass at `now`.
pub open spec fn restarted(now: u64, rto: u64) -> spec_fn((u32, PendingView)) -> (u32, PendingView) {
    |e: (u32, PendingView)|
        if is_due(e.1, now, rto) {
            (e.0, PendingView { sent_at: now, ..e.1 })
        } else {
            e
        }
}

/// The message has waited at least `rto` since it was last sent.
pub open spec fn is_due(p: PendingView, now: u64, rto: u64) -> bool {
    (if now >= p.sent_at {
        now - p.sent_at
    } else {
        0
    }) >= rto
}

pub open spec fn views_of(v: Seq<(u32, PendingTx)>) -> Seq<(u32, PendingView)> {
    v.map_values(|e: (u32, PendingTx)| (e.0, e.1@))
}

/// Retransmissions as plain values: sequence, payload, end flag.
pub open spec fn resend_views(v: Seq<(u32, Vec<u8>, bool)>) -> Seq<(u32, Seq<u8>, bool)> {
    v.map_values(|t: (u32, Vec<u8>, bool)| (t.0, t.1@, t.2))
}

/// What a retransmission of each pending entry carries.
pub open spec fn resend_of(s: Seq<(u32, PendingView)>) -> Seq<(u32, Seq<u8>, bool)> {
    s.map_values(|e: (u32, PendingView)| (e.0, e.1.data, e.1.end))
}

impl View for ReliableTx {
    type V = ReliableTxView;

    closed spec fn view(&self) -> ReliableTxView {
        ReliableTxView {
            next_sequence: self.next_sequence,
            peer_credit: self.peer_credit,
            outstanding: views_of(self.outstanding@),
            rto_ms: self.rto_ms,
        }
    }
}

impl ReliableTx {
    pub closed spec fn wf(&self) -> bool {
        keys_increasing(self@.outstanding)
    }

    pub fn new(peer_credit: u8) -> (r: Self)
        ensures
            r.wf(),
            r@ == (ReliableTxView {
                next_sequence: 0,
                peer_credit,
                outstanding: Seq::empty(),
                rto_ms: DEFAULT_RTO_MS,
            }),
    {
        let r = ReliableTx { next_sequence: 0, peer_credit, outstanding: Vec::new(), rto_ms: DEFAULT_RTO_MS };
        assert(r@.outstanding =~= Seq::<(u32, PendingView)>::empty());
        r
    }

    pub fn peer_credit(&self) -> (r: u8)
        ensures
            r == self@.peer_credit,
    {
        self.peer_credit
    }

    /// Number of unacknowledged messages.
    pub fn outstanding(&self) -> (r: usize)
        ensures
            r == self@.outstanding.len(),
    {
        self.outstanding.len()
    }

    /// Sets the peer's receive credit.
    pub fn set_peer_credit(&mut self, credit: u8)
        requires
            old(self).wf(),
        ensures
            final(self).wf(),
            final(self)@ == (ReliableTxView { peer_credit: credit, ..old(self)@ }),
    {
        self.peer_credit = credit;
    }

    /// Assigns the next sequence number to a message, spending one credit.
    pub fn queue(&mut self, data: Vec<u8>, end: bool, now: u64) -> (r: Result<u32>)
        requires
            old(self).wf(),
        ensures
            final(self).wf(),
            old(self)@.peer_credit == 0 ==> r == Err::<u32, Error>(Error::WouldBlock) && final(self)@
                == old(self)@,
            old(self)@.peer_credit != 0 ==> r == Ok::<u32, Error>(old(self)@.next_sequence) && tx_queued(
                old(self)@,
                final(self)@,
                data@,
                end,
                now,
            ),
    {
        if self.peer_credit == 0 {
            return Err(Error::WouldBlock);
        }
        let seq = self.next_sequence;
        self.next_sequence = self.next_sequence.wrapping_add(1);
        self.peer_credit = self.peer_credit - 1;
        let ghost s = views_of(self.outstanding@);
        let ghost pv = PendingView { data: data@, end, sent_at: now };
        let mut p: usize = 0;
        while p < self.outstanding.len() && self.outstanding[p].0 < seq
            invariant
                p <= self.outstanding@.len(),
                s == views_of(self.outstanding@),
                forall|i: int| 0 <= i < p ==> s[i].0 < seq,
            decreases self.outstanding@.len() - p,
        {
            p = p + 1;
        }
        let pending = PendingTx { data, end, sent_at: now };
        if p < self.outstanding.len() && self.outstanding[p].0 == seq {
            self.outstanding.set(p, (seq, pending));
            proof {
                let s2 = views_of(self.outstanding@);
                assert(s2 =~= s.take(p as int) + seq![(seq, pv)] + s.skip(p + 1));
            }
        } else {
            self.outstanding.insert(p, (seq, pending));
            proof {
                let s2 = views_of(self.outstanding@);
                assert(s2 =~= s.take(p as int) + seq![(seq, pv)] + s.skip(p as int));
            }
        }
        proof {
            let s2 = views_of(self.outstanding@);
            assert(s.take(p as int) == s.take(p as int));
            assert forall|i: int, j: int| 0 <= i < j < s2.len() implies s2[i].0 < s2[j].0 by {
                if p < s.len() && s[p as int].0 == seq {
                    if i < p && j > p {
                        assert(s2[j] == s[j]);
                    }
                } else {
                    if j > p {
                        assert(s2[j] == s[j - 1]);
                        if i > p {
                            assert(s2[i] == s[i - 1]);
                        }
                    }
                }
            }
        }
        Ok(seq)
    }

    /// Drops every message the acknowledgement covers and takes the peer's new credit.
    pub fn on_ack(&mut self, base: u32, bitmap: u32, credit: u8)
        requires
            old(self).wf(),
        ensures
            final(self).wf(),
            final(self)@ == (ReliableTxView {
                peer_credit: credit,
                outstanding: old(self)@.outstanding.filter(unacked_by(base, bitmap)),
                ..old(self)@
            }),
    {
        let ghost s = views_of(self.outstanding@);
        let ghost pred = unacked_by(base, bitmap);
        let mut kept: Vec<(u32, PendingTx)> = Vec::new();
        let mut old_entries: Vec<(u32, PendingTx)> = Vec::new();
        std::mem::swap(&mut old_entries, &mut self.outstanding);
        let mut i: usize = 0;
        proof {
            reveal(Seq::filter);
            assert(s.take(0) =~= Seq::<(u32, PendingView)>::empty());
            assert(views_of(kept@) =~= s.take(0).filter(pred));
        }
        while i < old_entries.len()
            invariant
                i <= old_entries@.len(),
                s == views_of(old_entries@),
                views_of(kept@) == s.take(i as int).filter(pred),
                pred == unacked_by(base, bitmap),
            decreases old_entries@.len() - i,
        {
            let k = old_entries[i].0;
            let is_acked = if base == u32::MAX {
                k < 32 && (bitmap & (1u32 << k)) != 0
            } else if k <= base {
                true
            } else {
                let d = k - base - 1;
                d < 32 && (bitmap & (1u32 << d)) != 0
            };
            proof {
                reveal(Seq::filter);
                assert(s.take(i + 1).drop_last() =~= s.take(i as int));
                assert(s.take(i + 1).last() == s[i as int]);
                assert(s[i as int] == (old_entries@[i as int].0, old_entries@[i as int].1@));
                assert(is_acked == acked(k, base, bitmap));
                assert(s[i as int].0 == k);
                assert(pred(s[i as int]) == !acked(s[i as int].0, base, bitmap));
                assert(pred(s[i as int]) == !is_acked);
            }
            if !is_acked {
                let ghost before = views_of(kept@);
                let entry = (k, PendingTx {
                    data: copy_range(old_entries[i].1.data.as_slice(), 0, old_entries[i].1.data.len()),
                    end: old_entries[i].1.end,
                    sent_at: old_entries[i].1.sent_at,
                });
                proof {
                    assert(old_entries@[i as int].1.data@.subrange(0, old_entries@[i as int].1.data@.len() as int)
                        =~= old_entries@[i as int].1.data@);
                }
                kept.push(entry);
                assert(views_of(kept@) =~= before.push(s[i as int]));
                assert(s.take(i + 1).filter(pred) == s.take(i as int).filter(pred).push(s[i as int]));
            } else {
                assert(s.take(i + 1).filter(pred) == s.take(i as int).filter(pred));
            }
            i = i + 1;
        }
        proof {
            assert(s.take(s.len() as int) =~= s);
            let f = s.filter(pred);
            assert forall|a: int, b: int| 0 <= a < b < f.len() implies f[a].0 < f[b].0 by {
                lemma_filter_keeps_order(s, pred, a, b);
            }
        }
        self.outstanding = kept;
        self.peer_credit = credit;
    }

    /// Messages whose retransmission timer expired, in sequence order; their
    /// timers restart at `now`.
    pub fn due(&mut self, now: u64) -> (r: Vec<(u32, Vec<u8>, bool)>)
        requires
            old(self).wf(),
        ensures
            final(self).wf(),
            final(self)@ == (ReliableTxView {
                outstanding: old(self)@.outstanding.map_values(restarted(now, old(self)@.rto_ms)),
                ..old(self)@
            }),
            resend_views(r@) == resend_of(old(self)@.outstanding.filter(due_at(now, old(self)@.rto_ms))),
    {
        let ghost s = views_of(self.outstanding@);
        let ghost rto = self.rto_ms;
        let ghost pred = due_at(now, rto);
        let ghost upd = restarted(now, rto);
        let mut out: Vec<(u32, Vec<u8>, bool)> = Vec::new();
        let mut i: usize = 0;
        proof {
            reveal(Seq::filter);
            assert(s.take(0).filter(pred) =~= Seq::<(u32, PendingView)>::empty());
        }
        while i < self.outstanding.len()
            invariant
                i <= self.outstanding@.len() == s.len(),
                self.rto_ms == rto,
                pred == due_at(now, rto),
                upd == restarted(now, rto),
                forall|j: int| 0 <= j < i ==> #[trigger] views_of(self.outstanding@)[j] == upd(s[j]),
                forall|j: int| i <= j < s.len() ==> #[trigger] views_of(self.outstanding@)[j] == s[j],
                resend_views(out@) == resend_of(s.take(i as int).filter(pred)),
                self.next_sequence == old(self).next_sequence,
                self.peer_credit == old(self).peer_credit,
                s == views_of(old(self).outstanding@),
                rto == old(self).rto_ms,
            decreases s.len() - i,
        {
            let sent_at = self.outstanding[i].1.sent_at;
            assert(views_of(self.outstanding@)[i as int] == (self.outstanding@[i as int].0, self.outstanding@[i as int].1@));
            assert(s[i as int] == views_of(self.outstanding@)[i as int]);
            let elapsed = if now >= sent_at {
                now - sent_at
            } else {
                0
            };
            proof {
                reveal(Seq::filter);
                assert(s.take(i + 1).drop_last() =~= s.take(i as int));
            }
            if elapsed >= self.rto_ms {
                let k = self.outstanding[i].0;
                let data = copy_range(self.outstanding[i].1.data.as_slice(), 0, self.outstanding[i].1.data.len());
                let end = self.outstanding[i].1.end;
                let ghost before = out@;
                proof {
                    assert(self.outstanding@[i as int].1.data@.subrange(0, self.outstanding@[i as int].1.data@.len() as int)
                        =~= self.outstanding@[i as int].1.data@);
                }
                let fresh = PendingTx {
                    data: copy_range(self.outstanding[i].1.data.as_slice(), 0, self.outstanding[i].1.data.len()),
                    end,
                    sent_at: now,
                };
                let ghost prev = self.outstanding@;
                self.outstanding.set(i, (k, fresh));
                proof {
                    assert forall|j: int| 0 <= j < s.len() && j != i implies #[trigger] views_of(
                        self.outstanding@,
                    )[j] == views_of(prev)[j] by {
                        assert(self.outstanding@[j] == prev[j]);
                    }
                    assert(views_of(self.outstanding@)[i as int] == upd(s[i as int]));
                }
                out.push((k, data, end));
                assert(out@ =~= before.push((k, data, end)));
                assert(resend_views(out@) =~= resend_views(before).push(
                    (s[i as int].0, s[i as int].1.data, s[i as int].1.end),
                ));
                assert(pred(s[i as int]));
                assert(s.take(i + 1).filter(pred) == s.take(i as int).filter(pred).push(s[i as int]));
                assert(resend_of(s.take(i + 1).filter(pred)) =~= resend_of(s.take(i as int).filter(pred)).push(
                    (s[i as int].0, s[i as int].1.data, s[i as int].1.end),
                ));
            } else {
                assert(!pred(s[i as int]));
                assert(upd(s[i as int]) == s[i as int]);
                assert(s.take(i + 1).filter(pred) == s.take(i as int).filter(pred));
            }
            i = i + 1;
        }
        proof {
            assert(s.take(s.len() as int) =~= s);
            assert(views_of(self.outstanding@) =~= s.map_values(upd));
        }
        out
    }
}

proof fn lemma_filter_keeps_order(s: Seq<(u32, PendingView)>, pred: spec_fn((u32, PendingView)) -> bool, a: int, b: int)
    requires
        keys_increasing(s),
        0 <= a < b < s.filter(pred).len(),
    ensures
        s.filter(pred)[a].0 < s.filter(pred)[b].0,
    decreases s.len(),
{
    reveal(Seq::filter);
    let t = s.drop_last();
    assert(keys_increasing(t));
    t.lemma_filter_len(pred);
    if pred(s.last()) {
        if b < t.filter(pred).len() {
            lemma_filter_keeps_order(t, pred, a, b);
        } else {
            t.filter_lemma(pred);
            lemma_filter_members(t, pred, a);
        }
    } else {
        lemma_filter_keeps_order(t, pred, a, b);
    }
}

proof fn lemma_filter_members(s: Seq<(u32, PendingView)>, pred: spec_fn((u32, PendingView)) -> bool, a: int)
    requires
        0 <= a < s.filter(pred).len(),
    ensures
        exists|i: int| 0 <= i < s.len() && s[i] == s.filter(pred)[a],
    decreases s.len(),
{
    reveal(Seq::filter);
    let t = s.drop_last();
    t.lemma_filter_len(pred);
    if pred(s.last()) && a == t.filter(pred).len() {
        assert(s[s.len() - 1] == s.filter(pred)[a]);
    } else {
        lemma_filter_members(t, pred, a);
        let i = choose|i: int| 0 <= i < t.len() && t[i] == t.filter(pred)[a];
        assert(s[i] == s.filter(pred)[a]);
    }
}

/// Receive side of a reliable stream as plain values.
pub struct ReliableRxView {
    pub next_expected: u32,
    /// Out-of-order payloads by sequence number.
    pub pending: Map<u32, Seq<u8>>,
    /// In-order payloads waiting for the application.
    pub delivered: Seq<Seq<u8>>,
    pub capacity: usize,
    pub seen_any: bool,
}

/// Receive side of a reliable stream: reorders by sequence number within a
/// bounded window and hands payloads out in order.
#[derive(Debug, Clone)]
pub struct ReliableRx {
    next_expected: u32,
    pending: BTreeMap<u32, Vec<u8>>,
    delivered: VecDeque<Vec<u8>>,
    capacity: usize,
    seen_any: bool,
}

pub open spec fn payload_map(m: Map<u32, Vec<u8>>) -> Map<u32, Seq<u8>> {
    m.map_values(|v: Vec<u8>| v@)
}

pub open spec fn payload_seq(s: Seq<Vec<u8>>) -> Seq<Seq<u8>> {
    s.map_values(|v: Vec<u8>| v@)
}

impl View for ReliableRx {
    type V = ReliableRxView;

    closed spec fn view(&self) -> ReliableRxView {
        ReliableRxView {
            next_expected: self.next_expected,
            pending: payload_map(self.pending@),
            delivered: payload_seq(self.delivered@),
            capacity: self.capacity,
            seen_any: self.seen_any,
        }
    }
}

/// Slots in use: held out of order plus delivered and not yet read.
pub open spec fn rx_used(v: ReliableRxView) -> nat {
    v.pending.len() + v.delivered.len()
}

/// Receive credit advertised to the peer: free slots, at most 255.
pub open spec fn rx_credit(v: ReliableRxView) -> u8 {
    let free = v.capacity - rx_used(v);
    if free <= 0 {
        0
    } else if free > 255 {
        255
    } else {
        free as u8
    }
}

/// Moves the run of consecutive sequence numbers starting at `n` out of
/// `m`: what stays, the payloads in order, and the next expected number.
pub open spec fn drain(m: Map<u32, Seq<u8>>, n: u32) -> (Map<u32, Seq<u8>>, Seq<Seq<u8>>, u32)
    decreases m.len(),
    when m.dom().finite()
{
    if m.contains_key(n) {
        let r = drain(m.remove(n), wrapping_add(n, 1));
        (r.0, seq![m[n]] + r.1, r.2)
    } else {
        (m, Seq::empty(), n)
    }
}

/// State and result after a data segment with sequence `seq` arrives.
pub open spec fn rx_receive(v: ReliableRxView, seq: u32, data: Seq<u8>) -> (ReliableRxView, Result<bool>) {
    if seq < v.next_expected {
        (v, Ok(false))
    } else if seq == v.next_expected {
        if rx_used(v) >= v.capacity {
            (v, Err(Error::BufferFull))
        } else {
            let d = drain(v.pending, wrapping_add(seq, 1));
            (
                ReliableRxView {
                    next_expected: d.2,
                    pending: d.0,
                    delivered: v.delivered.push(data) + d.1,
                    seen_any: true,
                    ..v
                },
                Ok(true),
            )
        }
    } else if seq - v.next_expected > 32 || rx_used(v) >= v.capacity {
        (v, Err(Error::BufferFull))
    } else {
        (
            ReliableRxView {
                pending: if v.pending.contains_key(seq) {
                    v.pending
                } else {
                    v.pending.insert(seq, data)
                },
                ..v
            },
            Ok(false),
        )
    }
}

/// Bit `j` of `x`.
pub open spec fn bit_set(x: u32, j: u32) -> bool {
    (x >> j) & 1u32 == 1u32
}

/// Bit `j` of an acknowledgement bitmap stands for sequence `base + 1 + j`.
pub open spec fn bitmap_reports(bitmap: u32, base: u32, pending: Map<u32, Seq<u8>>) -> bool {
    forall|j: u32| j < 32 ==> (bit_set(bitmap, j) <==> pending.contains_key(wrapping_add(wrapping_add(base, 1), j)))
}

pub(crate) proof fn lemma_set_bit(x: u32, b: u32, j: u32)
    by (bit_vector)
    requires
        b < 32,
        j < 32,
    ensures
        ((x | (1u32 << b)) >> j) & 1u32 == (if j == b {
            1u32
        } else {
            (x >> j) & 1u32
        }),
        (0u32 >> j) & 1u32 == 0u32,
{
}

proof fn lemma_pending_finite(m: BTreeMap<u32, Vec<u8>>)
    ensures
        payload_map(m@).dom() == m@.dom(),
        payload_map(m@).dom().finite(),
        payload_map(m@).len() == m@.len(),
{
    assert(payload_map(m@).dom() =~= m@.dom());
}

proof fn lemma_drain_len(m: Map<u32, Seq<u8>>, n: u32)
    requires
        m.dom().finite(),
    ensures
        drain(m, n).0.dom().finite(),
        drain(m, n).0.len() + drain(m, n).1.len() == m.len(),
    decreases m.len(),
{
    if m.contains_key(n) {
        lemma_drain_len(m.remove(n), wrapping_add(n, 1));
    }
}

impl ReliableRx {
    pub closed spec fn wf(&self) -> bool {
        rx_used(self@) <= self.capacity
    }

    /// A receiver with room for `capacity` payloads.
    pub fn new(capacity: usize) -> (r: Self)
        ensures
            r.wf(),
            r@ == (ReliableRxView {
                next_expected: 0,
                pending: Map::empty(),
                delivered: Seq::empty(),
                capacity,
                seen_any: false,
            }),
    {
        let r = ReliableRx {
            next_expected: 0,
            pending: BTreeMap::new(),
            delivered: VecDeque::new(),
            capacity,
            seen_any: false,
        };
        assert(r@.pending =~= Map::<u32, Seq<u8>>::empty());
        assert(r@.delivered =~= Seq::<Seq<u8>>::empty());
        r
    }

    fn used(&self) -> (r: usize)
        requires
            self.wf(),
        ensures
            r == rx_used(self@),
    {
        broadcast use vstd::laws_cmp::group_laws_cmp;

        assert(self.pending@.dom() =~= self@.pending.dom());
        self.pending.len() + self.delivered.len()
    }

    /// Free slots to advertise, capped at 255.
    pub fn credit(&self) -> (r: u8)
        requires
            self.wf(),
        ensures
            r == rx_credit(self@),
    {
        let used = self.used();
        let free = if self.capacity > used {
            self.capacity - used
        } else {
            0
        };
        if free > 255 {
            255
        } else {
            free as u8
        }
    }

    /// Accepts the data segment `seq`. `Ok(true)` when it was next in order
    /// (it and every pending successor become readable), `Ok(false)` for an
    /// old duplicate or a segment held for reordering; `BufferFull` when it is
    /// too far ahead or no slot is free.
    pub fn receive(&mut self, seq: u32, data: Vec<u8>) -> (r: Result<bool>)
        requires
            old(self).wf(),
        ensures
            final(self).wf(),
            (final(self)@, r) == rx_receive(old(self)@, seq, data@),
    {
        broadcast use vstd::laws_cmp::group_laws_cmp;

        if seq < self.next_expected {
            return Ok(false);
        }
        if seq == self.next_expected {
            if self.used() >= self.capacity {
                return Err(Error::BufferFull);
            }
            proof {
                lemma_pending_finite(self.pending);
            }
            let ghost v0 = self@;
            let ghost target = drain(v0.pending, wrapping_add(seq, 1));
            let ghost d0 = v0.delivered.push(data@);
            self.delivered.push_back(data);
            self.seen_any = true;
            self.next_expected = self.next_expected.wrapping_add(1);
            proof {
                assert(payload_seq(self.delivered@) =~= d0);
                assert(payload_map(self.pending@) =~= v0.pending);
                lemma_drain_len(v0.pending, wrapping_add(seq, 1));
            }
            while self.pending.contains_key(&self.next_expected)
                invariant
                    self.capacity == v0.capacity,
                    self.seen_any,
                    payload_seq(self.delivered@) + drain(payload_map(self.pending@), self.next_expected).1
                        == d0 + target.1,
                    drain(payload_map(self.pending@), self.next_expected).0 == target.0,
                    drain(payload_map(self.pending@), self.next_expected).2 == target.2,
                    self.pending@.len() + self.delivered@.len() == v0.pending.len() + d0.len(),
                    payload_map(self.pending@).dom().finite(),
                decreases self.pending@.len(),
            {
                let n = self.next_expected;
                let ghost pm = payload_map(self.pending@);
                let ghost ds = payload_seq(self.delivered@);
                assert(pm.contains_key(n));
                let v = self.pending.remove(&n).unwrap();
                self.delivered.push_back(v);
                self.next_expected = n.wrapping_add(1);
                proof {
                    lemma_pending_finite(self.pending);
                    assert(payload_map(self.pending@) =~= pm.remove(n));
                    assert(payload_seq(self.delivered@) =~= ds.push(pm[n]));
                    let rest = drain(pm.remove(n), wrapping_add(n, 1));
                    assert(drain(pm, n).1 == seq![pm[n]] + rest.1);
                    assert(ds.push(pm[n]) + rest.1 =~= ds + (seq![pm[n]] + rest.1));
                }
            }
            proof {
                let pm = payload_map(self.pending@);
                assert(drain(pm, self.next_expected).1 =~= Seq::<Seq<u8>>::empty());
                assert(payload_seq(self.delivered@) =~= d0 + target.1);
                assert(self.pending@.dom() =~= pm.dom());
                assert(self.delivered@.len() == payload_seq(self.delivered@).len());
            }
            return Ok(true);
        }
        let distance = seq - self.next_expected;
        if distance > 32 {
            return Err(Error::BufferFull);
        }
        if self.used() >= self.capacity {
            return Err(Error::BufferFull);
        }
        if !self.pending.contains_key(&seq) {
            proof {
                lemma_pending_finite(self.pending);
            }
            let ghost pm = payload_map(self.pending@);
            self.pending.insert(seq, data);
            proof {
                lemma_pending_finite(self.pending);
                assert(payload_map(self.pending@) =~= pm.insert(seq, data@));
            }
        }
        Ok(false)
    }

    /// Cumulative acknowledgement: the last in-order sequence number, a
    /// bitmap of the 32 sequence numbers after it that are held, and the
    /// credit. `None` before anything arrived in order.
    pub fn ack(&self) -> (r: Option<(u32, u32, u8)>)
        requires
            self.wf(),
        ensures
            !self@.seen_any ==> r is None,
            self@.seen_any ==> (r matches Some((base, bitmap, credit)) && base == wrapping_sub(
                self@.next_expected,
                1,
            ) && bitmap_reports(bitmap, base, self@.pending) && credit == rx_credit(self@)),
    {
        broadcast use vstd::laws_cmp::group_laws_cmp;

        if !self.seen_any {
            return None;
        }
        let base = self.next_expected.wrapping_sub(1);
        let first = base.wrapping_add(1);
        let mut bitmap: u32 = 0;
        let mut j: u32 = 0;
        proof {
            assert forall|b: u32| b < 32 implies !bit_set(bitmap, b) by {
                lemma_set_bit(0, 0, b);
            }
        }
        while j < 32
            invariant
                j <= 32,
                first == wrapping_add(base, 1),
                forall|b: u32| b < j ==> (bit_set(bitmap, b) <==> self@.pending.contains_key(wrapping_add(first, b))),
                forall|b: u32| j <= b < 32 ==> !bit_set(bitmap, b),
            decreases 32 - j,
        {
            let key = first.wrapping_add(j);
            let ghost old_bitmap = bitmap;
            if self.pending.contains_key(&key) {
                bitmap = bitmap | (1u32 << j);
                proof {
                    assert forall|b: u32| b < 32 implies bit_set(bitmap, b) == (if b == j {
                        true
                    } else {
                        bit_set(old_bitmap, b)
                    }) by {
                        lemma_set_bit(old_bitmap, j, b);
                    }
                }
            }
            proof {
                assert(self.pending@.contains_key(key) == self@.pending.contains_key(key));
            }
            j = j + 1;
        }
        Some((base, bitmap, self.credit()))
    }

    /// Takes the oldest readable payload.
    pub fn recv(&mut self) -> (r: Option<Vec<u8>>)
        requires
            old(self).wf(),
        ensures
            final(self).wf(),
            old(self)@.delivered.len() == 0 ==> r is None && final(self)@ == old(self)@,
            old(self)@.delivered.len() > 0 ==> (r matches Some(v) && v@ == old(self)@.delivered[0]
                && final(self)@ == (ReliableRxView { delivered: old(self)@.delivered.drop_first(), ..old(self)@ })),
    {
        let r = self.delivered.pop_front();
        proof {
            if old(self).delivered@.len() > 0 {
                assert(payload_seq(self.delivered@) =~= payload_seq(old(self).delivered@).drop_first());
            }
        }
        r
    }
}


/// A stream as plain values.
pub struct GtsStreamView {
    pub id: u8,
    pub profile: StreamProfile,
    pub state: StreamState,
    pub opened_by_local: bool,
    pub tx: Option<ReliableTxView>,
    pub rx: Option<ReliableRxView>,
    pub unrel_tx_sequence: u32,
    pub unrel_rx_highest: Option<u32>,
    pub unrel_delivered: Seq<Seq<u8>>,
}

/// One GTS stream: a reliable window pair, or unreliable datagram state.
#[derive(Debug, Clone)]
pub struct GtsStream {
    pub id: u8,
    pub profile: StreamProfile,
    pub state: StreamState,
    pub opened_by_local: bool,
    reliable_tx: Option<ReliableTx>,
    reliable_rx: Option<ReliableRx>,
    unrel_tx_sequence: u32,
    unrel_rx_highest: Option<u32>,
    unrel_delivered: VecDeque<Vec<u8>>,
}

impl View for GtsStream {
    type V = GtsStreamView;

    closed spec fn view(&self) -> GtsStreamView {
        GtsStreamView {
            id: self.id,
            profile: self.profile,
            state: self.state,
            opened_by_local: self.opened_by_local,
            tx: match self.reliable_tx {
                Some(tx) => Some(tx@),
                None => None,
            },
            rx: match self.reliable_rx {
                Some(rx) => Some(rx@),
                None => None,
            },
            unrel_tx_sequence: self.unrel_tx_sequence,
            unrel_rx_highest: self.unrel_rx_highest,
            unrel_delivered: payload_seq(self.unrel_delivered@),
        }
    }
}

/// A newly opened stream.
pub open spec fn fresh_stream(
    id: u8,
    profile: StreamProfile,
    opened_by_local: bool,
    local_receive_credit: u8,
    peer_receive_credit: u8,
) -> GtsStreamView {
    GtsStreamView {
        id,
        profile,
        state: StreamState::Open,
        opened_by_local,
        tx: if profile.unreliable {
            None
        } else {
            Some(
                ReliableTxView {
                    next_sequence: 0,
                    peer_credit: peer_receive_credit,
                    outstanding: Seq::empty(),
                    rto_ms: DEFAULT_RTO_MS,
                },
            )
        },
        rx: if profile.unreliable {
            None
        } else {
            Some(
                ReliableRxView {
                    next_expected: 0,
                    pending: Map::empty(),
                    delivered: Seq::empty(),
                    capacity: if local_receive_credit == 0 {
                        1
                    } else {
                        local_receive_credit as usize
                    },
                    seen_any: false,
                },
            )
        },
        unrel_tx_sequence: 0,
        unrel_rx_highest: None,
        unrel_delivered: Seq::empty(),
    }
}

/// `v` with its transmit window holding `credit`.
pub open spec fn with_peer_credit(v: GtsStreamView, credit: u8) -> GtsStreamView {
    GtsStreamView {
        tx: match v.tx {
            Some(tx) => Some(ReliableTxView { peer_credit: credit, ..tx }),
            None => None,
        },
        ..v
    }
}

/// Whether this end may send on the stream.
pub open spec fn local_may_send(v: GtsStreamView) -> bool {
    if v.opened_by_local {
        v.profile.direction.spec_opener_may_send()
    } else {
        v.profile.direction.spec_peer_may_send()
    }
}

/// Whether the other end may send on the stream.
pub open spec fn remote_may_send(v: GtsStreamView) -> bool {
    if v.opened_by_local {
        v.profile.direction.spec_peer_may_send()
    } else {
        v.profile.direction.spec_opener_may_send()
    }
}

/// DATA packets that retransmit `s` on a stream.
pub open spec fn data_packets(tunnel_id: u32, stream_id: u8, s: Seq<(u32, Seq<u8>, bool)>) -> Seq<GtsPacketView> {
    s.map_values(
        |e: (u32, Seq<u8>, bool)|
            GtsPacketView::Data { tunnel_id, stream_id, sequence: e.0, data: e.1, end: e.2 },
    )
}

pub open spec fn packet_views(v: Seq<GtsPacket>) -> Seq<GtsPacketView> {
    v.map_values(|p: GtsPacket| p@)
}

/// `w` and `r` are the stream and result after sending `data` on `v`.
pub open spec fn sent_on_stream(
    v: GtsStreamView,
    w: GtsStreamView,
    tunnel_id: u32,
    data: Seq<u8>,
    end: bool,
    now: u64,
    r: Result<GtsPacket>,
) -> bool {
    if v.state != StreamState::Open {
        r == Err::<GtsPacket, Error>(Error::InvalidState) && w == v
    } else if !local_may_send(v) {
        r == Err::<GtsPacket, Error>(Error::DirectionViolation) && w == v
    } else if v.profile.unreliable {
        if end {
            r == Err::<GtsPacket, Error>(Error::ProfileViolation) && w == v
        } else {
            &&& r matches Ok(p) && p@ == GtsPacketView::Datagram {
                tunnel_id,
                stream_id: v.id,
                sequence: if v.profile.sequenced {
                    Some(v.unrel_tx_sequence)
                } else {
                    None
                },
                data,
            }
            &&& w == (GtsStreamView {
                unrel_tx_sequence: if v.profile.sequenced {
                    wrapping_add(v.unrel_tx_sequence, 1)
                } else {
                    v.unrel_tx_sequence
                },
                ..v
            })
        }
    } else if v.tx.unwrap().peer_credit == 0 {
        r == Err::<GtsPacket, Error>(Error::WouldBlock) && w == v
    } else {
        &&& r matches Ok(p) && p@ == GtsPacketView::Data {
            tunnel_id,
            stream_id: v.id,
            sequence: v.tx.unwrap().next_sequence,
            data,
            end,
        }
        &&& w.tx is Some && tx_queued(v.tx.unwrap(), w.tx.unwrap(), data, end, now)
        &&& w == (GtsStreamView { tx: w.tx, ..v })
    }
}

impl GtsStream {
    /// Reliable streams carry both windows, unreliable streams neither.
    pub closed spec fn wf(&self) -> bool {
        &&& self.profile.unreliable ==> self.reliable_tx is None && self.reliable_rx is None
        &&& !self.profile.unreliable ==> self.reliable_tx is Some && self.reliable_rx is Some
        &&& (self.reliable_tx matches Some(tx) ==> tx.wf())
        &&& (self.reliable_rx matches Some(rx) ==> rx.wf())
    }

    /// An open stream; reliable profiles get a transmit window holding the
    /// peer's credit and a receive window of at least one slot.
    pub fn new(
        id: u8,
        profile: StreamProfile,
        opened_by_local: bool,
        local_receive_credit: u8,
        peer_receive_credit: u8,
    ) -> (r: Result<Self>)
        ensures
            !profile.spec_valid() ==> r == Err::<Self, Error>(Error::ProfileViolation),
            profile.spec_valid() ==> (r matches Ok(s) && s.wf() && s@ == fresh_stream(
                id,
                profile,
                opened_by_local,
                local_receive_credit,
                peer_receive_credit,
            )),
    {
        let profile = match profile.validate() {
            Ok(p) => p,
            Err(e) => return Err(e),
        };
        let reliable_tx = if profile.unreliable {
            None
        } else {
            Some(ReliableTx::new(peer_receive_credit))
        };
        let slots: usize = if local_receive_credit == 0 {
            1
        } else {
            local_receive_credit as usize
        };
        let reliable_rx = if profile.unreliable {
            None
        } else {
            Some(ReliableRx::new(slots))
        };
        let s = GtsStream {
            id,
            profile,
            state: StreamState::Open,
            opened_by_local,
            reliable_tx,
            reliable_rx,
            unrel_tx_sequence: 0,
            unrel_rx_highest: None,
            unrel_delivered: VecDeque::new(),
        };
        assert(s@.unrel_delivered =~= Seq::<Seq<u8>>::empty());
        Ok(s)
    }

    fn local_may_send(&self) -> (r: bool)
        ensures
            r == local_may_send(self@),
    {
        if self.opened_by_local {
            self.profile.direction.opener_may_send()
        } else {
            self.profile.direction.peer_may_send()
        }
    }

    fn remote_may_send(&self) -> (r: bool)
        ensures
            r == remote_may_send(self@),
    {
        if self.opened_by_local {
            self.profile.direction.peer_may_send()
        } else {
            self.profile.direction.opener_may_send()
        }
    }

    /// Builds the packet that carries `data`: a DATA segment queued for
    /// retransmission on a reliable stream, or a DATAGRAM (numbered when the
    /// profile is sequenced) on an unreliable one.
    pub fn send_packet(&mut self, tunnel_id: u32, data: Vec<u8>, end: bool, now: u64) -> (r: Result<GtsPacket>)
        requires
            old(self).wf(),
        ensures
            final(self).wf(),
            sent_on_stream(old(self)@, final(self)@, tunnel_id, data@, end, now, r),
    {
        if self.state != StreamState::Open {
            return Err(Error::InvalidState);
        }
        if !self.local_may_send() {
            return Err(Error::DirectionViolation);
        }
        if self.profile.unreliable {
            if end {
                return Err(Error::ProfileViolation);
            }
            let sequence = if self.profile.sequenced {
                let s = self.unrel_tx_sequence;
                self.unrel_tx_sequence = self.unrel_tx_sequence.wrapping_add(1);
                Some(s)
            } else {
                None
            };
            return Ok(GtsPacket::Datagram { tunnel_id, stream_id: self.id, sequence, data });
        }
        let copy = copy_range(data.as_slice(), 0, data.len());
        assert(copy@ =~= data@);
        let mut tx = self.reliable_tx.take().unwrap();
        let queued = tx.queue(copy, end, now);
        self.reliable_tx = Some(tx);
        match queued {
            Ok(sequence) => Ok(GtsPacket::Data { tunnel_id, stream_id: self.id, sequence, data, end }),
            Err(e) => Err(e),
        }
    }

    /// Takes one packet from the peer. A DATA segment on a reliable stream
    /// goes to the receive window and, once anything arrived in order, is
    /// answered with an ACK; a DATAGRAM on an unreliable stream is queued for
    /// reading unless sequencing marks it stale.
    pub fn receive_packet(&mut self, packet: &GtsPacket) -> (r: Result<Option<GtsPacket>>)
        requires
            old(self).wf(),
        ensures
            final(self).wf(),
            ({
                let v = old(self)@;
                let w = final(self)@;
                if !remote_may_send(v) {
                    r == Err::<Option<GtsPacket>, Error>(Error::DirectionViolation) && w == v
                } else {
                    match packet@ {
                        GtsPacketView::Data { tunnel_id, stream_id, sequence, data, .. } if !v.profile.unreliable => {
                            if stream_id != v.id {
                                r == Err::<Option<GtsPacket>, Error>(Error::UnknownStream) && w == v
                            } else {
                                let (rx, res) = rx_receive(v.rx.unwrap(), sequence, data);
                                &&& w == (GtsStreamView { rx: Some(rx), ..v })
                                &&& match res {
                                    Err(e) => r == Err::<Option<GtsPacket>, Error>(e),
                                    Ok(_) => if rx.seen_any {
                                        r matches Ok(Some(ack)) && ack@ matches GtsPacketView::Ack {
                                            tunnel_id: t,
                                            stream_id: s,
                                            ack_base,
                                            receive_bitmap,
                                            receive_credit,
                                        } && t == tunnel_id && s == stream_id && ack_base == wrapping_sub(
                                            rx.next_expected,
                                            1,
                                        ) && bitmap_reports(receive_bitmap, ack_base, rx.pending)
                                            && receive_credit == rx_credit(rx)
                                    } else {
                                        r == Ok::<Option<GtsPacket>, Error>(None)
                                    },
                                }
                            }
                        },
                        GtsPacketView::Datagram { stream_id, sequence, data, .. } if v.profile.unreliable => {
                            if stream_id != v.id {
                                r == Err::<Option<GtsPacket>, Error>(Error::UnknownStream) && w == v
                            } else if v.profile.sequenced && sequence is None {
                                r == Err::<Option<GtsPacket>, Error>(Error::ProfileViolation) && w == v
                            } else if v.profile.sequenced && v.unrel_rx_highest is Some
                                && sequence.unwrap() <= v.unrel_rx_highest.unwrap() {
                                r == Ok::<Option<GtsPacket>, Error>(None) && w == v
                            } else {
                                &&& r == Ok::<Option<GtsPacket>, Error>(None)
                                &&& w == (GtsStreamView {
                                    unrel_rx_highest: if v.profile.sequenced {
                                        sequence
                                    } else {
                                        v.unrel_rx_highest
                                    },
                                    unrel_delivered: v.unrel_delivered.push(data),
                                    ..v
                                })
                            }
                        },
                        _ => r == Err::<Option<GtsPacket>, Error>(Error::ProfileViolation) && w == v,
                    }
                }
            }),
    {
        if !self.remote_may_send() {
            return Err(Error::DirectionViolation);
        }
        match packet {
            GtsPacket::Data { tunnel_id, stream_id, sequence, data, .. } => {
                if self.profile.unreliable {
                    return Err(Error::ProfileViolation);
                }
                if *stream_id != self.id {
                    return Err(Error::UnknownStream);
                }
                let copy = copy_range(data.as_slice(), 0, data.len());
                assert(copy@ =~= data@);
                let mut rx = self.reliable_rx.take().unwrap();
                let received = rx.receive(*sequence, copy);
                let ack = rx.ack();
                self.reliable_rx = Some(rx);
                match received {
                    Err(e) => Err(e),
                    Ok(_) => match ack {
                        Some((ack_base, receive_bitmap, receive_credit)) => Ok(
                            Some(
                                GtsPacket::Ack {
                                    tunnel_id: *tunnel_id,
                                    stream_id: *stream_id,
                                    ack_base,
                                    receive_bitmap,
                                    receive_credit,
                                },
                            ),
                        ),
                        None => Ok(None),
                    },
                }
            },
            GtsPacket::Datagram { stream_id, sequence, data, .. } => {
                if !self.profile.unreliable {
                    return Err(Error::ProfileViolation);
                }
                if *stream_id != self.id {
                    return Err(Error::UnknownStream);
                }
                if self.profile.sequenced {
                    let s = match sequence {
                        Some(s) => *s,
                        None => return Err(Error::ProfileViolation),
                    };
                    if let Some(h) = self.unrel_rx_highest {
                        if s <= h {
                            return Ok(None);
                        }
                    }
                    self.unrel_rx_highest = Some(s);
                }
                let copy = copy_range(data.as_slice(), 0, data.len());
                assert(copy@ =~= data@);
                let ghost before = self.unrel_delivered@;
                self.unrel_delivered.push_back(copy);
                assert(payload_seq(self.unrel_delivered@) =~= payload_seq(before).push(data@));
                Ok(None)
            },
            _ => Err(Error::ProfileViolation),
        }
    }

    /// Applies a peer acknowledgement to the transmit window.
    pub fn on_ack(&mut self, base: u32, bitmap: u32, credit: u8) -> (r: Result<()>)
        requires
            old(self).wf(),
        ensures
            final(self).wf(),
            old(self)@.profile.unreliable ==> r == Err::<(), Error>(Error::ProfileViolation) && final(self)@
                == old(self)@,
            !old(self)@.profile.unreliable ==> r == Ok::<(), Error>(()) && final(self)@ == (GtsStreamView {
                tx: Some(
                    ReliableTxView {
                        peer_credit: credit,
                        outstanding: old(self)@.tx.unwrap().outstanding.filter(unacked_by(base, bitmap)),
                        ..old(self)@.tx.unwrap()
                    },
                ),
                ..old(self)@
            }),
    {
        match self.reliable_tx.take() {
            Some(mut tx) => {
                tx.on_ack(base, bitmap, credit);
                self.reliable_tx = Some(tx);
                Ok(())
            },
            None => Err(Error::ProfileViolation),
        }
    }

    /// Takes the oldest payload that is ready for the application.
    pub fn recv(&mut self) -> (r: Option<Vec<u8>>)
        requires
            old(self).wf(),
        ensures
            final(self).wf(),
            ({
                let v = old(self)@;
                let q = if v.profile.unreliable {
                    v.unrel_delivered
                } else {
                    v.rx.unwrap().delivered
                };
                &&& q.len() == 0 ==> r is None && final(self)@ == v
                &&& q.len() > 0 ==> (r matches Some(d) && d@ == q[0] && final(self)@ == (if v.profile.unreliable {
                    GtsStreamView { unrel_delivered: q.drop_first(), ..v }
                } else {
                    GtsStreamView {
                        rx: Some(ReliableRxView { delivered: q.drop_first(), ..v.rx.unwrap() }),
                        ..v
                    }
                }))
            }),
    {
        if self.profile.unreliable {
            let r = self.unrel_delivered.pop_front();
            proof {
                if old(self).unrel_delivered@.len() > 0 {
                    assert(payload_seq(self.unrel_delivered@) =~= payload_seq(
                        old(self).unrel_delivered@,
                    ).drop_first());
                }
            }
            r
        } else {
            let mut rx = self.reliable_rx.take().unwrap();
            let r = rx.recv();
            self.reliable_rx = Some(rx);
            r
        }
    }

    /// DATA packets for every segment whose retransmission timer expired.
    pub fn retransmit_due(&mut self, tunnel_id: u32, now: u64) -> (r: Vec<GtsPacket>)
        requires
            old(self).wf(),
        ensures
            final(self).wf(),
            old(self)@.profile.unreliable ==> r@.len() == 0 && final(self)@ == old(self)@,
            !old(self)@.profile.unreliable ==> ({
                let tx = old(self)@.tx.unwrap();
                &&& packet_views(r@) == data_packets(
                    tunnel_id,
                    old(self)@.id,
                    resend_of(tx.outstanding.filter(due_at(now, tx.rto_ms))),
                )
                &&& final(self)@ == (GtsStreamView {
                    tx: Some(
                        ReliableTxView { outstanding: tx.outstanding.map_values(restarted(now, tx.rto_ms)), ..tx },
                    ),
                    ..old(self)@
                })
            }),
    {
        let mut tx = match self.reliable_tx.take() {
            Some(tx) => tx,
            None => return Vec::new(),
        };
        let due = tx.due(now);
        self.reliable_tx = Some(tx);
        let ghost expected = data_packets(tunnel_id, self.id, resend_views(due@));
        let mut out: Vec<GtsPacket> = Vec::new();
        let mut i: usize = 0;
        while i < due.len()
            invariant
                i <= due@.len(),
                expected == data_packets(tunnel_id, self.id, resend_views(due@)),
                packet_views(out@) == expected.take(i as int),
            decreases due@.len() - i,
        {
            let sequence = due[i].0;
            let data = copy_range(due[i].1.as_slice(), 0, due[i].1.len());
            let end = due[i].2;
            let ghost before = out@;
            out.push(GtsPacket::Data { tunnel_id, stream_id: self.id, sequence, data, end });
            proof {
                assert(due@[i as int].1@.subrange(0, due@[i as int].1@.len() as int) =~= due@[i as int].1@);
                assert(resend_views(due@)[i as int] == (due@[i as int].0, due@[i as int].1@, due@[i as int].2));
                assert(packet_views(out@) =~= packet_views(before).push(expected[i as int]));
                assert(expected.take(i + 1) =~= expected.take(i as int).push(expected[i as int]));
            }
            i = i + 1;
        }
        assert(expected.take(due@.len() as int) =~= expected);
        out
    }

    /// Credit the peer last advertised, on a reliable stream.
    pub fn peer_credit(&self) -> (r: Option<u8>)
        requires
            self.wf(),
        ensures
            self@.profile.unreliable ==> r is None,
            !self@.profile.unreliable ==> r == Some(self@.tx.unwrap().peer_credit),
    {
        match &self.reliable_tx {
            Some(tx) => Some(tx.peer_credit()),
            None => None,
        }
    }

    pub(crate) fn set_peer_credit(&mut self, credit: u8)
        requires
            old(self).wf(),
        ensures
            final(self).wf(),
            final(self)@ == with_peer_credit(old(self)@, credit),
    {
        if let Some(mut tx) = self.reliable_tx.take() {
            tx.set_peer_credit(credit);
            self.reliable_tx = Some(tx);
        }
    }

    /// Completes an open handshake: takes the peer's credit and opens the stream.
    pub fn apply_open_ack(&mut self, peer_credit: u8) -> (r: Result<()>)
        requires
            old(self).wf(),
        ensures
            final(self).wf(),
            old(self)@.state != StreamState::Opening ==> r == Err::<(), Error>(Error::InvalidState)
                && final(self)@ == old(self)@,
            old(self)@.state == StreamState::Opening ==> r == Ok::<(), Error>(()) && final(self)@ == (
            GtsStreamView { state: StreamState::Open, ..with_peer_credit(old(self)@, peer_credit) }),
    {
        if self.state != StreamState::Opening {
            return Err(Error::InvalidState);
        }
        self.set_peer_credit(peer_credit);
        self.state = StreamState::Open;
        Ok(())
    }

    /// Marks the stream as waiting for the peer's open acknowledgement.
    pub fn mark_opening(&mut self)
        requires
            old(self).wf(),
        ensures
            final(self).wf(),
            final(self)@ == (GtsStreamView { state: StreamState::Opening, ..old(self)@ }),
    {
        self.state = StreamState::Opening;
    }
}


/// Every stream of the map is well formed and filed under its own id.
pub open spec fn streams_wf(m: Map<u8, GtsStream>) -> bool {
    forall|k: u8| #[trigger] m.contains_key(k) ==> m[k].wf() && m[k]@.id == k
}

/// `std::collections::BTreeMap::get_mut`: a mutable reference to the value
/// filed under `id`, if any; writes through it replace that value and leave
/// the rest of the map as it was.
#[verifier::external_body]
fn stream_entry(streams: &mut BTreeMap<u8, GtsStream>, id: u8) -> (r: Option<&mut GtsStream>)
    ensures
        old(streams)@.contains_key(id) ==> r.is_some() && *r.unwrap() == old(streams)@[id]
            && final(streams)@ == old(streams)@.insert(id, *final(r.unwrap())),
        !old(streams)@.contains_key(id) ==> r.is_none() && final(streams)@ == old(streams)@,
{
    streams.get_mut(&id)
}

/// A GTS tunnel: the identifiers of both ends and its streams by id.
#[derive(Debug, Clone)]
pub struct GtsTunnel {
    pub role: TunnelRole,
    pub state: TunnelState,
    pub local_receive_id: u32,
    pub remote_receive_id: Option<u32>,
    pub local_reset_id: u32,
    pub remote_reset_id: Option<u32>,
    pub css: ServiceSelector,
    pub streams: BTreeMap<u8, GtsStream>,
    next_stream_id: u8,
}

/// A tunnel as plain values.
pub struct GtsTunnelView {
    pub role: TunnelRole,
    pub state: TunnelState,
    pub local_receive_id: u32,
    pub remote_receive_id: Option<u32>,
    pub local_reset_id: u32,
    pub remote_reset_id: Option<u32>,
    pub css: ServiceSelector,
    pub streams: Map<u8, GtsStream>,
    /// Next identifier this end hands out to a stream it opens.
    pub next_stream_id: u8,
}

impl View for GtsTunnel {
    type V = GtsTunnelView;

    closed spec fn view(&self) -> GtsTunnelView {
        GtsTunnelView {
            role: self.role,
            state: self.state,
            local_receive_id: self.local_receive_id,
            remote_receive_id: self.remote_receive_id,
            local_reset_id: self.local_reset_id,
            remote_reset_id: self.remote_reset_id,
            css: self.css,
            streams: self.streams@,
            next_stream_id: self.next_stream_id,
        }
    }
}

impl GtsTunnel {
    /// A tunnel opened by this end, waiting for the peer's acceptance;
    /// stream 0 exists from the start and this end allocates even ids.
    pub fn initiator(
        local_receive_id: u32,
        local_reset_id: u32,
        css: ServiceSelector,
        stream0_profile: StreamProfile,
        local_credit: u8,
    ) -> (r: Result<Self>)
        ensures
            !stream0_profile.spec_valid() ==> r == Err::<Self, Error>(Error::ProfileViolation),
            stream0_profile.spec_valid() ==> (r matches Ok(t) && t@.role == TunnelRole::Initiator && t@.state
                == TunnelState::Connecting && t@.local_receive_id == local_receive_id && t@.remote_receive_id
                is None && t@.local_reset_id == local_reset_id && t@.remote_reset_id is None && t@.css == css
                && t@.streams.dom() == set![0u8] && streams_wf(t@.streams) && t@.streams[0]@ == fresh_stream(
                0,
                stream0_profile,
                true,
                local_credit,
                0,
            ) && t@.next_stream_id == 2),
    {
        broadcast use vstd::laws_cmp::group_laws_cmp;

        let stream0 = match GtsStream::new(0, stream0_profile, true, local_credit, 0) {
            Ok(s) => s,
            Err(e) => return Err(e),
        };
        let mut streams = BTreeMap::new();
        streams.insert(0, stream0);
        assert(streams@.dom() =~= set![0u8]);
        Ok(
            GtsTunnel {
                role: TunnelRole::Initiator,
                state: TunnelState::Connecting,
                local_receive_id,
                remote_receive_id: None,
                local_reset_id,
                remote_reset_id: None,
                css,
                streams,
                next_stream_id: 2,
            },
        )
    }

    /// A tunnel accepted from a peer, established at once; this end
    /// allocates odd stream ids.
    pub fn responder(
        local_receive_id: u32,
        local_reset_id: u32,
        remote_receive_id: u32,
        remote_reset_id: u32,
        css: ServiceSelector,
        stream0_profile: StreamProfile,
        local_credit: u8,
        peer_credit: u8,
    ) -> (r: Result<Self>)
        ensures
            !stream0_profile.spec_valid() ==> r == Err::<Self, Error>(Error::ProfileViolation),
            stream0_profile.spec_valid() ==> (r matches Ok(t) && t@.role == TunnelRole::Responder && t@.state
                == TunnelState::Established && t@.local_receive_id == local_receive_id && t@.remote_receive_id
                == Some(remote_receive_id) && t@.local_reset_id == local_reset_id && t@.remote_reset_id == Some(
                remote_reset_id,
            ) && t@.css == css && t@.streams.dom() == set![0u8] && streams_wf(t@.streams) && t@.streams[0]@
                == fresh_stream(0, stream0_profile, false, local_credit, peer_credit) && t@.next_stream_id == 1),
    {
        broadcast use vstd::laws_cmp::group_laws_cmp;

        let stream0 = match GtsStream::new(0, stream0_profile, false, local_credit, peer_credit) {
            Ok(s) => s,
            Err(e) => return Err(e),
        };
        let mut streams = BTreeMap::new();
        streams.insert(0, stream0);
        assert(streams@.dom() =~= set![0u8]);
        Ok(
            GtsTunnel {
                role: TunnelRole::Responder,
                state: TunnelState::Established,
                local_receive_id,
                remote_receive_id: Some(remote_receive_id),
                local_reset_id,
                remote_reset_id: Some(remote_reset_id),
                css,
                streams,
                next_stream_id: 1,
            },
        )
    }

    /// Records the peer's acceptance of a tunnel this end opened.
    pub fn establish_initiator(&mut self, remote_receive_id: u32, remote_reset_id: u32, peer_credit: u8) -> (r:
        Result<()>)
        requires
            streams_wf(old(self)@.streams),
            old(self)@.state == TunnelState::Connecting ==> old(self)@.streams.contains_key(0),
        ensures
            streams_wf(final(self)@.streams),
            final(self)@.next_stream_id == old(self)@.next_stream_id,
            old(self)@.state != TunnelState::Connecting ==> r == Err::<(), Error>(Error::InvalidState)
                && final(self)@ == old(self)@,
            old(self)@.state == TunnelState::Connecting ==> ({
                &&& r == Ok::<(), Error>(())
                &&& final(self)@.state == TunnelState::Established
                &&& final(self)@.remote_receive_id == Some(remote_receive_id)
                &&& final(self)@.remote_reset_id == Some(remote_reset_id)
                &&& final(self)@.role == old(self)@.role
                &&& final(self)@.local_receive_id == old(self)@.local_receive_id
                &&& final(self)@.local_reset_id == old(self)@.local_reset_id
                &&& final(self)@.css == old(self)@.css
                &&& final(self)@.streams.dom() == old(self)@.streams.dom()
                &&& final(self)@.streams[0]@ == with_peer_credit(old(self)@.streams[0]@, peer_credit)
                &&& forall|k: u8| k != 0 && old(self)@.streams.contains_key(k) ==> #[trigger] final(self)@.streams[k]
                    == old(self)@.streams[k]
            }),
    {
        if self.state != TunnelState::Connecting {
            return Err(Error::InvalidState);
        }
        self.remote_receive_id = Some(remote_receive_id);
        self.remote_reset_id = Some(remote_reset_id);
        self.state = TunnelState::Established;
        let ghost before = self.streams@;
        match stream_entry(&mut self.streams, 0) {
            Some(s) => s.set_peer_credit(peer_credit),
            None => {},
        }
        assert(self.streams@.dom() =~= before.dom());
        Ok(())
    }

    /// Hands out the next stream id of this end's parity.
    pub fn alloc_stream_id(&mut self) -> (r: Result<u8>)
        ensures
            old(self)@.state != TunnelState::Established ==> r == Err::<u8, Error>(Error::InvalidState)
                && final(self)@ == old(self)@,
            old(self)@.state == TunnelState::Established && old(self)@.next_stream_id > 253 ==> r == Err::<
                u8,
                Error,
            >(Error::BufferFull) && final(self)@ == old(self)@,
            old(self)@.state == TunnelState::Established && old(self)@.next_stream_id <= 253 ==> r == Ok::<
                u8,
                Error,
            >(old(self)@.next_stream_id) && final(self)@.next_stream_id == old(self)@.next_stream_id + 2
                && final(self)@ == (GtsTunnelView { next_stream_id: final(self)@.next_stream_id, ..old(self)@ }),
    {
        if self.state != TunnelState::Established {
            return Err(Error::InvalidState);
        }
        let id = self.next_stream_id;
        if id > 253 {
            return Err(Error::BufferFull);
        }
        self.next_stream_id = id + 2;
        Ok(id)
    }

    /// Adds a stream under a fresh id.
    pub fn add_stream(
        &mut self,
        id: u8,
        profile: StreamProfile,
        opened_by_local: bool,
        local_credit: u8,
        peer_credit: u8,
    ) -> (r: Result<()>)
        requires
            streams_wf(old(self)@.streams),
        ensures
            streams_wf(final(self)@.streams),
            old(self)@.streams.contains_key(id) ==> r == Err::<(), Error>(Error::InvalidState) && final(self)@
                == old(self)@,
            !old(self)@.streams.contains_key(id) && !profile.spec_valid() ==> r == Err::<(), Error>(
                Error::ProfileViolation,
            ) && final(self)@ == old(self)@,
            !old(self)@.streams.contains_key(id) && profile.spec_valid() ==> ({
                &&& r == Ok::<(), Error>(())
                &&& final(self)@.streams.dom() == old(self)@.streams.dom().insert(id)
                &&& final(self)@.streams[id]@ == fresh_stream(id, profile, opened_by_local, local_credit, peer_credit)
                &&& forall|k: u8| k != id && old(self)@.streams.contains_key(k) ==> #[trigger] final(self)@.streams[k]
                    == old(self)@.streams[k]
                &&& final(self)@ == (GtsTunnelView { streams: final(self)@.streams, ..old(self)@ })
            }),
    {
        broadcast use vstd::laws_cmp::group_laws_cmp;

        if self.streams.contains_key(&id) {
            return Err(Error::InvalidState);
        }
        let stream = match GtsStream::new(id, profile, opened_by_local, local_credit, peer_credit) {
            Ok(s) => s,
            Err(e) => return Err(e),
        };
        self.streams.insert(id, stream);
        Ok(())
    }

    /// The stream filed under `id`, for changing it in place.
    pub fn stream_mut(&mut self, id: u8) -> (r: Result<&mut GtsStream>)
        ensures
            old(self)@.streams.contains_key(id) ==> r.is_ok() && *r.unwrap() == old(self)@.streams[id]
                && final(self)@.streams == old(self)@.streams.insert(id, *final(r.unwrap()))
                && final(self)@ == (GtsTunnelView { streams: final(self)@.streams, ..old(self)@ }),
            !old(self)@.streams.contains_key(id) ==> r == Err::<&mut GtsStream, Error>(Error::UnknownStream)
                && final(self)@ == old(self)@,
    {
        match stream_entry(&mut self.streams, id) {
            Some(s) => Ok(s),
            None => Err(Error::UnknownStream),
        }
    }

    /// The peer's receive tunnel id, once known.
    pub fn remote_id(&self) -> (r: Result<u32>)
        ensures
            self@.remote_receive_id matches Some(x) ==> r == Ok::<u32, Error>(x),
            self@.remote_receive_id is None ==> r == Err::<u32, Error>(Error::InvalidState),
    {
        match self.remote_receive_id {
            Some(x) => Ok(x),
            None => Err(Error::InvalidState),
        }
    }
}

} // verus!

verus! {

/// The sequence number `i` places after `n`, wrapping at 2^32.
pub open spec fn seq_plus(n: u32, i: int) -> u32 {
    ((n + i) % 0x1_0000_0000) as u32
}

proof fn lemma_seq_plus_step(n: u32, i: int)
    requires
        i >= 1,
    ensures
        seq_plus(wrapping_add(n, 1), i - 1) == seq_plus(n, i),
{
    let a: int = n as int;
    if a + 1 > u32::MAX {
        assert(((0 + i - 1) % 0x1_0000_0000) == ((a + i) % 0x1_0000_0000)) by (nonlinear_arith)
            requires
                a == 0xffff_ffff,
                i >= 1,
        ;
    } else {
        assert(wrapping_add(n, 1) == a + 1);
    }
}

/// Releasing held segments from `n` on: every consecutive held sequence
/// number `n, n + 1, ...` is taken out in order, none is left behind (the
/// next expected number is not held), and nothing else is taken or changed.
pub proof fn law_drain_releases_the_run(m: Map<u32, Seq<u8>>, n: u32)
    requires
        m.dom().finite(),
    ensures
        ({
            let (rest, out, next) = drain(m, n);
            &&& !rest.contains_key(next)
            &&& next == seq_plus(n, out.len() as int)
            &&& forall|i: int|
                0 <= i < out.len() ==> m.contains_key(#[trigger] seq_plus(n, i)) && out[i] == m[seq_plus(n, i)]
                    && !rest.contains_key(seq_plus(n, i))
            &&& forall|k: u32| #[trigger] rest.contains_key(k) ==> m.contains_key(k) && rest[k] == m[k]
            &&& rest.len() + out.len() == m.len()
        }),
    decreases m.len(),
{
    lemma_drain_len(m, n);
    if m.contains_key(n) {
        let m1 = m.remove(n);
        law_drain_releases_the_run(m1, wrapping_add(n, 1));
        let (rest, out, next) = drain(m, n);
        let r = drain(m1, wrapping_add(n, 1));
        assert(out == seq![m[n]] + r.1);
        lemma_seq_plus_step(n, r.1.len() as int + 1);
        assert(seq_plus(n, 0) == n);
        assert forall|i: int| 0 <= i < out.len() implies m.contains_key(#[trigger] seq_plus(n, i)) && out[i]
            == m[seq_plus(n, i)] && !rest.contains_key(seq_plus(n, i)) by {
            if i > 0 {
                lemma_seq_plus_step(n, i);
                assert(out[i] == r.1[i - 1]);
                assert(m1.contains_key(seq_plus(wrapping_add(n, 1), i - 1)));
            }
        }
    }
}

/// A segment arriving in order is delivered together with every held
/// segment that follows it without a gap, in sequence order; afterwards the
/// next expected segment is not among the held ones.
pub proof fn law_in_order_segment_releases_successors(v: ReliableRxView, data: Seq<u8>)
    requires
        v.pending.dom().finite(),
        rx_used(v) < v.capacity,
    ensures
        ({
            let (w, r) = rx_receive(v, v.next_expected, data);
            let k = (w.delivered.len() - v.delivered.len() - 1) as int;
            &&& r == Ok::<bool, Error>(true)
            &&& !w.pending.contains_key(w.next_expected)
            &&& w.next_expected == seq_plus(v.next_expected, k + 1)
            &&& w.delivered.len() >= v.delivered.len() + 1
            &&& w.delivered.subrange(0, v.delivered.len() as int) == v.delivered
            &&& w.delivered[v.delivered.len() as int] == data
            &&& forall|i: int|
                0 <= i < k ==> v.pending.contains_key(#[trigger] seq_plus(v.next_expected, i + 1))
                    && w.delivered[v.delivered.len() + 1 + i] == v.pending[seq_plus(v.next_expected, i + 1)]
        }),
{
    let n = v.next_expected;
    law_drain_releases_the_run(v.pending, wrapping_add(n, 1));
    let (w, r) = rx_receive(v, n, data);
    let d = drain(v.pending, wrapping_add(n, 1));
    assert(w.delivered == v.delivered.push(data) + d.1);
    assert(w.delivered.subrange(0, v.delivered.len() as int) =~= v.delivered);
    lemma_seq_plus_step(n, d.1.len() as int + 1);
    assert forall|i: int| 0 <= i < d.1.len() implies v.pending.contains_key(
        #[trigger] seq_plus(n, i + 1),
    ) && w.delivered[v.delivered.len() + 1 + i] == v.pending[seq_plus(n, i + 1)] by {
        lemma_seq_plus_step(n, i + 1);
        assert(d.1[i] == v.pending[seq_plus(wrapping_add(n, 1), i)]);
    }
}

} // verus!

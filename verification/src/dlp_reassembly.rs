//! Reassembly of a GDP packet from the raw flits of one data channel.
use vstd::prelude::*;

use crate::error::{Error, Result};
use crate::link::{flit_word, flits_for, frame_total_bytes, spec_receive, Flit, LinkTraffic, RxModel, RxSegView, Vcid};
use crate::wire::bytes::{be32, u32_be};
use crate::wire::gdp::{
    clear_low16, law_packet_roundtrip, lemma_header_bytes_len, spec_header_bytes, spec_header_decode,
    spec_packet_encode, GdpPacketView, GdpType,
};

verus! {

/// The raw flits of a frame of `bytes` on channel `vcid`: four bytes each,
/// the last padded with zeros.
pub open spec fn frame_flits(bytes: Seq<u8>, vcid: Vcid) -> Seq<Flit> {
    Seq::new(flits_for(bytes.len()), |j: int| Flit { vcid, data: flit_word(bytes, j) })
}

/// The bytes of the first `k` flits of `bytes`, padding included.
pub open spec fn flit_bytes(bytes: Seq<u8>, k: nat) -> Seq<u8>
    decreases k,
{
    if k == 0 {
        Seq::empty()
    } else {
        flit_bytes(bytes, (k - 1) as nat) + u32_be(flit_word(bytes, k - 1))
    }
}

proof fn lemma_word_bytes(a: u8, b: u8, c: u8, d: u8)
    ensures
        u32_be((a as int * 16777216 + b as int * 65536 + c as int * 256 + d as int) as u32) == seq![a, b, c, d],
{
    let w = (a as int * 16777216 + b as int * 65536 + c as int * 256 + d as int) as u32;
    let (a32, b32, c32, d32) = (a as u32, b as u32, c as u32, d as u32);
    assert(w == a32 * 16777216 + b32 * 65536 + c32 * 256 + d32);
    assert(a32 < 256 && b32 < 256 && c32 < 256 && d32 < 256 ==> ((a32 * 16777216 + b32 * 65536 + c32 * 256
        + d32) / 16777216) as u8 == a32 as u8 && (((a32 * 16777216 + b32 * 65536 + c32 * 256 + d32) / 65536)
        % 256) as u8 == b32 as u8 && (((a32 * 16777216 + b32 * 65536 + c32 * 256 + d32) / 256) % 256) as u8
        == c32 as u8 && ((a32 * 16777216 + b32 * 65536 + c32 * 256 + d32) % 256) as u8 == d32 as u8)
        by (bit_vector);
    assert(u32_be(w) =~= seq![a, b, c, d]);
}

/// The flit bytes are the frame's bytes, then zeros.
proof fn lemma_flit_bytes(bytes: Seq<u8>, k: nat)
    ensures
        flit_bytes(bytes, k).len() == 4 * k,
        forall|i: int|
            0 <= i < 4 * k ==> #[trigger] flit_bytes(bytes, k)[i] == if i < bytes.len() {
                bytes[i]
            } else {
                0u8
            },
    decreases k,
{
    if k > 0 {
        let j = k - 1;
        lemma_flit_bytes(bytes, j as nat);
        let pb = |t: int| if 0 <= t < bytes.len() { bytes[t] } else { 0u8 };
        lemma_word_bytes(pb(4 * j), pb(4 * j + 1), pb(4 * j + 2), pb(4 * j + 3));
        assert(flit_word(bytes, j) == (pb(4 * j) as int * 16777216 + pb(4 * j + 1) as int * 65536 + pb(4 * j
            + 2) as int * 256 + pb(4 * j + 3) as int) as u32);
    }
}

/// Packets whose encoding decodes back to them.
pub open spec fn reassemblable(p: GdpPacketView, cfg: crate::wire::gdp::GdpWireConfig, local_prefix: u64) -> bool {
    &&& spec_packet_encode(p, cfg) is Ok
    &&& GdpType::spec_from_wire(p.header.packet_type.spec_to_wire()) == p.header.packet_type
    &&& (p.header.addresses is Local ==> p.header.addresses->prefix == clear_low16(local_prefix))
}

proof fn lemma_word_shifts(w: u32)
    ensures
        (w >> 22u32) & 0xfu32 == (w / 0x40_0000) % 16,
        (((w >> 21u32) & 1u32) != 0) == ((w / 0x20_0000) % 2 == 1),
{
    assert((w >> 22u32) & 0xfu32 == (w / 0x40_0000) % 16) by (bit_vector);
    assert((((w >> 21u32) & 1u32) != 0) == ((w / 0x20_0000) % 2 == 1)) by (bit_vector);
}

/// The first flit of an encoded packet announces the packet's length.
proof fn lemma_first_flit_total(p: GdpPacketView, cfg: crate::wire::gdp::GdpWireConfig, local_prefix: u64)
    requires
        reassemblable(p, cfg, local_prefix),
    ensures
        spec_packet_encode(p, cfg)->Ok_0.len() >= 8,
        frame_total_bytes(flit_word(spec_packet_encode(p, cfg)->Ok_0, 0), cfg) == spec_packet_encode(p, cfg)->Ok_0.len(),
{
    let b = spec_packet_encode(p, cfg)->Ok_0;
    let h = p.header;
    crate::wire::gdp::law_header_roundtrip(h, cfg, local_prefix, p.payload);
    lemma_header_bytes_len(h, cfg);
    assert(b == spec_header_bytes(h, cfg) + p.payload);
    let w = flit_word(b, 0);
    assert(w == be32(b, 0) as u32);
    lemma_word_shifts(w);
    reveal(spec_header_decode);
}

/// What receiving the flits `fl` in order does to the receive side, and
/// what each yields.
pub open spec fn receive_run(m: RxModel, fl: Seq<Flit>) -> (RxModel, Seq<Result<Option<GdpPacketView>>>)
    decreases fl.len(),
{
    if fl.len() == 0 {
        (m, Seq::empty())
    } else {
        let before = receive_run(m, fl.drop_last());
        let step = spec_receive(before.0, fl.last());
        (step.0, before.1.push(step.1))
    }
}

/// The receive side after the first `k` flits of `bytes` arrived on data channel `vc`.
pub open spec fn partly_received(m: RxModel, vc: int, bytes: Seq<u8>, k: nat) -> RxModel {
    if k == 0 {
        m
    } else {
        RxModel {
            rx: m.rx.update(
                vc,
                Some(
                    RxSegView {
                        bytes: flit_bytes(bytes, k),
                        expected_bytes: bytes.len(),
                        expected_flits: flits_for(bytes.len()),
                        received_flits: k,
                        traffic: LinkTraffic::Data,
                    },
                ),
            ),
            data_credit_outstanding: (m.data_credit_outstanding - k) as u32,
            data_rx_in_use: (m.data_rx_in_use + k) as u32,
            ..m
        }
    }
}

/// A receive side ready to take packet `p` on data channel `vcid`.
pub open spec fn ready_for_packet(m: RxModel, vcid: Vcid, p: GdpPacketView) -> bool {
    let vc = vcid.spec_get() as int;
    let n = flits_for(spec_packet_encode(p, m.cfg)->Ok_0.len());
    &&& reassemblable(p, m.cfg, m.local_prefix)
    &&& m.link_up
    &&& 1 <= vc < m.vc_count
    &&& vc < m.rx.len() && vc < m.desynchronized.len()
    &&& !m.desynchronized[vc]
    &&& m.rx[vc] is None
    &&& m.data_credit_outstanding >= n
    &&& m.data_rx_in_use + n <= m.rx_buffer_flits
}

proof fn lemma_receive_step(m: RxModel, vcid: Vcid, p: GdpPacketView, k: nat)
    requires
        ready_for_packet(m, vcid, p),
        k + 1 < flits_for(spec_packet_encode(p, m.cfg)->Ok_0.len()),
    ensures
        ({
            let b = spec_packet_encode(p, m.cfg)->Ok_0;
            let vc = vcid.spec_get() as int;
            spec_receive(partly_received(m, vc, b, k), frame_flits(b, vcid)[k as int]) == (
                partly_received(m, vc, b, k + 1),
                Ok::<Option<GdpPacketView>, Error>(None),
            )
        }),
{
    let b = spec_packet_encode(p, m.cfg)->Ok_0;
    let vc = vcid.spec_get() as int;
    lemma_first_flit_total(p, m.cfg, m.local_prefix);
    let w = flit_word(b, k as int);
    assert((((w >> 22u32) & 0xfu32) as u8) < 16u8) by (bit_vector);
    let r = spec_receive(partly_received(m, vc, b, k), frame_flits(b, vcid)[k as int]);
    assert(r.0.rx =~= partly_received(m, vc, b, k + 1).rx);
}

proof fn lemma_receive_last(m: RxModel, vcid: Vcid, p: GdpPacketView)
    requires
        ready_for_packet(m, vcid, p),
    ensures
        ({
            let b = spec_packet_encode(p, m.cfg)->Ok_0;
            let n = flits_for(b.len());
            let vc = vcid.spec_get() as int;
            &&& n >= 1
            &&& spec_receive(partly_received(m, vc, b, (n - 1) as nat), frame_flits(b, vcid)[n - 1]) == (
                RxModel { data_credit_outstanding: (m.data_credit_outstanding - n) as u32, ..m },
                Ok::<Option<GdpPacketView>, Error>(Some(p)),
            )
        }),
{
    let b = spec_packet_encode(p, m.cfg)->Ok_0;
    let n = flits_for(b.len());
    let vc = vcid.spec_get() as int;
    lemma_first_flit_total(p, m.cfg, m.local_prefix);
    lemma_flit_bytes(b, n);
    law_packet_roundtrip(p, m.cfg, m.local_prefix);
    assert(flit_bytes(b, n).subrange(0, b.len() as int) =~= b);
    let w = flit_word(b, n - 1);
    assert((((w >> 22u32) & 0xfu32) as u8) < 16u8) by (bit_vector);
    let r = spec_receive(partly_received(m, vc, b, (n - 1) as nat), frame_flits(b, vcid)[n - 1]);
    assert(m.rx.update(vc, None) =~= m.rx);
    assert(r.0.rx =~= m.rx);
}

proof fn lemma_receive_prefix(m: RxModel, vcid: Vcid, p: GdpPacketView, k: nat)
    requires
        ready_for_packet(m, vcid, p),
        k < flits_for(spec_packet_encode(p, m.cfg)->Ok_0.len()),
    ensures
        ({
            let b = spec_packet_encode(p, m.cfg)->Ok_0;
            receive_run(m, frame_flits(b, vcid).take(k as int)) == (
                partly_received(m, vcid.spec_get() as int, b, k),
                Seq::new(k, |j: int| Ok::<Option<GdpPacketView>, Error>(None)),
            )
        }),
    decreases k,
{
    let b = spec_packet_encode(p, m.cfg)->Ok_0;
    let fl = frame_flits(b, vcid).take(k as int);
    if k == 0 {
        assert(Seq::new(0, |j: int| Ok::<Option<GdpPacketView>, Error>(None)) =~= Seq::<Result<Option<GdpPacketView>>>::empty());
    } else {
        lemma_receive_prefix(m, vcid, p, (k - 1) as nat);
        lemma_receive_step(m, vcid, p, (k - 1) as nat);
        assert(fl.drop_last() =~= frame_flits(b, vcid).take(k - 1));
        assert(Seq::new((k - 1) as nat, |j: int| Ok::<Option<GdpPacketView>, Error>(None)).push(
            Ok::<Option<GdpPacketView>, Error>(None),
        ) =~= Seq::new(k, |j: int| Ok::<Option<GdpPacketView>, Error>(None)));
    }
}

/// A packet sent as raw flits on a data channel is reassembled: every flit
/// but the last yields nothing, the last yields the packet, and afterwards
/// the receive side is as before except that the credit for those flits is
/// spent (their buffer is taken and released again). The flits are those a
/// queued frame is sent as (`pending_flits` of a frame not yet started).
pub proof fn law_flits_reassemble(m: RxModel, vcid: Vcid, p: GdpPacketView)
    requires
        ready_for_packet(m, vcid, p),
    ensures
        ({
            let b = spec_packet_encode(p, m.cfg)->Ok_0;
            let n = flits_for(b.len());
            receive_run(m, frame_flits(b, vcid)) == (
                RxModel { data_credit_outstanding: (m.data_credit_outstanding - n) as u32, ..m },
                Seq::new(
                    n,
                    |j: int|
                        if j + 1 < n {
                            Ok::<Option<GdpPacketView>, Error>(None)
                        } else {
                            Ok(Some(p))
                        },
                ),
            )
        }),
{
    let b = spec_packet_encode(p, m.cfg)->Ok_0;
    let n = flits_for(b.len());
    lemma_receive_last(m, vcid, p);
    lemma_receive_prefix(m, vcid, p, (n - 1) as nat);
    let fl = frame_flits(b, vcid);
    assert(fl.drop_last() =~= fl.take(n - 1));
    assert(Seq::new((n - 1) as nat, |j: int| Ok::<Option<GdpPacketView>, Error>(None)).push(Ok(Some(p)))
        =~= Seq::new(
        n,
        |j: int|
            if j + 1 < n {
                Ok::<Option<GdpPacketView>, Error>(None)
            } else {
                Ok(Some(p))
            },
    ));
}

} // verus!

//! Fair packet-quantum scheduling of router egress flows in front of one DLP
//! link.

use vstd::prelude::*;

use std::collections::VecDeque;

use crate::dlp_v01::{DlpLink, DlpLinkState, DlpLinkView, data_rotated};
use crate::error::{Error, Result};
use crate::gts::payload_seq;
use crate::link::{LinkTraffic, VcMode, Vcid, queue_flit_total, queue_outcome};
use crate::wire::gdp::{GdpAddress, GdpPacket, GdpPacketView};

verus! {

/// Stable identity of one router egress flow.
///
/// `transport` lets callers tell apart several GTS tunnels or streams
/// between the same GDP endpoints without teaching the scheduler GTS.
#[derive(Debug, Clone, Copy, PartialEq, Eq, Structural, Hash)]
pub struct EgressFlowId {
    pub source: GdpAddress,
    pub destination: GdpAddress,
    pub transport: u64,
}

impl EgressFlowId {
    pub fn new(source: GdpAddress, destination: GdpAddress, transport: u64) -> (r: Self)
        ensures
            r == (EgressFlowId { source, destination, transport }),
    {
        EgressFlowId { source, destination, transport }
    }
}

#[derive(Debug, Clone)]
struct FlowQueue {
    id: EgressFlowId,
    packets: VecDeque<GdpPacket>,
    scheduled: bool,
}

/// A flow as plain values: its id, its queued packets and whether it waits
/// in the ready list.
pub type FlowView = (EgressFlowId, Seq<GdpPacketView>, bool);

/// A scheduler as plain values.
pub struct SchedulerView {
    pub flows: Seq<FlowView>,
    /// Flows waiting for a quantum, in service order.
    pub ready: Seq<EgressFlowId>,
    pub queued: usize,
}

/// Fair packet-quantum scheduler in front of one DLP egress link.
///
/// DLP remains the owner of numeric VCIDs. This component only decides which
/// flow presents the next packet to DLP. Each non-empty flow appears once in
/// the ready list, receives one packet quantum when selected, and is then
/// appended to the tail if it still has work, so a permanently busy flow
/// cannot monopolize an ordinary data VC.
#[derive(Debug, Clone)]
pub struct RouterEgressScheduler {
    flows: Vec<FlowQueue>,
    ready: VecDeque<EgressFlowId>,
    queued_packets: usize,
}

spec fn flow_view(q: FlowQueue) -> FlowView {
    (q.id, payload_packets(q.packets@), q.scheduled)
}

pub open spec fn payload_packets(s: Seq<GdpPacket>) -> Seq<GdpPacketView> {
    s.map_values(|p: GdpPacket| p@)
}

impl View for RouterEgressScheduler {
    type V = SchedulerView;

    closed spec fn view(&self) -> SchedulerView {
        SchedulerView {
            flows: self.flows@.map_values(|q: FlowQueue| flow_view(q)),
            ready: self.ready@,
            queued: self.queued_packets,
        }
    }
}

/// First index of flow `id`, or the length.
pub open spec fn flow_slot_from(s: Seq<FlowView>, id: EgressFlowId, i: int) -> int
    decreases s.len() - i,
{
    if i < 0 || i >= s.len() {
        s.len() as int
    } else if s[i].0 == id {
        i
    } else {
        flow_slot_from(s, id, i + 1)
    }
}

pub open spec fn flow_slot(s: Seq<FlowView>, id: EgressFlowId) -> int {
    flow_slot_from(s, id, 0)
}

/// Packets queued over all flows.
pub open spec fn total_packets(s: Seq<FlowView>) -> nat
    decreases s.len(),
{
    if s.len() == 0 {
        0
    } else {
        total_packets(s.drop_last()) + s.last().1.len()
    }
}

/// Scheduler invariant: flows and ready entries are distinct, the ready
/// flows are exactly the scheduled ones and each has a packet, and the
/// counter covers every queued packet.
pub open spec fn sched_wf(v: SchedulerView) -> bool {
    &&& forall|i: int, j: int| 0 <= i < j < v.flows.len() ==> (#[trigger] v.flows[i]).0 != (#[trigger] v.flows[j]).0
    &&& forall|i: int, j: int| 0 <= i < j < v.ready.len() ==> #[trigger] v.ready[i] != #[trigger] v.ready[j]
    &&& forall|k: int|
        0 <= k < v.ready.len() ==> flow_slot(v.flows, #[trigger] v.ready[k]) < v.flows.len() && v.flows[flow_slot(
            v.flows,
            v.ready[k],
        )].2 && v.flows[flow_slot(v.flows, v.ready[k])].1.len() > 0
    &&& forall|i: int| 0 <= i < v.flows.len() && (#[trigger] v.flows[i]).2 ==> v.ready.contains(v.flows[i].0)
    &&& v.queued >= total_packets(v.flows)
}

/// The front flow gives up its first packet and leaves the ready list:
/// the scheduler afterwards, the packet, and whether the flow has more.
pub open spec fn take_front(v: SchedulerView) -> (SchedulerView, GdpPacketView, bool) {
    let id = v.ready[0];
    let i = flow_slot(v.flows, id);
    let e = v.flows[i];
    (
        SchedulerView { flows: v.flows.update(i, (id, e.1.drop_first(), false)), ready: v.ready.drop_first(), ..v },
        e.1[0],
        e.1.len() > 1,
    )
}

/// One quantum: the front flow sends one packet and goes to the back of the
/// ready list if it has more, else it is forgotten.
pub open spec fn rotate_once(v: SchedulerView) -> SchedulerView {
    let id = v.ready[0];
    let i = flow_slot(v.flows, id);
    let e = v.flows[i];
    if e.1.len() > 1 {
        SchedulerView {
            flows: v.flows.update(i, (id, e.1.drop_first(), true)),
            ready: v.ready.drop_first().push(id),
            queued: (v.queued - 1) as usize,
        }
    } else {
        SchedulerView { flows: v.flows.remove(i), ready: v.ready.drop_first(), queued: (v.queued - 1) as usize }
    }
}

/// The scheduler after `k` quanta.
pub open spec fn rotate(v: SchedulerView, k: nat) -> SchedulerView
    decreases k,
{
    if k == 0 {
        v
    } else {
        rotate_once(rotate(v, (k - 1) as nat))
    }
}

/// The packets the first `k` quanta send, in order.
pub open spec fn taken(v: SchedulerView, k: nat) -> Seq<GdpPacketView>
    decreases k,
{
    if k == 0 {
        Seq::empty()
    } else {
        taken(v, (k - 1) as nat).push(take_front(rotate(v, (k - 1) as nat)).1)
    }
}

/// One successful data-packet queueing on an up link.
pub open spec fn data_step(l0: DlpLinkView, l1: DlpLinkView, p: GdpPacketView) -> bool {
    &&& l0.state == DlpLinkState::Up
    &&& l1.state == l0.state
    &&& l1.generation == l0.generation
    &&& exists|r: Result<usize>|
        #![trigger queue_outcome(data_rotated(l0.endpoint), l1.endpoint, LinkTraffic::Data, Vcid::spec_new(l0.endpoint.next_data_vc), p, r)]
        r is Ok && queue_outcome(
            data_rotated(l0.endpoint),
            l1.endpoint,
            LinkTraffic::Data,
            Vcid::spec_new(l0.endpoint.next_data_vc),
            p,
            r,
        )
}

/// The link went from `l0` to `l1` by queueing `ps` as data packets, in
/// order, each successfully.
pub open spec fn data_chain(l0: DlpLinkView, l1: DlpLinkView, ps: Seq<GdpPacketView>) -> bool
    decreases ps.len(),
{
    if ps.len() == 0 {
        l0 == l1
    } else {
        exists|mid: DlpLinkView| #[trigger] data_step(l0, mid, ps[0]) && data_chain(mid, l1, ps.drop_first())
    }
}

/// Quanta in one round: one per ordinary data VC.
pub open spec fn round_capacity(mode: VcMode) -> nat {
    match mode {
        VcMode::Two => 1,
        VcMode::Four => 3,
    }
}

/// A data-packet queueing on the link that failed with `e`.
pub open spec fn data_failure(l0: DlpLinkView, l1: DlpLinkView, p: GdpPacketView, e: Error) -> bool {
    if l0.state != DlpLinkState::Up {
        e == Error::LinkDown && l1 == l0
    } else {
        &&& l1.state == l0.state
        &&& l1.generation == l0.generation
        &&& queue_outcome(
            data_rotated(l0.endpoint),
            l1.endpoint,
            LinkTraffic::Data,
            Vcid::spec_new(l0.endpoint.next_data_vc),
            p,
            Err(e),
        )
    }
}

/// `final_v`, `final_l` and `r` are the scheduler, link and result after a
/// round of at most `cap` quanta from `v` onto a link in state `l0` whose
/// data queue was empty: `n` quanta went through, in ready order; the
/// round ended when `cap` was reached or no flow was ready, or when the
/// link refused the next packet, which is then lost while its flow leaves
/// the ready list.
pub open spec fn round_outcome(
    v: SchedulerView,
    final_v: SchedulerView,
    l0: DlpLinkView,
    final_l: DlpLinkView,
    cap: nat,
    n: nat,
    r: Result<usize>,
) -> bool {
    &&& n <= cap
    &&& forall|k: nat| k < n ==> (#[trigger] rotate(v, k)).ready.len() > 0
    &&& match r {
        Ok(m) => {
            &&& m == n
            &&& final_v == rotate(v, n)
            &&& (n == cap || rotate(v, n).ready.len() == 0)
            &&& data_chain(l0, final_l, taken(v, n))
        },
        Err(e) => {
            &&& n < cap
            &&& rotate(v, n).ready.len() > 0
            &&& final_v == take_front(rotate(v, n)).0
            &&& exists|mid: DlpLinkView|
                #[trigger] data_chain(l0, mid, taken(v, n)) && data_failure(mid, final_l, take_front(rotate(v, n)).1, e)
        },
    }
}

pub proof fn lemma_chain_extend(l0: DlpLinkView, l1: DlpLinkView, l2: DlpLinkView, ps: Seq<GdpPacketView>, p: GdpPacketView)
    requires
        data_chain(l0, l1, ps),
        data_step(l1, l2, p),
    ensures
        data_chain(l0, l2, ps.push(p)),
    decreases ps.len(),
{
    if ps.len() == 0 {
        assert(ps.push(p).drop_first() =~= Seq::<GdpPacketView>::empty());
        assert(data_chain(l2, l2, ps.push(p).drop_first()));
        assert(ps.push(p)[0] == p);
    } else {
        let mid = choose|mid: DlpLinkView| #[trigger] data_step(l0, mid, ps[0]) && data_chain(mid, l1, ps.drop_first());
        lemma_chain_extend(mid, l1, l2, ps.drop_first(), p);
        assert(ps.push(p).drop_first() =~= ps.drop_first().push(p));
        assert(ps.push(p)[0] == ps[0]);
    }
}

proof fn lemma_flow_slot_from(s: Seq<FlowView>, id: EgressFlowId, i: int)
    requires
        0 <= i <= s.len(),
    ensures
        i <= flow_slot_from(s, id, i) <= s.len(),
        flow_slot_from(s, id, i) < s.len() ==> s[flow_slot_from(s, id, i)].0 == id,
        forall|j: int| i <= j < flow_slot_from(s, id, i) ==> s[j].0 != id,
    decreases s.len() - i,
{
    if i < s.len() && s[i].0 != id {
        lemma_flow_slot_from(s, id, i + 1);
    }
}

/// With distinct ids, the slot of an entry's id is that entry, and an id of
/// no entry has no slot.
proof fn lemma_flow_slot_distinct(s: Seq<FlowView>, id: EgressFlowId)
    requires
        forall|i: int, j: int| 0 <= i < j < s.len() ==> (#[trigger] s[i]).0 != (#[trigger] s[j]).0,
    ensures
        forall|k: int| 0 <= k < s.len() && s[k].0 == id ==> flow_slot(s, id) == k,
        (forall|k: int| 0 <= k < s.len() ==> s[k].0 != id) ==> flow_slot(s, id) == s.len(),
        flow_slot(s, id) <= s.len(),
        flow_slot(s, id) < s.len() ==> s[flow_slot(s, id)].0 == id,
{
    lemma_flow_slot_from(s, id, 0);
    assert forall|k: int| 0 <= k < s.len() && s[k].0 == id implies flow_slot(s, id) == k by {
        let f = flow_slot(s, id);
        if f < k {
            assert(s[f].0 == id);
        }
    }
}

proof fn lemma_total_update(s: Seq<FlowView>, i: int, e: FlowView)
    requires
        0 <= i < s.len(),
    ensures
        total_packets(s.update(i, e)) + s[i].1.len() == total_packets(s) + e.1.len(),
    decreases s.len(),
{
    let u = s.update(i, e);
    if i == s.len() - 1 {
        assert(u.drop_last() =~= s.drop_last());
    } else {
        assert(u.drop_last() =~= s.drop_last().update(i, e));
        lemma_total_update(s.drop_last(), i, e);
    }
}

proof fn lemma_total_remove(s: Seq<FlowView>, i: int)
    requires
        0 <= i < s.len(),
    ensures
        total_packets(s.remove(i)) + s[i].1.len() == total_packets(s),
    decreases s.len(),
{
    if i == s.len() - 1 {
        assert(s.remove(i) =~= s.drop_last());
    } else {
        assert(s.remove(i).drop_last() =~= s.drop_last().remove(i));
        assert(s.remove(i).last() == s.last());
        lemma_total_remove(s.drop_last(), i);
    }
}

proof fn lemma_total_push(s: Seq<FlowView>, e: FlowView)
    ensures
        total_packets(s.push(e)) == total_packets(s) + e.1.len(),
{
    assert(s.push(e).drop_last() =~= s);
}

/// Taking the front packet keeps the scheduler invariant.
pub proof fn lemma_take_front_wf(v: SchedulerView)
    requires
        sched_wf(v),
        v.ready.len() > 0,
    ensures
        sched_wf(take_front(v).0),
{
    let id = v.ready[0];
    let s = v.flows;
    lemma_flow_slot_distinct(s, id);
    let i = flow_slot(s, id);
    let e = s[i];
    let s2 = s.update(i, (id, e.1.drop_first(), false));
    lemma_total_update(s, i, (id, e.1.drop_first(), false));
    assert forall|a: int, b: int| 0 <= a < b < s2.len() implies (#[trigger] s2[a]).0 != (#[trigger] s2[b]).0 by {
        assert(s[a].0 != s[b].0);
    }
    let r2 = v.ready.drop_first();
    assert forall|a: int, b: int| 0 <= a < b < r2.len() implies #[trigger] r2[a] != #[trigger] r2[b] by {
        assert(v.ready[a + 1] != v.ready[b + 1]);
    }
    assert forall|k: int| 0 <= k < r2.len() implies flow_slot(s2, #[trigger] r2[k]) < s2.len() && s2[flow_slot(
        s2,
        r2[k],
    )].2 && s2[flow_slot(s2, r2[k])].1.len() > 0 by {
        lemma_flow_slot_distinct(s2, r2[k]);
        lemma_flow_slot_distinct(s, r2[k]);
        assert(v.ready[k + 1] != v.ready[0]);
        let j = flow_slot(s, r2[k]);
        assert(s2[j] == s[j]);
    }
    assert forall|a: int| 0 <= a < s2.len() && (#[trigger] s2[a]).2 implies r2.contains(s2[a].0) by {
        assert(a != i);
        assert(s[a].2);
        assert(v.ready.contains(s[a].0));
        let k = choose|k: int| 0 <= k < v.ready.len() && v.ready[k] == s[a].0;
        assert(s[a].0 != id);
        assert(r2[k - 1] == s[a].0);
    }
}

/// One quantum keeps the scheduler invariant.
pub proof fn lemma_rotate_wf(v: SchedulerView)
    requires
        sched_wf(v),
        v.ready.len() > 0,
    ensures
        sched_wf(rotate_once(v)),
{
    let id = v.ready[0];
    let s = v.flows;
    lemma_flow_slot_distinct(s, id);
    let i = flow_slot(s, id);
    let e = s[i];
    if e.1.len() > 1 {
        let s2 = s.update(i, (id, e.1.drop_first(), true));
        lemma_total_update(s, i, (id, e.1.drop_first(), true));
        assert forall|a: int, b: int| 0 <= a < b < s2.len() implies (#[trigger] s2[a]).0 != (#[trigger] s2[b]).0 by {
            assert(s[a].0 != s[b].0);
        }
        let r2 = v.ready.drop_first().push(id);
        assert forall|a: int, b: int| 0 <= a < b < r2.len() implies #[trigger] r2[a] != #[trigger] r2[b] by {
            if b == r2.len() - 1 {
                assert(v.ready[a + 1] != v.ready[0]);
            } else {
                assert(v.ready[a + 1] != v.ready[b + 1]);
            }
        }
        assert forall|k: int| 0 <= k < r2.len() implies flow_slot(s2, #[trigger] r2[k]) < s2.len() && s2[flow_slot(
            s2,
            r2[k],
        )].2 && s2[flow_slot(s2, r2[k])].1.len() > 0 by {
            lemma_flow_slot_distinct(s2, r2[k]);
            lemma_flow_slot_distinct(s, r2[k]);
            if k < r2.len() - 1 {
                assert(r2[k] == v.ready[k + 1]);
                assert(v.ready[k + 1] != v.ready[0]);
                let j = flow_slot(s, r2[k]);
                assert(s2[j] == s[j]);
            } else {
                assert(s2[i].0 == id);
            }
        }
        assert forall|a: int| 0 <= a < s2.len() && (#[trigger] s2[a]).2 implies r2.contains(s2[a].0) by {
            if a == i {
                assert(r2[r2.len() - 1] == id);
            } else {
                assert(s[a].2);
                assert(v.ready.contains(s[a].0));
                let k = choose|k: int| 0 <= k < v.ready.len() && v.ready[k] == s[a].0;
                assert(s[a].0 != id);
                assert(k != 0);
                assert(r2[k - 1] == s[a].0);
            }
        }
        assert(total_packets(s) >= e.1.len()) by {
            lemma_total_update(s, i, (id, Seq::<GdpPacketView>::empty(), false));
        }
    } else {
        let s2 = s.remove(i);
        lemma_total_remove(s, i);
        assert forall|a: int, b: int| 0 <= a < b < s2.len() implies (#[trigger] s2[a]).0 != (#[trigger] s2[b]).0 by {
            let a0 = if a < i { a } else { a + 1 };
            let b0 = if b < i { b } else { b + 1 };
            assert(s2[a] == s[a0] && s2[b] == s[b0]);
            assert(s[a0].0 != s[b0].0);
        }
        let r2 = v.ready.drop_first();
        assert forall|a: int, b: int| 0 <= a < b < r2.len() implies #[trigger] r2[a] != #[trigger] r2[b] by {
            assert(v.ready[a + 1] != v.ready[b + 1]);
        }
        assert forall|k: int| 0 <= k < r2.len() implies flow_slot(s2, #[trigger] r2[k]) < s2.len() && s2[flow_slot(
            s2,
            r2[k],
        )].2 && s2[flow_slot(s2, r2[k])].1.len() > 0 by {
            lemma_flow_slot_distinct(s, r2[k]);
            assert(v.ready[k + 1] != v.ready[0]);
            let j = flow_slot(s, r2[k]);
            assert(j != i);
            let j2 = if j < i { j } else { j - 1 };
            assert(s2[j2] == s[j]);
            lemma_flow_slot_distinct(s2, r2[k]);
        }
        assert forall|a: int| 0 <= a < s2.len() && (#[trigger] s2[a]).2 implies r2.contains(s2[a].0) by {
            let a0 = if a < i { a } else { a + 1 };
            assert(s2[a] == s[a0]);
            assert(v.ready.contains(s[a0].0));
            let k = choose|k: int| 0 <= k < v.ready.len() && v.ready[k] == s[a0].0;
            assert(s[a0].0 != id);
            assert(r2[k - 1] == s[a0].0);
        }
    }
}

proof fn lemma_rotate_prefix(v: SchedulerView, k: nat)
    requires
        sched_wf(v),
        k <= v.ready.len(),
    ensures
        sched_wf(rotate(v, k)),
        rotate(v, k).ready.len() >= v.ready.len() - k,
        forall|j: int| 0 <= j < v.ready.len() - k ==> #[trigger] rotate(v, k).ready[j] == v.ready[k + j],
    decreases k,
{
    if k > 0 {
        lemma_rotate_prefix(v, (k - 1) as nat);
        let w = rotate(v, (k - 1) as nat);
        assert(w.ready[0] == v.ready[k - 1]);
        lemma_rotate_wf(w);
        lemma_flow_slot_distinct(w.flows, w.ready[0]);
        let u = rotate_once(w);
        assert forall|j: int| 0 <= j < v.ready.len() - k implies #[trigger] u.ready[j] == v.ready[k + j] by {
            assert(w.ready[j + 1] == v.ready[k - 1 + j + 1]);
        }
    }
}

/// Round robin: the first quanta from a state with `L` ready flows serve
/// exactly those flows, each once, in ready order, so no flow gets a
/// second quantum while another waits.
pub proof fn law_round_robin(v: SchedulerView, k: nat)
    requires
        sched_wf(v),
        k < v.ready.len(),
    ensures
        rotate(v, k).ready.len() > 0,
        rotate(v, k).ready[0] == v.ready[k as int],
{
    lemma_rotate_prefix(v, k);
    assert(rotate(v, k).ready[0] == v.ready[k as int + 0]);
}

impl RouterEgressScheduler {
    pub closed spec fn wf(&self) -> bool {
        sched_wf(self@)
    }

    /// A scheduler with no flows.
    pub fn new() -> (r: Self)
        ensures
            r.wf(),
            r@.flows.len() == 0,
            r@.ready.len() == 0,
            r@.queued == 0,
    {
        let r = RouterEgressScheduler { flows: Vec::new(), ready: VecDeque::new(), queued_packets: 0 };
        assert(r@.flows =~= Seq::<FlowView>::empty());
        r
    }

    /// Packets accepted and not yet admitted to the link.
    pub fn queued_packets(&self) -> (r: usize)
        ensures
            r == self@.queued,
    {
        self.queued_packets
    }

    /// Flows that hold packets or wait for a quantum.
    pub fn flow_count(&self) -> (r: usize)
        ensures
            r == self@.flows.len(),
    {
        self.flows.len()
    }

    fn find_flow(&self, flow: EgressFlowId) -> (r: Option<usize>)
        ensures
            r matches Some(i) ==> i == flow_slot(self@.flows, flow) && i < self@.flows.len(),
            r is None ==> flow_slot(self@.flows, flow) == self@.flows.len(),
    {
        let ghost s = self@.flows;
        proof {
            lemma_flow_slot_from(s, flow, 0);
        }
        let mut i: usize = 0;
        while i < self.flows.len()
            invariant
                i <= self.flows@.len() == s.len(),
                s == self@.flows,
                flow_slot(s, flow) == flow_slot_from(s, flow, i as int),
            decreases self.flows@.len() - i,
        {
            assert(s[i as int].0 == self.flows@[i as int].id);
            if self.flows[i].id == flow {
                return Some(i);
            }
            i = i + 1;
        }
        None
    }

    /// Queues a packet of `flow`; a flow that was not waiting joins the tail
    /// of the ready list.
    pub fn enqueue(&mut self, flow: EgressFlowId, packet: GdpPacket)
        requires
            old(self).wf(),
            old(self)@.queued < usize::MAX,
        ensures
            final(self).wf(),
            final(self)@.queued == old(self)@.queued + 1,
            ({
                let v = old(self)@;
                let i = flow_slot(v.flows, flow);
                if i < v.flows.len() {
                    &&& final(self)@.flows == v.flows.update(i, (flow, v.flows[i].1.push(packet@), true))
                    &&& final(self)@.ready == if v.flows[i].2 {
                        v.ready
                    } else {
                        v.ready.push(flow)
                    }
                } else {
                    &&& final(self)@.flows == v.flows.push((flow, seq![packet@], true))
                    &&& final(self)@.ready == v.ready.push(flow)
                }
            }),
    {
        let ghost v = self@;
        let ghost pv = packet@;
        proof {
            lemma_flow_slot_distinct(v.flows, flow);
        }
        let was_scheduled;
        match self.find_flow(flow) {
            Some(i) => {
                let mut entry = self.flows.remove(i);
                let ghost before = entry.packets@;
                was_scheduled = entry.scheduled;
                entry.packets.push_back(packet);
                entry.scheduled = true;
                assert(payload_packets(entry.packets@) =~= payload_packets(before).push(pv));
                self.flows.insert(i, entry);
                proof {
                    assert(self@.flows =~= v.flows.update(i as int, (flow, v.flows[i as int].1.push(pv), true)));
                    lemma_total_update(v.flows, i as int, (flow, v.flows[i as int].1.push(pv), true));
                }
            },
            None => {
                let mut packets: VecDeque<GdpPacket> = VecDeque::new();
                packets.push_back(packet);
                assert(payload_packets(packets@) =~= seq![pv]);
                was_scheduled = false;
                self.flows.push(FlowQueue { id: flow, packets, scheduled: true });
                proof {
                    assert(self@.flows =~= v.flows.push((flow, seq![pv], true)));
                    lemma_total_push(v.flows, (flow, seq![pv], true));
                }
            },
        }
        self.queued_packets = self.queued_packets + 1;
        if !was_scheduled {
            self.ready.push_back(flow);
        }
        proof {
            let w = self@;
            let s2 = w.flows;
            assert forall|a: int, b: int| 0 <= a < b < s2.len() implies (#[trigger] s2[a]).0 != (#[trigger] s2[b]).0 by {
                if b < v.flows.len() {
                    assert(v.flows[a].0 != v.flows[b].0);
                }
            }
            if !was_scheduled {
                assert(!v.ready.contains(flow)) by {
                    if v.ready.contains(flow) {
                        let k = choose|k: int| 0 <= k < v.ready.len() && v.ready[k] == flow;
                        assert(flow_slot(v.flows, v.ready[k]) < v.flows.len());
                    }
                }
                assert forall|a: int, b: int| 0 <= a < b < w.ready.len() implies #[trigger] w.ready[a] != #[trigger] w.ready[b] by {
                    if b == w.ready.len() - 1 {
                        assert(w.ready[a] == v.ready[a]);
                    }
                }
            }
            lemma_flow_slot_distinct(s2, flow);
            assert forall|k: int| 0 <= k < w.ready.len() implies flow_slot(s2, #[trigger] w.ready[k]) < s2.len()
                && s2[flow_slot(s2, w.ready[k])].2 && s2[flow_slot(s2, w.ready[k])].1.len() > 0 by {
                lemma_flow_slot_distinct(s2, w.ready[k]);
                lemma_flow_slot_distinct(v.flows, w.ready[k]);
                if w.ready[k] != flow {
                    assert(w.ready[k] == v.ready[k]);
                    let j = flow_slot(v.flows, v.ready[k]);
                    assert(s2[j] == v.flows[j]);
                } else {
                    let i = flow_slot(v.flows, flow);
                    if i < v.flows.len() {
                        assert(s2[i].0 == flow);
                    } else {
                        assert(s2[v.flows.len() as int].0 == flow);
                    }
                }
            }
            assert forall|a: int| 0 <= a < s2.len() && (#[trigger] s2[a]).2 implies w.ready.contains(s2[a].0) by {
                if s2[a].0 == flow {
                    if was_scheduled {
                        let i = flow_slot(v.flows, flow);
                        assert(v.flows[i].2);
                        assert(v.ready.contains(flow));
                    } else {
                        assert(w.ready[w.ready.len() - 1] == flow);
                    }
                } else {
                    assert(s2[a] == v.flows[a]);
                    assert(v.ready.contains(s2[a].0));
                    let k = choose|k: int| 0 <= k < v.ready.len() && v.ready[k] == s2[a].0;
                    assert(w.ready[k] == s2[a].0);
                }
            }
        }
    }

    /// Admits one fair scheduling round into the link: at most one packet
    /// per ordinary data VC (one in two-VC mode, three in four-VC mode),
    /// each from the flow at the head of the ready list, which then moves to
    /// the tail if it has more. The link's data queue must be empty, so the
    /// admitted packets stand for recyclable VC capacity rather than a
    /// backlog.
    pub fn schedule_round(&mut self, link: &mut DlpLink) -> (r: Result<usize>)
        requires
            old(self).wf(),
            old(link).wf(),
            queue_flit_total(old(link)@.endpoint.data_queue) <= usize::MAX,
        ensures
            final(self).wf(),
            final(link).wf(),
            queue_flit_total(old(link)@.endpoint.data_queue) != 0 ==> r == Err::<usize, Error>(Error::InvalidState)
                && final(self)@ == old(self)@ && final(link)@ == old(link)@,
            queue_flit_total(old(link)@.endpoint.data_queue) == 0 ==> exists|n: nat|
                round_outcome(
                    old(self)@,
                    final(self)@,
                    old(link)@,
                    final(link)@,
                    round_capacity(old(link)@.endpoint.vc_mode),
                    n,
                    r,
                ),
    {
        if link.endpoint().queued_data_flits() != 0 {
            return Err(Error::InvalidState);
        }
        let capacity: usize = match link.endpoint().vc_mode() {
            VcMode::Two => 1,
            VcMode::Four => 3,
        };
        let ghost v0 = self@;
        let ghost l0 = link@;
        let mut admitted: usize = 0;
        let mut failure: Option<Error> = None;
        assert(data_chain(l0, link@, taken(v0, 0)));
        while admitted < capacity && self.ready.len() > 0 && failure.is_none()
            invariant
                self.wf(),
                link.wf(),
                capacity == round_capacity(l0.endpoint.vc_mode),
                admitted <= capacity,
                forall|k: nat| k < admitted ==> (#[trigger] rotate(v0, k)).ready.len() > 0,
                failure is None ==> self@ == rotate(v0, admitted as nat) && data_chain(
                    l0,
                    link@,
                    taken(v0, admitted as nat),
                ),
                failure matches Some(e) ==> admitted < capacity && rotate(v0, admitted as nat).ready.len() > 0
                    && self@ == take_front(rotate(v0, admitted as nat)).0 && exists|mid: DlpLinkView|
                    #[trigger] data_chain(l0, mid, taken(v0, admitted as nat)) && data_failure(
                        mid,
                        link@,
                        take_front(rotate(v0, admitted as nat)).1,
                        e,
                    ),
            decreases capacity - admitted + if failure is None {
                1int
            } else {
                0int
            },
        {
            let ghost v = self@;
            let ghost lk = link@;
            let ghost tf = take_front(v);
            proof {
                lemma_take_front_wf(v);
                lemma_rotate_wf(v);
                lemma_flow_slot_distinct(v.flows, v.ready[0]);
            }
            let id = self.ready.pop_front().unwrap();
            let i = self.find_flow(id).unwrap();
            let mut entry = self.flows.remove(i);
            entry.scheduled = false;
            let ghost pk = entry.packets@;
            assert(pk.len() > 0);
            let packet = entry.packets.pop_front().unwrap();
            let remains = entry.packets.len() > 0;
            assert(payload_packets(entry.packets@) =~= payload_packets(pk).drop_first());
            self.flows.insert(i, entry);
            assert(self@.flows =~= tf.0.flows);
            assert(packet@ == tf.1);
            match link.queue_data_packet(&packet) {
                Err(e) => {
                    failure = Some(e);
                    proof {
                        assert(data_failure(lk, link@, tf.1, e));
                        assert(data_chain(l0, lk, taken(v0, admitted as nat)));
                    }
                },
                Ok(n) => {
                    proof {
                        assert(data_step(lk, link@, tf.1)) by {
                            assert(queue_outcome(
                                data_rotated(lk.endpoint),
                                link@.endpoint,
                                LinkTraffic::Data,
                                Vcid::spec_new(lk.endpoint.next_data_vc),
                                packet@,
                                Ok::<usize, Error>(n),
                            ));
                        }
                        lemma_chain_extend(l0, lk, link@, taken(v0, admitted as nat), tf.1);
                        assert(taken(v0, (admitted + 1) as nat) == taken(v0, admitted as nat).push(tf.1));
                        assert(v.queued >= total_packets(v.flows));
                        lemma_total_update(v.flows, i as int, (id, v.flows[i as int].1.drop_first(), false));
                    }
                    self.queued_packets = self.queued_packets - 1;
                    if remains {
                        let mut again = self.flows.remove(i);
                        again.scheduled = true;
                        self.flows.insert(i, again);
                        self.ready.push_back(id);
                    } else {
                        let _gone = self.flows.remove(i);
                    }
                    proof {
                        assert(self@ == rotate_once(v)) by {
                            if remains {
                                assert(self@.flows =~= v.flows.update(i as int, (id, v.flows[i as int].1.drop_first(), true)));
                                assert(self@.ready =~= v.ready.drop_first().push(id));
                            } else {
                                assert(self@.flows =~= v.flows.remove(i as int));
                            }
                        }
                        assert(rotate(v0, (admitted + 1) as nat) == rotate_once(rotate(v0, admitted as nat)));
                    }
                    admitted = admitted + 1;
                },
            }
        }
        let r = match failure {
            Some(e) => Err(e),
            None => Ok(admitted),
        };
        proof {
            assert(round_outcome(v0, self@, l0, link@, capacity as nat, admitted as nat, r));
        }
        r
    }
}

} // verus!

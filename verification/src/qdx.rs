use std::collections::VecDeque;

use vstd::prelude::*;

use crate::error::{Error, Result};
use crate::link::{Flit, GnetFrame, GnetFrameView};

verus! {

/// CPU-facing device level used by QDX-GNET-style interfaces: complete GNet
/// frames in host memory. The controller handles the physical-flit mechanics.
pub trait GnetFrameDevice {
    /// Whether the device `after` and the result `r` are a possible outcome of
    /// transmitting `frame` from the device `self`.
    /// Unless the device says more, every outcome is possible.
    open spec fn transmit_outcome(&self, frame: GnetFrameView, after: &Self, r: Result<()>) -> bool {
        true
    }

    /// Whether the device `after` and the result `r` are a possible outcome of
    /// receiving from the device `self`.
    /// Unless the device says more, every outcome is possible.
    open spec fn receive_outcome(&self, after: &Self, r: Result<Option<GnetFrame>>) -> bool {
        true
    }

    fn transmit_frame(&mut self, frame: GnetFrame) -> (r: Result<()>)
        ensures
            old(self).transmit_outcome(frame@, final(self), r),
    ;

    fn receive_frame(&mut self) -> (r: Result<Option<GnetFrame>>)
        ensures
            old(self).receive_outcome(final(self), r),
    ;
}

/// Lower device level for simple or raw hardware and link simulations.
pub trait GnetFlitDevice {
    fn transmit_flits(&mut self, flits: &[Flit]) -> Result<usize>;

    fn receive_flits(&mut self, out: &mut [Flit]) -> Result<usize>;
}

/// End of a virtual NIC pair.
#[derive(Debug, Clone, Copy, PartialEq, Eq, Structural)]
pub enum VirtualNicSide {
    A,
    B,
}

/// Mathematical value of the wire between two virtual NICs.
pub struct VirtualWireView {
    /// Frames sent by side A that side B has not received yet, oldest first.
    pub a_to_b: Seq<GnetFrame>,
    /// Frames sent by side B that side A has not received yet, oldest first.
    pub b_to_a: Seq<GnetFrame>,
    pub capacity_frames: usize,
    pub link_up: bool,
}

/// Frames waiting to be received by `side`.
pub open spec fn inbound(v: VirtualWireView, side: VirtualNicSide) -> Seq<GnetFrame> {
    match side {
        VirtualNicSide::A => v.b_to_a,
        VirtualNicSide::B => v.a_to_b,
    }
}

/// Frames `side` has sent that the other side has not received.
pub open spec fn outbound(v: VirtualWireView, side: VirtualNicSide) -> Seq<GnetFrame> {
    match side {
        VirtualNicSide::A => v.a_to_b,
        VirtualNicSide::B => v.b_to_a,
    }
}

/// `v` with the frames travelling away from `side` replaced by `q`.
pub open spec fn with_outbound(v: VirtualWireView, side: VirtualNicSide, q: Seq<GnetFrame>) -> VirtualWireView {
    match side {
        VirtualNicSide::A => VirtualWireView { a_to_b: q, ..v },
        VirtualNicSide::B => VirtualWireView { b_to_a: q, ..v },
    }
}

/// `v` with the frames travelling towards `side` replaced by `q`.
pub open spec fn with_inbound(v: VirtualWireView, side: VirtualNicSide, q: Seq<GnetFrame>) -> VirtualWireView {
    match side {
        VirtualNicSide::A => VirtualWireView { b_to_a: q, ..v },
        VirtualNicSide::B => VirtualWireView { a_to_b: q, ..v },
    }
}

/// Result and new wire of `side` transmitting `frame`: refused while the link
/// is down or the outbound queue is full, else queued behind earlier frames.
pub open spec fn transmit_outcome(v: VirtualWireView, side: VirtualNicSide, frame: GnetFrame) -> (Result<()>, VirtualWireView) {
    if !v.link_up {
        (Err(Error::LinkDown), v)
    } else if outbound(v, side).len() >= v.capacity_frames {
        (Err(Error::BufferFull), v)
    } else {
        (Ok(()), with_outbound(v, side, outbound(v, side).push(frame)))
    }
}

/// Result and new wire of `side` receiving: refused while the link is down,
/// else the oldest inbound frame, if any.
pub open spec fn receive_outcome(v: VirtualWireView, side: VirtualNicSide) -> (Result<Option<GnetFrame>>, VirtualWireView) {
    if !v.link_up {
        (Err(Error::LinkDown), v)
    } else if inbound(v, side).len() == 0 {
        (Ok(None), v)
    } else {
        (Ok(Some(inbound(v, side)[0])), with_inbound(v, side, inbound(v, side).drop_first()))
    }
}

/// Shared state of a pair of directly connected virtual GNet NICs: one
/// bounded frame queue per direction and the state of the link. There is no
/// Ethernet, IP or host network stack involved.
#[derive(Debug)]
pub struct VirtualNicShared {
    a_to_b: VecDeque<GnetFrame>,
    b_to_a: VecDeque<GnetFrame>,
    capacity_frames: usize,
    link_up: bool,
}

impl View for VirtualNicShared {
    type V = VirtualWireView;

    closed spec fn view(&self) -> VirtualWireView {
        VirtualWireView {
            a_to_b: self.a_to_b@,
            b_to_a: self.b_to_a@,
            capacity_frames: self.capacity_frames,
            link_up: self.link_up,
        }
    }
}

impl VirtualNicShared {
    /// An idle wire whose queues each hold up to `capacity_frames` frames,
    /// with its link up; a capacity of zero is refused.
    pub fn new(capacity_frames: usize) -> (r: Result<Self>)
        ensures
            capacity_frames == 0 ==> r == Err::<Self, Error>(Error::InvalidField),
            capacity_frames > 0 ==> r is Ok && r->Ok_0@ == (VirtualWireView {
                a_to_b: Seq::empty(),
                b_to_a: Seq::empty(),
                capacity_frames,
                link_up: true,
            }),
    {
        if capacity_frames == 0 {
            return Err(Error::InvalidField);
        }
        let w = VirtualNicShared {
            a_to_b: VecDeque::new(),
            b_to_a: VecDeque::new(),
            capacity_frames,
            link_up: true,
        };
        assert(w@.a_to_b =~= Seq::<GnetFrame>::empty());
        assert(w@.b_to_a =~= Seq::<GnetFrame>::empty());
        Ok(w)
    }

    pub fn capacity_frames(&self) -> (r: usize)
        ensures
            r == self@.capacity_frames,
    {
        self.capacity_frames
    }

    /// Frames waiting to be received by `side`.
    pub fn pending_rx_frames(&self, side: VirtualNicSide) -> (r: usize)
        ensures
            r == inbound(self@, side).len(),
    {
        match side {
            VirtualNicSide::A => self.b_to_a.len(),
            VirtualNicSide::B => self.a_to_b.len(),
        }
    }

    pub fn link_up(&self) -> (r: bool)
        ensures
            r == self@.link_up,
    {
        self.link_up
    }

    /// Bring the whole link up or down; queued frames stay.
    pub fn set_link_up(&mut self, up: bool)
        ensures
            final(self)@ == (VirtualWireView { link_up: up, ..old(self)@ }),
    {
        self.link_up = up;
    }

    /// Send `frame` from `side` towards the other side.
    pub fn transmit_frame(&mut self, side: VirtualNicSide, frame: GnetFrame) -> (r: Result<()>)
        ensures
            (r, final(self)@) == transmit_outcome(old(self)@, side, frame),
    {
        if !self.link_up {
            return Err(Error::LinkDown);
        }
        let capacity = self.capacity_frames;
        match side {
            VirtualNicSide::A => {
                if self.a_to_b.len() >= capacity {
                    return Err(Error::BufferFull);
                }
                self.a_to_b.push_back(frame);
            },
            VirtualNicSide::B => {
                if self.b_to_a.len() >= capacity {
                    return Err(Error::BufferFull);
                }
                self.b_to_a.push_back(frame);
            },
        }
        Ok(())
    }

    /// Take the oldest frame waiting for `side`.
    pub fn receive_frame(&mut self, side: VirtualNicSide) -> (r: Result<Option<GnetFrame>>)
        ensures
            (r, final(self)@) == receive_outcome(old(self)@, side),
    {
        if !self.link_up {
            return Err(Error::LinkDown);
        }
        let f = match side {
            VirtualNicSide::A => self.b_to_a.pop_front(),
            VirtualNicSide::B => self.a_to_b.pop_front(),
        };
        proof {
            assert(inbound(old(self)@, side).len() > 0 ==> inbound(self@, side) =~= inbound(old(self)@, side).drop_first());
        }
        Ok(f)
    }
}

/// The side at the other end of the wire.
pub open spec fn peer(side: VirtualNicSide) -> VirtualNicSide {
    match side {
        VirtualNicSide::A => VirtualNicSide::B,
        VirtualNicSide::B => VirtualNicSide::A,
    }
}

/// A frame one side transmits on an up link with nothing in flight towards
/// the other side is exactly the frame the other side receives next, and the
/// wire is then empty again in that direction.
pub proof fn law_transmitted_frame_is_received(v: VirtualWireView, side: VirtualNicSide, frame: GnetFrame)
    requires
        v.link_up,
        v.capacity_frames > 0,
        outbound(v, side).len() == 0,
    ensures
        transmit_outcome(v, side, frame).0 is Ok,
        receive_outcome(transmit_outcome(v, side, frame).1, peer(side)).0 == Ok::<Option<GnetFrame>, Error>(Some(frame)),
        outbound(receive_outcome(transmit_outcome(v, side, frame).1, peer(side)).1, side).len() == 0,
{
    let w = transmit_outcome(v, side, frame).1;
    assert(inbound(w, peer(side)) =~= seq![frame]);
}

/// Frames leave in the order they were sent: after `side` transmits `f1`
/// then `f2` on an up link with room for both, the other side receives
/// frames in the order the queue held them, `f1` before `f2`.
pub proof fn law_frames_keep_their_order(v: VirtualWireView, side: VirtualNicSide, f1: GnetFrame, f2: GnetFrame)
    requires
        v.link_up,
        outbound(v, side).len() + 2 <= v.capacity_frames,
    ensures
        ({
            let w = transmit_outcome(transmit_outcome(v, side, f1).1, side, f2).1;
            &&& transmit_outcome(v, side, f1).0 is Ok
            &&& transmit_outcome(transmit_outcome(v, side, f1).1, side, f2).0 is Ok
            &&& inbound(w, peer(side)) == outbound(v, side).push(f1).push(f2)
        }),
{
}

} // verus!

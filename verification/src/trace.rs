use vstd::prelude::*;

use crate::error::Result;
use crate::link::{flits_for, GnetFrame, GnetFrameView, LinkTraffic, Vcid};
use crate::qdx::GnetFrameDevice;

verus! {

/// Whether a traced frame was leaving or arriving.
#[derive(Debug, Clone, Copy, PartialEq, Eq, Structural)]
pub enum TraceDirection {
    Transmit,
    Receive,
}

/// One observed frame: its channel, class, size in flits and bytes.
#[derive(Debug, Clone, Copy)]
pub struct TraceEvent<'a> {
    pub direction: TraceDirection,
    pub vcid: Vcid,
    pub traffic: LinkTraffic,
    pub equivalent_flits: usize,
    pub bytes: &'a [u8],
}

/// Mathematical value of a trace event.
pub struct TraceEventView {
    pub direction: TraceDirection,
    pub vcid: Vcid,
    pub traffic: LinkTraffic,
    pub equivalent_flits: usize,
    pub bytes: Seq<u8>,
}

impl<'a> View for TraceEvent<'a> {
    type V = TraceEventView;

    open spec fn view(&self) -> TraceEventView {
        TraceEventView {
            direction: self.direction,
            vcid: self.vcid,
            traffic: self.traffic,
            equivalent_flits: self.equivalent_flits,
            bytes: self.bytes@,
        }
    }
}

/// Receiver of trace events.
pub trait TraceSink {
    /// Whether the sink `after` is a possible outcome of reporting `event`
    /// to the sink `self`.
    /// Unless the sink says more, every outcome is possible.
    open spec fn trace_outcome(&self, event: TraceEventView, after: &Self) -> bool {
        true
    }

    fn trace(&mut self, event: TraceEvent<'_>)
        ensures
            old(self).trace_outcome(event@, final(self)),
    ;
}

/// Frame-device wrapper that reports every frame to a sink without
/// modifying it.
#[derive(Debug)]
pub struct Tracer<D, S> {
    inner: D,
    sink: S,
}

/// The event describing `frame` travelling in `direction`.
pub open spec fn event_of(direction: TraceDirection, frame: GnetFrameView) -> TraceEventView {
    TraceEventView {
        direction,
        vcid: frame.vcid,
        traffic: frame.traffic,
        equivalent_flits: flits_for(frame.bytes.len()) as usize,
        bytes: frame.bytes,
    }
}

impl<D, S> Tracer<D, S> {
    pub closed spec fn spec_inner(&self) -> D {
        self.inner
    }

    pub closed spec fn spec_sink(&self) -> S {
        self.sink
    }

    pub fn new(inner: D, sink: S) -> (r: Self)
        ensures
            r.spec_inner() == inner,
            r.spec_sink() == sink,
    {
        Tracer { inner, sink }
    }

    pub fn inner(&self) -> (r: &D)
        ensures
            *r == self.spec_inner(),
    {
        &self.inner
    }

    pub fn inner_mut(&mut self) -> (r: &mut D)
        ensures
            *r == old(self).spec_inner(),
            final(self).spec_inner() == *final(r),
            final(self).spec_sink() == old(self).spec_sink(),
    {
        &mut self.inner
    }

    pub fn sink(&self) -> (r: &S)
        ensures
            *r == self.spec_sink(),
    {
        &self.sink
    }

    pub fn sink_mut(&mut self) -> (r: &mut S)
        ensures
            *r == old(self).spec_sink(),
            final(self).spec_sink() == *final(r),
            final(self).spec_inner() == old(self).spec_inner(),
    {
        &mut self.sink
    }

    pub fn into_parts(self) -> (r: (D, S))
        ensures
            r == (self.spec_inner(), self.spec_sink()),
    {
        (self.inner, self.sink)
    }

    fn event<'a>(direction: TraceDirection, frame: &'a GnetFrame) -> (r: TraceEvent<'a>)
        ensures
            r@ == event_of(direction, frame@),
    {
        TraceEvent {
            direction,
            vcid: frame.vcid,
            traffic: frame.traffic,
            equivalent_flits: frame.flit_len(),
            bytes: frame.bytes.as_slice(),
        }
    }
}

impl<D: GnetFrameDevice, S: TraceSink> GnetFrameDevice for Tracer<D, S> {
    /// The sink was told of the transmission, and the inner device transmitted.
    open spec fn transmit_outcome(&self, frame: GnetFrameView, after: &Self, r: Result<()>) -> bool {
        &&& self.spec_sink().trace_outcome(event_of(TraceDirection::Transmit, frame), &after.spec_sink())
        &&& self.spec_inner().transmit_outcome(frame, &after.spec_inner(), r)
    }

    /// The inner device received, and the sink was told of a frame that came.
    open spec fn receive_outcome(&self, after: &Self, r: Result<Option<GnetFrame>>) -> bool {
        &&& self.spec_inner().receive_outcome(&after.spec_inner(), r)
        &&& match r {
            Ok(Some(f)) => self.spec_sink().trace_outcome(
                event_of(TraceDirection::Receive, f@),
                &after.spec_sink(),
            ),
            _ => after.spec_sink() == self.spec_sink(),
        }
    }

    /// Report the frame as transmitted, then hand it to the inner device.
    fn transmit_frame(&mut self, frame: GnetFrame) -> (r: Result<()>) {
        let event = Self::event(TraceDirection::Transmit, &frame);
        self.sink.trace(event);
        self.inner.transmit_frame(frame)
    }

    /// Take a frame from the inner device and report it as received.
    fn receive_frame(&mut self) -> (r: Result<Option<GnetFrame>>) {
        let frame = self.inner.receive_frame()?;
        match &frame {
            Some(f) => {
                let event = Self::event(TraceDirection::Receive, f);
                self.sink.trace(event);
            },
            None => {},
        }
        Ok(frame)
    }
}

} // verus!

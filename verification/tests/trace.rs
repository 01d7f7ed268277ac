use smolgnet::error::Result;
use smolgnet::link::{GnetFrame, LinkTraffic, Vcid};
use smolgnet::qdx::{GnetFrameDevice, VirtualNicShared, VirtualNicSide};
use smolgnet::trace::{TraceDirection, TraceEvent, TraceSink, Tracer};

struct Loopback {
    wire: VirtualNicShared,
}

impl GnetFrameDevice for Loopback {
    fn transmit_frame(&mut self, frame: GnetFrame) -> Result<()> {
        self.wire.transmit_frame(VirtualNicSide::A, frame)
    }

    fn receive_frame(&mut self) -> Result<Option<GnetFrame>> {
        self.wire.receive_frame(VirtualNicSide::B)
    }
}

#[derive(Default)]
struct Log {
    events: Vec<(TraceDirection, usize, Vec<u8>)>,
}

impl TraceSink for Log {
    fn trace(&mut self, event: TraceEvent<'_>) {
        self.events.push((event.direction, event.equivalent_flits, event.bytes.to_vec()));
    }
}

#[test]
fn tracer_reports_frames_without_changing_them() {
    let device = Loopback { wire: VirtualNicShared::new(4).unwrap() };
    let mut tracer = Tracer::new(device, Log::default());
    let frame = GnetFrame { vcid: Vcid::vc2(), traffic: LinkTraffic::Data, bytes: vec![5; 9] };
    tracer.transmit_frame(frame.clone()).unwrap();
    assert_eq!(tracer.receive_frame().unwrap(), Some(frame.clone()));
    assert_eq!(tracer.receive_frame().unwrap(), None);
    assert_eq!(tracer.sink().events.len(), 2);
    assert_eq!(tracer.sink().events[0], (TraceDirection::Transmit, 3, vec![5; 9]));
    assert_eq!(tracer.sink().events[1], (TraceDirection::Receive, 3, vec![5; 9]));
    tracer.sink_mut().events.clear();
    assert_eq!(tracer.inner().wire.pending_rx_frames(VirtualNicSide::B), 0);
    tracer.inner_mut().wire.set_link_up(false);
    assert!(tracer.receive_frame().is_err());
    let (device, log) = tracer.into_parts();
    assert!(!device.wire.link_up());
    assert!(log.events.is_empty());
}

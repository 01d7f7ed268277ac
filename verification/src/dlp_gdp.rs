//! The router-facing boundary of a DLP link: complete GDP packets only.

use vstd::prelude::*;

use std::collections::VecDeque;

use crate::dlp_v01::{DlpLink, DlpLinkState, DlpLinkView, data_rotated};
use crate::error::{Error, Result};
use crate::link::{
    DlpConfig, DlpState, Flit, GnetFrame, LinkTraffic, Vcid, fresh_dlp_state, link_down_state, queue_outcome,
    rx_model, sat_add, spec_grantable, spec_poll_tx_frame, spec_receive, spec_receive_frame, tx_burst_outcome,
    tx_poll_outcome, with_rx_model,
};
use crate::wire::gdp::{GdpPacket, GdpPacketView, GdpType};

verus! {

use vstd::wrapping::u32_specs::wrapping_add;

/// Router-facing DLP <-> GDP contract.
///
/// Implementors expose only complete GDP packets. Routers and other GDP
/// forwarding engines do not depend on VCIDs, flits, DLP credits, burst
/// scheduling, or receive reassembly.
pub trait GdpPacketPort {
    /// The port is in a state its methods accept.
    spec fn port_ready(&self) -> bool;

    /// The next complete GDP packet received from this link.
    fn poll_gdp(&mut self) -> (r: Option<GdpPacket>)
        requires
            old(self).port_ready(),
        ensures
            final(self).port_ready(),
    ;

    /// Submits one complete GDP packet to this link for transmission; the
    /// link picks the control or data lane and the channel.
    fn transmit_gdp(&mut self, packet: GdpPacket) -> (r: Result<()>)
        requires
            old(self).port_ready(),
        ensures
            final(self).port_ready(),
    ;
}

/// Packet boundary around one point-to-point DLP link.
///
/// The `physical_*` methods belong below the router boundary.
#[derive(Debug, Clone)]
pub struct DlpGdpPort {
    link: DlpLink,
    received: VecDeque<GdpPacket>,
}

/// A port as plain values.
pub struct DlpGdpPortView {
    pub link: DlpLinkView,
    /// Completed packets not yet taken by GDP, oldest first.
    pub received: Seq<GdpPacketView>,
}

pub open spec fn packet_seq(s: Seq<GdpPacket>) -> Seq<GdpPacketView> {
    s.map_values(|p: GdpPacket| p@)
}

impl View for DlpGdpPort {
    type V = DlpGdpPortView;

    closed spec fn view(&self) -> DlpGdpPortView {
        DlpGdpPortView { link: self.link@, received: packet_seq(self.received@) }
    }
}

/// A queueing result without the flit count.
pub open spec fn unit_result(q: Result<usize>) -> Result<()> {
    match q {
        Ok(_) => Ok(()),
        Err(e) => Err(e),
    }
}

impl DlpGdpPort {
    pub closed spec fn wf(&self) -> bool {
        self.link.wf()
    }

    /// A port over a new link, down and with nothing received.
    pub fn new(config: DlpConfig) -> (r: Result<Self>)
        ensures
            config.rx_buffer_flits == 0 || config.control_window_flits == 0 ==> r == Err::<Self, Error>(
                Error::InvalidField,
            ),
            !(config.rx_buffer_flits == 0 || config.control_window_flits == 0) ==> (r matches Ok(p) && p.wf()
                && p@ == (DlpGdpPortView {
                link: DlpLinkView {
                    endpoint: link_down_state(fresh_dlp_state(config)),
                    state: DlpLinkState::Down,
                    generation: 0,
                },
                received: Seq::empty(),
            })),
    {
        let link = match DlpLink::new(config) {
            Ok(l) => l,
            Err(e) => return Err(e),
        };
        let p = DlpGdpPort { link, received: VecDeque::new() };
        assert(p@.received =~= Seq::<GdpPacketView>::empty());
        Ok(p)
    }

    pub fn state(&self) -> (r: DlpLinkState)
        ensures
            r == self@.link.state,
    {
        self.link.state()
    }

    pub fn generation(&self) -> (r: u32)
        ensures
            r == self@.link.generation,
    {
        self.link.generation()
    }

    /// See [`DlpLink::begin_recovery`].
    pub fn begin_recovery(&mut self) -> (r: Result<()>)
        requires
            old(self).wf(),
        ensures
            final(self).wf(),
            final(self)@.received == old(self)@.received,
            old(self)@.link.state != DlpLinkState::Down ==> r == Err::<(), Error>(Error::InvalidState)
                && final(self)@ == old(self)@,
            old(self)@.link.state == DlpLinkState::Down ==> r == Ok::<(), Error>(()) && final(self)@.link == (
            DlpLinkView {
                endpoint: DlpState { link_up: true, ..old(self)@.link.endpoint },
                state: DlpLinkState::Recovering,
                ..old(self)@.link
            }),
    {
        self.link.begin_recovery()
    }

    /// See [`DlpLink::complete_recovery`].
    pub fn complete_recovery(&mut self) -> (r: Result<()>)
        requires
            old(self).wf(),
        ensures
            final(self).wf(),
            final(self)@.received == old(self)@.received,
            old(self)@.link.state != DlpLinkState::Recovering ==> r == Err::<(), Error>(Error::InvalidState)
                && final(self)@ == old(self)@,
            old(self)@.link.state == DlpLinkState::Recovering ==> r == Ok::<(), Error>(()) && final(self)@.link
                == (DlpLinkView { state: DlpLinkState::Up, ..old(self)@.link }),
    {
        self.link.complete_recovery()
    }

    /// Resets all DLP-local state and discards packets completed by the
    /// previous link generation but not yet taken by GDP.
    pub fn reset(&mut self)
        requires
            old(self).wf(),
        ensures
            final(self).wf(),
            final(self)@ == (DlpGdpPortView {
                link: DlpLinkView {
                    endpoint: link_down_state(old(self)@.link.endpoint),
                    state: DlpLinkState::Down,
                    generation: wrapping_add(old(self)@.link.generation, 1),
                },
                received: Seq::empty(),
            }),
    {
        self.link.reset();
        self.received.clear();
        assert(self@.received =~= Seq::<GdpPacketView>::empty());
    }

    /// Takes one flit from the wire; `true` when it completed a packet.
    pub fn physical_receive_flit(&mut self, flit: Flit) -> (r: Result<bool>)
        requires
            old(self).wf(),
        ensures
            final(self).wf(),
            final(self)@.link.state == old(self)@.link.state,
            final(self)@.link.generation == old(self)@.link.generation,
            old(self)@.link.state != DlpLinkState::Up ==> r == Err::<bool, Error>(Error::LinkDown) && final(self)@
                == old(self)@,
            old(self)@.link.state == DlpLinkState::Up ==> final(self)@.link.endpoint == with_rx_model(
                old(self)@.link.endpoint,
                spec_receive(rx_model(old(self)@.link.endpoint), flit).0,
            ) && match spec_receive(rx_model(old(self)@.link.endpoint), flit).1 {
                Ok(Some(p)) => r == Ok::<bool, Error>(true) && final(self)@.received == old(self)@.received.push(p),
                Ok(None) => r == Ok::<bool, Error>(false) && final(self)@.received == old(self)@.received,
                Err(e) => r == Err::<bool, Error>(e) && final(self)@.received == old(self)@.received,
            },
    {
        match self.link.receive(flit) {
            Ok(Some(packet)) => {
                let ghost before = self.received@;
                self.received.push_back(packet);
                assert(packet_seq(self.received@) =~= packet_seq(before).push(packet@));
                Ok(true)
            },
            Ok(None) => Ok(false),
            Err(e) => Err(e),
        }
    }

    /// Takes one whole frame from the wire.
    pub fn physical_receive_frame(&mut self, frame: GnetFrame) -> (r: Result<()>)
        requires
            old(self).wf(),
        ensures
            final(self).wf(),
            final(self)@.link.state == old(self)@.link.state,
            final(self)@.link.generation == old(self)@.link.generation,
            old(self)@.link.state != DlpLinkState::Up ==> r == Err::<(), Error>(Error::LinkDown) && final(self)@
                == old(self)@,
            old(self)@.link.state == DlpLinkState::Up ==> final(self)@.link.endpoint == spec_receive_frame(
                old(self)@.link.endpoint,
                frame@,
            ).0 && match spec_receive_frame(old(self)@.link.endpoint, frame@).1 {
                Ok(p) => r == Ok::<(), Error>(()) && final(self)@.received == old(self)@.received.push(p),
                Err(e) => r == Err::<(), Error>(e) && final(self)@.received == old(self)@.received,
            },
    {
        match self.link.receive_frame(frame) {
            Ok(packet) => {
                let ghost before = self.received@;
                self.received.push_back(packet);
                assert(packet_seq(self.received@) =~= packet_seq(before).push(packet@));
                Ok(())
            },
            Err(e) => Err(e),
        }
    }

    /// One flit for the wire.
    pub fn physical_poll_tx_flit(&mut self) -> (r: Result<Option<Flit>>)
        requires
            old(self).wf(),
        ensures
            final(self).wf(),
            final(self)@.received == old(self)@.received,
            final(self)@.link.state == old(self)@.link.state,
            final(self)@.link.generation == old(self)@.link.generation,
            old(self)@.link.state != DlpLinkState::Up ==> r == Err::<Option<Flit>, Error>(Error::LinkDown)
                && final(self)@ == old(self)@,
            old(self)@.link.state == DlpLinkState::Up ==> tx_poll_outcome(
                old(self)@.link.endpoint,
                final(self)@.link.endpoint,
                r,
            ),
    {
        self.link.poll_tx()
    }

    /// A burst of flits for the wire.
    pub fn physical_poll_tx_burst(&mut self, out: &mut [Flit]) -> (r: Result<usize>)
        requires
            old(self).wf(),
        ensures
            final(self).wf(),
            final(self)@.received == old(self)@.received,
            final(self)@.link.state == old(self)@.link.state,
            final(self)@.link.generation == old(self)@.link.generation,
            old(self)@.link.state != DlpLinkState::Up ==> r == Err::<usize, Error>(Error::LinkDown) && final(self)@
                == old(self)@ && final(out)@ == old(out)@,
            old(self)@.link.state == DlpLinkState::Up ==> tx_burst_outcome(
                old(self)@.link.endpoint,
                final(self)@.link.endpoint,
                old(out)@,
                final(out)@,
                r,
            ),
    {
        self.link.poll_tx_burst(out)
    }

    /// One whole frame for the wire.
    pub fn physical_poll_tx_frame(&mut self) -> (r: Result<Option<GnetFrame>>)
        requires
            old(self).wf(),
        ensures
            final(self).wf(),
            final(self)@.received == old(self)@.received,
            final(self)@.link.state == old(self)@.link.state,
            final(self)@.link.generation == old(self)@.link.generation,
            old(self)@.link.state != DlpLinkState::Up ==> r == Err::<Option<GnetFrame>, Error>(Error::LinkDown)
                && final(self)@ == old(self)@,
            old(self)@.link.state == DlpLinkState::Up ==> final(self)@.link.endpoint == spec_poll_tx_frame(
                old(self)@.link.endpoint,
            ).0 && match spec_poll_tx_frame(old(self)@.link.endpoint).1 {
                Ok(Some(f)) => r matches Ok(Some(g)) && g@ == f,
                Ok(None) => r == Ok::<Option<GnetFrame>, Error>(None),
                Err(e) => r == Err::<Option<GnetFrame>, Error>(e),
            },
    {
        self.link.poll_tx_frame()
    }

    /// See [`DlpLink::grant_peer_data_credit`].
    pub fn grant_peer_data_credit(receiver: &mut Self, sender: &mut Self, count: u32) -> (r: Result<()>)
        requires
            old(receiver).wf(),
            old(sender).wf(),
        ensures
            final(receiver).wf(),
            final(sender).wf(),
            final(receiver)@.received == old(receiver)@.received,
            final(sender)@.received == old(sender)@.received,
            ({
                let rv = old(receiver)@.link;
                let sv = old(sender)@.link;
                if rv.state != DlpLinkState::Up || sv.state != DlpLinkState::Up {
                    r == Err::<(), Error>(Error::LinkDown) && final(receiver)@.link == rv && final(sender)@.link
                        == sv
                } else if count > spec_grantable(
                    rv.endpoint.rx_buffer_flits,
                    rv.endpoint.data_rx_in_use,
                    rv.endpoint.data_credit_outstanding,
                ) {
                    r == Err::<(), Error>(Error::BufferFull) && final(receiver)@.link == rv && final(sender)@.link
                        == sv
                } else {
                    &&& r == Ok::<(), Error>(())
                    &&& final(receiver)@.link == (DlpLinkView {
                        endpoint: DlpState {
                            data_credit_outstanding: (rv.endpoint.data_credit_outstanding + count) as u32,
                            ..rv.endpoint
                        },
                        ..rv
                    })
                    &&& final(sender)@.link == (DlpLinkView {
                        endpoint: DlpState {
                            data_tx_credit: sat_add(sv.endpoint.data_tx_credit, count),
                            ..sv.endpoint
                        },
                        ..sv
                    })
                }
            }),
    {
        DlpLink::grant_peer_data_credit(&mut receiver.link, &mut sender.link, count)
    }

    /// See [`DlpLink::grant_peer_control_credit`].
    pub fn grant_peer_control_credit(sender: &mut Self, count: u32) -> (r: Result<()>)
        requires
            old(sender).wf(),
        ensures
            final(sender).wf(),
            final(sender)@.received == old(sender)@.received,
            old(sender)@.link.state != DlpLinkState::Up ==> r == Err::<(), Error>(Error::LinkDown)
                && final(sender)@ == old(sender)@,
            old(sender)@.link.state == DlpLinkState::Up ==> r == Ok::<(), Error>(()) && final(sender)@.link == (
            DlpLinkView {
                endpoint: DlpState {
                    control_tx_credit: sat_add(old(sender)@.link.endpoint.control_tx_credit, count),
                    ..old(sender)@.link.endpoint
                },
                ..old(sender)@.link
            }),
    {
        DlpLink::grant_peer_control_credit(&mut sender.link, count)
    }
}

impl GdpPacketPort for DlpGdpPort {
    open spec fn port_ready(&self) -> bool {
        self.wf()
    }

    /// The oldest completed packet.
    fn poll_gdp(&mut self) -> (r: Option<GdpPacket>)
        ensures
            old(self)@.received.len() == 0 ==> r is None && final(self)@ == old(self)@,
            old(self)@.received.len() > 0 ==> (r matches Some(p) && p@ == old(self)@.received[0] && final(self)@
                == (DlpGdpPortView { received: old(self)@.received.drop_first(), ..old(self)@ })),
    {
        let r = self.received.pop_front();
        proof {
            if old(self).received@.len() > 0 {
                assert(packet_seq(self.received@) =~= packet_seq(old(self).received@).drop_first());
            }
        }
        r
    }

    /// GCTL goes on the control channel, everything else on the next data
    /// channel.
    fn transmit_gdp(&mut self, packet: GdpPacket) -> (r: Result<()>)
        ensures
            final(self)@.received == old(self)@.received,
            final(self)@.link.state == old(self)@.link.state,
            final(self)@.link.generation == old(self)@.link.generation,
            old(self)@.link.state != DlpLinkState::Up ==> r == Err::<(), Error>(Error::LinkDown) && final(self)@
                == old(self)@,
            old(self)@.link.state == DlpLinkState::Up && packet@.header.packet_type == GdpType::Gctl ==> exists|
                q: Result<usize>,
            |
                #![trigger queue_outcome(old(self)@.link.endpoint, final(self)@.link.endpoint, LinkTraffic::Control, Vcid::spec_new(0), packet@, q)]
                queue_outcome(
                    old(self)@.link.endpoint,
                    final(self)@.link.endpoint,
                    LinkTraffic::Control,
                    Vcid::spec_new(0),
                    packet@,
                    q,
                ) && r == unit_result(q),
            old(self)@.link.state == DlpLinkState::Up && packet@.header.packet_type != GdpType::Gctl ==> exists|
                q: Result<usize>,
            |
                #![trigger queue_outcome(data_rotated(old(self)@.link.endpoint), final(self)@.link.endpoint, LinkTraffic::Data, Vcid::spec_new(old(self)@.link.endpoint.next_data_vc), packet@, q)]
                queue_outcome(
                    data_rotated(old(self)@.link.endpoint),
                    final(self)@.link.endpoint,
                    LinkTraffic::Data,
                    Vcid::spec_new(old(self)@.link.endpoint.next_data_vc),
                    packet@,
                    q,
                ) && r == unit_result(q),
    {
        let ghost s0 = self@.link.endpoint;
        let q = match packet.header.packet_type {
            GdpType::Gctl => self.link.queue_control_packet(&packet),
            GdpType::Gts | GdpType::Reserved(_) => self.link.queue_data_packet(&packet),
        };
        let r = match q {
            Ok(_) => Ok(()),
            Err(e) => Err(e),
        };
        proof {
            if self@.link.state == DlpLinkState::Up {
                if packet@.header.packet_type == GdpType::Gctl {
                    assert(queue_outcome(s0, self@.link.endpoint, LinkTraffic::Control, Vcid::spec_new(0), packet@, q));
                    assert(r == unit_result(q));
                } else {
                    assert(queue_outcome(
                        data_rotated(s0),
                        self@.link.endpoint,
                        LinkTraffic::Data,
                        Vcid::spec_new(s0.next_data_vc),
                        packet@,
                        q,
                    ));
                    assert(r == unit_result(q));
                }
            }
        }
        r
    }
}

} // verus!

//! A DLP link with an explicit recovery life cycle: traffic flows only while
//! the link is up, and every reset starts a new generation.

use vstd::prelude::*;

use crate::error::{Error, Result};
use crate::link::{
    DlpConfig, DlpEndpoint, DlpState, Flit, GnetFrame, LinkTraffic, Vcid, fresh_dlp_state, link_down_state,
    next_data_vc, queue_outcome, rx_model, sat_add, spec_grantable, spec_poll_tx_frame, spec_receive,
    spec_receive_frame, tx_burst_outcome, tx_poll_outcome, with_rx_model,
};
use crate::wire::gdp::GdpPacket;

verus! {

use vstd::wrapping::u32_specs::wrapping_add;

#[derive(Debug, Clone, Copy, PartialEq, Eq, Structural)]
pub enum DlpLinkState {
    Down,
    Recovering,
    Up,
}

/// A DLP endpoint with its life-cycle state.
#[derive(Debug, Clone)]
pub struct DlpLink {
    endpoint: DlpEndpoint,
    state: DlpLinkState,
    generation: u32,
}

/// A link as plain values.
pub struct DlpLinkView {
    pub endpoint: DlpState,
    pub state: DlpLinkState,
    pub generation: u32,
}

impl View for DlpLink {
    type V = DlpLinkView;

    closed spec fn view(&self) -> DlpLinkView {
        DlpLinkView { endpoint: self.endpoint@, state: self.state, generation: self.generation }
    }
}

/// `t` is `s` with its data-queue rotation advanced as queueing a data
/// packet does.
pub open spec fn data_rotated(s: DlpState) -> DlpState {
    DlpState { next_data_vc: next_data_vc(s.next_data_vc, s.vc_mode), ..s }
}

impl DlpLink {
    pub closed spec fn wf(&self) -> bool {
        self.endpoint.wf()
    }

    /// A link that starts down, in generation zero.
    pub fn new(config: DlpConfig) -> (r: Result<Self>)
        ensures
            config.rx_buffer_flits == 0 || config.control_window_flits == 0 ==> r == Err::<Self, Error>(
                Error::InvalidField,
            ),
            !(config.rx_buffer_flits == 0 || config.control_window_flits == 0) ==> (r matches Ok(l) && l.wf()
                && l@ == (DlpLinkView {
                endpoint: link_down_state(fresh_dlp_state(config)),
                state: DlpLinkState::Down,
                generation: 0,
            })),
    {
        let mut endpoint = match DlpEndpoint::new(config) {
            Ok(e) => e,
            Err(e) => return Err(e),
        };
        endpoint.set_link_up(false);
        Ok(DlpLink { endpoint, state: DlpLinkState::Down, generation: 0 })
    }

    pub fn state(&self) -> (r: DlpLinkState)
        ensures
            r == self@.state,
    {
        self.state
    }

    pub fn generation(&self) -> (r: u32)
        ensures
            r == self@.generation,
    {
        self.generation
    }

    pub fn endpoint(&self) -> (r: &DlpEndpoint)
        ensures
            r@ == self@.endpoint,
            self.wf() ==> r.wf(),
    {
        &self.endpoint
    }

    /// Down to recovering: the endpoint comes up.
    pub fn begin_recovery(&mut self) -> (r: Result<()>)
        requires
            old(self).wf(),
        ensures
            final(self).wf(),
            old(self)@.state != DlpLinkState::Down ==> r == Err::<(), Error>(Error::InvalidState) && final(self)@
                == old(self)@,
            old(self)@.state == DlpLinkState::Down ==> r == Ok::<(), Error>(()) && final(self)@ == (DlpLinkView {
                endpoint: DlpState { link_up: true, ..old(self)@.endpoint },
                state: DlpLinkState::Recovering,
                ..old(self)@
            }),
    {
        if self.state != DlpLinkState::Down {
            return Err(Error::InvalidState);
        }
        self.endpoint.set_link_up(true);
        self.state = DlpLinkState::Recovering;
        Ok(())
    }

    /// Recovering to up: traffic may flow.
    pub fn complete_recovery(&mut self) -> (r: Result<()>)
        requires
            old(self).wf(),
        ensures
            final(self).wf(),
            old(self)@.state != DlpLinkState::Recovering ==> r == Err::<(), Error>(Error::InvalidState)
                && final(self)@ == old(self)@,
            old(self)@.state == DlpLinkState::Recovering ==> r == Ok::<(), Error>(()) && final(self)@ == (
            DlpLinkView { state: DlpLinkState::Up, ..old(self)@ }),
    {
        if self.state != DlpLinkState::Recovering {
            return Err(Error::InvalidState);
        }
        self.state = DlpLinkState::Up;
        Ok(())
    }

    /// Takes the link down, discarding its queues and credit, and starts the
    /// next generation.
    pub fn reset(&mut self)
        requires
            old(self).wf(),
        ensures
            final(self).wf(),
            final(self)@ == (DlpLinkView {
                endpoint: link_down_state(old(self)@.endpoint),
                state: DlpLinkState::Down,
                generation: wrapping_add(old(self)@.generation, 1),
            }),
    {
        self.endpoint.set_link_up(false);
        self.state = DlpLinkState::Down;
        self.generation = self.generation.wrapping_add(1);
    }

    fn require_up(&self) -> (r: Result<()>)
        ensures
            self@.state == DlpLinkState::Up ==> r is Ok,
            self@.state != DlpLinkState::Up ==> r == Err::<(), Error>(Error::LinkDown),
    {
        if self.state == DlpLinkState::Up {
            Ok(())
        } else {
            Err(Error::LinkDown)
        }
    }

    /// Queues a packet on the next data channel; `LinkDown` unless up.
    pub fn queue_data_packet(&mut self, packet: &GdpPacket) -> (r: Result<usize>)
        requires
            old(self).wf(),
        ensures
            final(self).wf(),
            final(self)@.state == old(self)@.state,
            final(self)@.generation == old(self)@.generation,
            old(self)@.state != DlpLinkState::Up ==> r == Err::<usize, Error>(Error::LinkDown) && final(self)@
                == old(self)@,
            old(self)@.state == DlpLinkState::Up ==> queue_outcome(
                data_rotated(old(self)@.endpoint),
                final(self)@.endpoint,
                LinkTraffic::Data,
                Vcid::spec_new(old(self)@.endpoint.next_data_vc),
                packet@,
                r,
            ),
    {
        if let Err(e) = self.require_up() {
            return Err(e);
        }
        self.endpoint.queue_data_packet(packet)
    }

    /// Queues a packet on the control channel; `LinkDown` unless up.
    pub fn queue_control_packet(&mut self, packet: &GdpPacket) -> (r: Result<usize>)
        requires
            old(self).wf(),
        ensures
            final(self).wf(),
            final(self)@.state == old(self)@.state,
            final(self)@.generation == old(self)@.generation,
            old(self)@.state != DlpLinkState::Up ==> r == Err::<usize, Error>(Error::LinkDown) && final(self)@
                == old(self)@,
            old(self)@.state == DlpLinkState::Up ==> queue_outcome(
                old(self)@.endpoint,
                final(self)@.endpoint,
                LinkTraffic::Control,
                Vcid::spec_new(0),
                packet@,
                r,
            ),
    {
        if let Err(e) = self.require_up() {
            return Err(e);
        }
        self.endpoint.queue_control_packet(packet)
    }

    /// One flit; `LinkDown` unless up.
    pub fn poll_tx(&mut self) -> (r: Result<Option<Flit>>)
        requires
            old(self).wf(),
        ensures
            final(self).wf(),
            final(self)@.state == old(self)@.state,
            final(self)@.generation == old(self)@.generation,
            old(self)@.state != DlpLinkState::Up ==> r == Err::<Option<Flit>, Error>(Error::LinkDown)
                && final(self)@ == old(self)@,
            old(self)@.state == DlpLinkState::Up ==> tx_poll_outcome(old(self)@.endpoint, final(self)@.endpoint, r),
    {
        if let Err(e) = self.require_up() {
            return Err(e);
        }
        self.endpoint.poll_tx()
    }

    /// A burst of flits into `out`; `LinkDown` unless up.
    pub fn poll_tx_burst(&mut self, out: &mut [Flit]) -> (r: Result<usize>)
        requires
            old(self).wf(),
        ensures
            final(self).wf(),
            final(self)@.state == old(self)@.state,
            final(self)@.generation == old(self)@.generation,
            old(self)@.state != DlpLinkState::Up ==> r == Err::<usize, Error>(Error::LinkDown) && final(self)@
                == old(self)@ && final(out)@ == old(out)@,
            old(self)@.state == DlpLinkState::Up ==> tx_burst_outcome(
                old(self)@.endpoint,
                final(self)@.endpoint,
                old(out)@,
                final(out)@,
                r,
            ),
    {
        if let Err(e) = self.require_up() {
            return Err(e);
        }
        self.endpoint.poll_tx_burst(out)
    }

    /// One whole frame; `LinkDown` unless up.
    pub fn poll_tx_frame(&mut self) -> (r: Result<Option<GnetFrame>>)
        requires
            old(self).wf(),
        ensures
            final(self).wf(),
            final(self)@.state == old(self)@.state,
            final(self)@.generation == old(self)@.generation,
            old(self)@.state != DlpLinkState::Up ==> r == Err::<Option<GnetFrame>, Error>(Error::LinkDown)
                && final(self)@ == old(self)@,
            old(self)@.state == DlpLinkState::Up ==> final(self)@.endpoint == spec_poll_tx_frame(
                old(self)@.endpoint,
            ).0 && match spec_poll_tx_frame(old(self)@.endpoint).1 {
                Ok(Some(f)) => r matches Ok(Some(g)) && g@ == f,
                Ok(None) => r == Ok::<Option<GnetFrame>, Error>(None),
                Err(e) => r == Err::<Option<GnetFrame>, Error>(e),
            },
    {
        if let Err(e) = self.require_up() {
            return Err(e);
        }
        self.endpoint.poll_tx_frame()
    }

    /// Takes one flit; a completed packet comes back. `LinkDown` unless up.
    pub fn receive(&mut self, flit: Flit) -> (r: Result<Option<GdpPacket>>)
        requires
            old(self).wf(),
        ensures
            final(self).wf(),
            final(self)@.state == old(self)@.state,
            final(self)@.generation == old(self)@.generation,
            old(self)@.state != DlpLinkState::Up ==> r == Err::<Option<GdpPacket>, Error>(Error::LinkDown)
                && final(self)@ == old(self)@,
            old(self)@.state == DlpLinkState::Up ==> final(self)@.endpoint == with_rx_model(
                old(self)@.endpoint,
                spec_receive(rx_model(old(self)@.endpoint), flit).0,
            ) && match spec_receive(rx_model(old(self)@.endpoint), flit).1 {
                Ok(Some(p)) => r matches Ok(Some(q)) && q@ == p,
                Ok(None) => r == Ok::<Option<GdpPacket>, Error>(None),
                Err(e) => r == Err::<Option<GdpPacket>, Error>(e),
            },
    {
        if let Err(e) = self.require_up() {
            return Err(e);
        }
        self.endpoint.receive(flit)
    }

    /// Takes one whole frame. `LinkDown` unless up.
    pub fn receive_frame(&mut self, frame: GnetFrame) -> (r: Result<GdpPacket>)
        requires
            old(self).wf(),
        ensures
            final(self).wf(),
            final(self)@.state == old(self)@.state,
            final(self)@.generation == old(self)@.generation,
            old(self)@.state != DlpLinkState::Up ==> r == Err::<GdpPacket, Error>(Error::LinkDown) && final(self)@
                == old(self)@,
            old(self)@.state == DlpLinkState::Up ==> final(self)@.endpoint == spec_receive_frame(
                old(self)@.endpoint,
                frame@,
            ).0 && match spec_receive_frame(old(self)@.endpoint, frame@).1 {
                Ok(p) => r matches Ok(q) && q@ == p,
                Err(e) => r == Err::<GdpPacket, Error>(e),
            },
    {
        if let Err(e) = self.require_up() {
            return Err(e);
        }
        self.endpoint.receive_frame(frame)
    }

    /// `receiver` grants `count` flits of data credit to `sender`; both must
    /// be up and the receiver must have room for them.
    pub fn grant_peer_data_credit(receiver: &mut Self, sender: &mut Self, count: u32) -> (r: Result<()>)
        requires
            old(receiver).wf(),
            old(sender).wf(),
        ensures
            final(receiver).wf(),
            final(sender).wf(),
            ({
                let rv = old(receiver)@;
                let sv = old(sender)@;
                if rv.state != DlpLinkState::Up || sv.state != DlpLinkState::Up {
                    r == Err::<(), Error>(Error::LinkDown) && final(receiver)@ == rv && final(sender)@ == sv
                } else if count > spec_grantable(
                    rv.endpoint.rx_buffer_flits,
                    rv.endpoint.data_rx_in_use,
                    rv.endpoint.data_credit_outstanding,
                ) {
                    r == Err::<(), Error>(Error::BufferFull) && final(receiver)@ == rv && final(sender)@ == sv
                } else {
                    &&& r == Ok::<(), Error>(())
                    &&& final(receiver)@ == (DlpLinkView {
                        endpoint: DlpState {
                            data_credit_outstanding: (rv.endpoint.data_credit_outstanding + count) as u32,
                            ..rv.endpoint
                        },
                        ..rv
                    })
                    &&& final(sender)@ == (DlpLinkView {
                        endpoint: DlpState {
                            data_tx_credit: sat_add(sv.endpoint.data_tx_credit, count),
                            ..sv.endpoint
                        },
                        ..sv
                    })
                }
            }),
    {
        if let Err(e) = receiver.require_up() {
            return Err(e);
        }
        if let Err(e) = sender.require_up() {
            return Err(e);
        }
        if let Err(e) = receiver.endpoint.note_data_credit_granted(count) {
            return Err(e);
        }
        sender.endpoint.grant_data_tx_credit(count);
        Ok(())
    }

    /// The peer grants `count` flits of control credit to `sender`.
    pub fn grant_peer_control_credit(sender: &mut Self, count: u32) -> (r: Result<()>)
        requires
            old(sender).wf(),
        ensures
            final(sender).wf(),
            old(sender)@.state != DlpLinkState::Up ==> r == Err::<(), Error>(Error::LinkDown) && final(sender)@
                == old(sender)@,
            old(sender)@.state == DlpLinkState::Up ==> r == Ok::<(), Error>(()) && final(sender)@ == (
            DlpLinkView {
                endpoint: DlpState {
                    control_tx_credit: sat_add(old(sender)@.endpoint.control_tx_credit, count),
                    ..old(sender)@.endpoint
                },
                ..old(sender)@
            }),
    {
        if let Err(e) = sender.require_up() {
            return Err(e);
        }
        sender.endpoint.grant_control_tx_credit(count);
        Ok(())
    }
}

} // verus!

//! Typed-time scheduling for endpoints, and waker registration for async
//! integrations.

use vstd::prelude::*;

use std::task::Waker;

use crate::endpoint::{ENDPOINT_ROUTE_CAPACITY, Endpoint};
use crate::gts::DEFAULT_RTO_MS;
use crate::link::queue_flit_total;
use crate::routing::{count_expired, earliest_expiry, pruned};
use crate::time::{Duration, Instant, PollAt};

verus! {

/// `r` says when an endpoint with `queued` flits waiting and routes `slots`
/// must be polled next: at once while flits wait or a route has expired,
/// else at the earlier of the first route expiry and one retransmission
/// timeout from `now`.
pub open spec fn poll_due(r: PollAt, queued: nat, slots: Seq<Option<crate::routing::Route>>, now: Instant) -> bool {
    let deadline = if now.ms() + DEFAULT_RTO_MS > u64::MAX {
        u64::MAX as int
    } else {
        now.ms() + DEFAULT_RTO_MS
    };
    if queued != 0 {
        r == PollAt::Now
    } else {
        match earliest_expiry(slots, ENDPOINT_ROUTE_CAPACITY as int) {
            Some(expiry) => if expiry.ms() <= now.ms() {
                r == PollAt::Now
            } else if expiry.ms() < deadline {
                r == PollAt::Time(expiry)
            } else {
                r matches PollAt::Time(at) && at.ms() == deadline
            },
            None => r matches PollAt::Time(at) && at.ms() == deadline,
        }
    }
}

/// Flits waiting on both queues of the endpoint's link.
pub open spec fn endpoint_queued(e: &Endpoint) -> nat {
    queue_flit_total(e.spec_dlp().control_queue) + queue_flit_total(e.spec_dlp().data_queue)
}

/// Typed-time extension methods for endpoints.
pub trait EndpointRuntimeExt {
    /// The endpoint is in a state these methods accept.
    spec fn runtime_ready(&self) -> bool;

    /// Housekeeping at `now`; returns how much work was done.
    fn tick_at(&mut self, now: Instant) -> (r: usize)
        requires
            old(self).runtime_ready(),
        ensures
            final(self).runtime_ready(),
    ;

    /// When the endpoint must be polled next.
    fn poll_at(&self, now: Instant) -> PollAt
        requires
            self.runtime_ready(),
    ;

    /// Delay from `now` until the next poll.
    fn poll_delay(&self, now: Instant) -> Option<Duration>
        requires
            self.runtime_ready(),
    ;
}

impl EndpointRuntimeExt for Endpoint {
    open spec fn runtime_ready(&self) -> bool {
        self.wf() && endpoint_queued(self) <= usize::MAX
    }

    /// Prunes expired routes and returns how many went. This endpoint keeps
    /// no tunnel state, so there is no transport work besides.
    fn tick_at(&mut self, now: Instant) -> (r: usize)
        ensures
            r == count_expired(old(self).route_slots(), ENDPOINT_ROUTE_CAPACITY as int, now),
            final(self).route_slots() == pruned(old(self).route_slots(), now),
            final(self).spec_dlp() == old(self).spec_dlp(),
            final(self).spec_address() == old(self).spec_address(),
    {
        let routes = self.routes_mut();
        routes.prune_expired(now)
    }

    fn poll_at(&self, now: Instant) -> (r: PollAt)
        ensures
            poll_due(r, endpoint_queued(self), self.route_slots(), now),
    {
        if self.dlp().queued_flits() != 0 {
            return PollAt::Now;
        }
        let transport_deadline = now.add(Duration::from_millis(DEFAULT_RTO_MS));
        match self.routes().next_expiry() {
            Some(expiry) => {
                if expiry.le(now) {
                    PollAt::Now
                } else if expiry.lt(transport_deadline) {
                    PollAt::Time(expiry)
                } else {
                    PollAt::Time(transport_deadline)
                }
            },
            None => PollAt::Time(transport_deadline),
        }
    }

    fn poll_delay(&self, now: Instant) -> (r: Option<Duration>)
        ensures
            exists|p: PollAt|
                poll_due(p, endpoint_queued(self), self.route_slots(), now) && match p {
                    PollAt::Now => r is Some && r->0.ms() == 0,
                    PollAt::Time(at) => r is Some && r->0.ms() == (if at.ms() >= now.ms() {
                        at.ms() - now.ms()
                    } else {
                        0
                    }),
                    PollAt::Ingress => r is None,
                },
    {
        let p = self.poll_at(now);
        let r = p.delay_from(now);
        assert(poll_due(p, endpoint_queued(self), self.route_slots(), now));
        r
    }
}

/// `std::task::Waker`, held opaquely.
#[verifier::external_type_specification]
#[verifier::external_body]
pub struct ExWaker(Waker);

/// `std::task::Waker::will_wake`: whether two wakers would wake the same
/// task. Its answer rests on the wakers' data pointers and vtables, so
/// nothing is stated of it.
#[verifier::external_body]
fn will_wake(current: &Waker, other: &Waker) -> (r: bool) {
    current.will_wake(other)
}

/// `<std::task::Waker as Clone>::clone`: a waker for the same task.
#[verifier::external_body]
fn clone_waker(w: &Waker) -> (r: Waker) {
    w.clone()
}

/// `std::task::Waker::wake`: wakes the task, consuming the waker.
#[verifier::external_body]
fn wake_waker(w: Waker) {
    w.wake()
}

/// One registered waker, woken at most once.
#[derive(Debug, Default)]
pub struct WakerRegistration {
    waker: Option<Waker>,
}

impl WakerRegistration {
    /// Whether a waker is registered.
    pub closed spec fn registered(&self) -> bool {
        self.waker is Some
    }

    pub fn new() -> (r: Self)
        ensures
            !r.registered(),
    {
        WakerRegistration { waker: None }
    }

    /// Registers `waker`, keeping the current one when it wakes the same task.
    pub fn register(&mut self, waker: &Waker)
        ensures
            final(self).registered(),
    {
        if let Some(old) = &self.waker {
            if will_wake(old, waker) {
                return;
            }
        }
        self.waker = Some(clone_waker(waker));
    }

    /// Wakes and forgets the registered waker, if any.
    pub fn wake(&mut self)
        ensures
            !final(self).registered(),
    {
        if let Some(w) = self.waker.take() {
            wake_waker(w);
        }
    }

    /// Forgets the registered waker without waking it.
    pub fn clear(&mut self)
        ensures
            !final(self).registered(),
    {
        self.waker = None;
    }
}

} // verus!

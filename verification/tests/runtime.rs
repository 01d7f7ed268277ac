use std::sync::atomic::{AtomicUsize, Ordering};
use std::sync::Arc;
use std::task::{Wake, Waker};

use smolgnet::endpoint::{Endpoint, EndpointConfig};
use smolgnet::gts::DEFAULT_RTO_MS;
use smolgnet::routing::{GdpPrefix, Route};
use smolgnet::runtime::{EndpointRuntimeExt, WakerRegistration};
use smolgnet::time::{Duration, Instant, PollAt};
use smolgnet::wire::gdp::GdpAddress;

#[test]
fn idle_endpoint_has_conservative_timer_deadline() {
    let ep = Endpoint::new(GdpAddress(1), EndpointConfig::new(128)).unwrap();
    let now = Instant::from_millis(1000);
    assert_eq!(ep.poll_delay(now), Some(Duration::from_millis(DEFAULT_RTO_MS)));
}

#[test]
fn route_expiry_preempts_transport_timer_and_tick_prunes_it() {
    let mut ep = Endpoint::new(GdpAddress(1), EndpointConfig::new(128)).unwrap();
    let mut route = Route::new(GdpPrefix::new(GdpAddress(0x1234_0000_0000_0000), 16).unwrap(), GdpAddress(2));
    route.expires_at = Some(Instant::from_millis(1250));
    ep.routes_mut().add(route).unwrap();

    let now = Instant::from_millis(1000);
    assert_eq!(ep.poll_at(now), PollAt::Time(Instant::from_millis(1250)));
    assert_eq!(ep.poll_delay(now), Some(Duration::from_millis(250)));
    assert_eq!(ep.poll_at(Instant::from_millis(1250)), PollAt::Now);

    assert_eq!(ep.tick_at(Instant::from_millis(1251)), 1);
    assert!(ep.routes().is_empty());
    assert_eq!(ep.poll_delay(Instant::from_millis(1251)), Some(Duration::from_millis(DEFAULT_RTO_MS)));
}

struct Counter(AtomicUsize);

impl Wake for Counter {
    fn wake(self: Arc<Self>) {
        self.0.fetch_add(1, Ordering::SeqCst);
    }
}

#[test]
fn waker_registration_is_one_shot_and_wakes() {
    let counter = Arc::new(Counter(AtomicUsize::new(0)));
    let waker = Waker::from(counter.clone());
    let mut reg = WakerRegistration::new();
    reg.register(&waker);
    reg.register(&waker);
    reg.wake();
    assert_eq!(counter.0.load(Ordering::SeqCst), 1);
    reg.wake();
    assert_eq!(counter.0.load(Ordering::SeqCst), 1);
}

#[test]
fn cleared_registration_does_not_wake() {
    let counter = Arc::new(Counter(AtomicUsize::new(0)));
    let waker = Waker::from(counter.clone());
    let mut reg = WakerRegistration::new();
    reg.register(&waker);
    reg.clear();
    reg.wake();
    assert_eq!(counter.0.load(Ordering::SeqCst), 0);
}

#[test]
fn deadline_saturates_at_the_end_of_time() {
    let ep = Endpoint::new(GdpAddress(1), EndpointConfig::new(128)).unwrap();
    let late = Instant::from_millis(u64::MAX - 10);
    assert_eq!(ep.poll_at(late), PollAt::Time(Instant::from_millis(u64::MAX)));
    assert_eq!(ep.poll_delay(late), Some(Duration::from_millis(10)));
}

use vstd::prelude::*;

verus! {

/// A point in time, in milliseconds since an arbitrary epoch.
#[derive(Debug, Clone, Copy, PartialEq, Eq, Structural, Hash)]
pub struct Instant(pub(crate) u64);

/// A span of time in milliseconds.
#[derive(Debug, Clone, Copy, PartialEq, Eq, Structural, Hash)]
pub struct Duration(pub(crate) u64);

impl Instant {
    /// The epoch.
    pub fn zero() -> (r: Self)
        ensures
            r.ms() == 0,
    {
        Instant(0)
    }

    /// Milliseconds since the epoch.
    pub closed spec fn ms(self) -> u64 {
        self.0
    }

    pub fn from_millis(millis: u64) -> (r: Self)
        ensures
            r.ms() == millis,
    {
        Instant(millis)
    }

    pub fn total_millis(self) -> (r: u64)
        ensures
            r == self.ms(),
    {
        self.0
    }

    /// Time elapsed since `earlier`, or zero when `earlier` is later.
    pub fn saturating_duration_since(self, earlier: Self) -> (d: Duration)
        ensures
            d.ms() == (if self.ms() >= earlier.ms() { self.ms() - earlier.ms() } else { 0 }),
    {
        Duration(self.0.saturating_sub(earlier.0))
    }

    /// `self + duration`, or `None` when the sum does not fit.
    pub fn checked_add(self, duration: Duration) -> (r: Option<Self>)
        ensures
            self.ms() + duration.ms() <= u64::MAX ==> r is Some && r->0.ms() == self.ms() + duration.ms(),
            self.ms() + duration.ms() > u64::MAX ==> r is None,
    {
        match self.0.checked_add(duration.0) {
            Some(v) => Some(Instant(v)),
            None => None,
        }
    }

    /// Saturating `self + d`.
    pub fn add(self, d: Duration) -> (r: Instant)
        ensures
            r.ms() == (if self.ms() + d.ms() > u64::MAX { u64::MAX as int } else { self.ms() + d.ms() }),
    {
        Instant(self.0.saturating_add(d.0))
    }

    /// Saturating `self - d`.
    pub fn sub_duration(self, d: Duration) -> (r: Instant)
        ensures
            r.ms() == (if self.ms() >= d.ms() { self.ms() - d.ms() } else { 0 }),
    {
        Instant(self.0.saturating_sub(d.0))
    }

    /// Saturating difference of two instants.
    pub fn sub_instant(self, rhs: Instant) -> (r: Duration)
        ensures
            r.ms() == (if self.ms() >= rhs.ms() { self.ms() - rhs.ms() } else { 0 }),
    {
        Duration(self.0.saturating_sub(rhs.0))
    }

    pub fn le(self, other: Instant) -> (r: bool)
        ensures
            r == (self.ms() <= other.ms()),
    {
        self.0 <= other.0
    }

    pub fn lt(self, other: Instant) -> (r: bool)
        ensures
            r == (self.ms() < other.ms()),
    {
        self.0 < other.0
    }
}

impl Duration {
    /// Length in milliseconds.
    pub closed spec fn ms(self) -> u64 {
        self.0
    }

    pub fn zero() -> (r: Self)
        ensures
            r.ms() == 0,
    {
        Duration(0)
    }

    pub fn from_millis(millis: u64) -> (r: Self)
        ensures
            r.ms() == millis,
    {
        Duration(millis)
    }

    /// Seconds to milliseconds, saturating at `u64::MAX`.
    pub fn from_secs(seconds: u64) -> (r: Self)
        ensures
            r.ms() == (if seconds * 1000 > u64::MAX { u64::MAX as int } else { seconds * 1000 }),
    {
        if seconds > u64::MAX / 1000 {
            Duration(u64::MAX)
        } else {
            Duration(seconds * 1000)
        }
    }

    pub fn total_millis(self) -> (r: u64)
        ensures
            r == self.ms(),
    {
        self.0
    }

    pub fn total_secs(self) -> (r: u64)
        ensures
            r == self.ms() / 1000,
    {
        self.0 / 1000
    }
}

/// When an endpoint next needs to be polled.
#[derive(Debug, Clone, Copy, PartialEq, Eq, Structural)]
pub enum PollAt {
    Now,
    Time(Instant),
    Ingress,
}

impl PollAt {
    /// Delay from `now` until the poll is due; `None` when only ingress matters.
    pub fn delay_from(self, now: Instant) -> (r: Option<Duration>)
        ensures
            match self {
                PollAt::Now => r is Some && r->0.ms() == 0,
                PollAt::Time(at) => r is Some && r->0.ms() == (if at.ms() >= now.ms() { at.ms() - now.ms() } else { 0 }),
                PollAt::Ingress => r is None,
            },
    {
        match self {
            PollAt::Now => Some(Duration::zero()),
            PollAt::Time(at) => Some(at.saturating_duration_since(now)),
            PollAt::Ingress => None,
        }
    }
}

} // verus!

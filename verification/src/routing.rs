use vstd::prelude::*;

use crate::time::Instant;
use crate::wire::gdp::GdpAddress;

verus! {

/// A prefix length above 64 was given.
#[derive(Debug, Clone, Copy, PartialEq, Eq, Structural)]
pub struct PrefixLengthError;

impl PrefixLengthError {
    /// The message shown for this error.
    pub fn message(&self) -> (s: &'static str)
        ensures
            s@ == "GDP prefix length must be in 0..=64"@,
    {
        "GDP prefix length must be in 0..=64"
    }
}

/// Mask keeping the top `prefix_len` bits of an address.
pub open spec fn spec_route_mask(prefix_len: u8) -> u64 {
    if prefix_len == 0 {
        0
    } else {
        0xffff_ffff_ffff_ffffu64 << ((64 - prefix_len) as u64)
    }
}

fn prefix_mask(prefix_len: u8) -> (r: u64)
    requires
        prefix_len <= 64,
    ensures
        r == spec_route_mask(prefix_len),
{
    if prefix_len == 0 {
        0
    } else {
        let shift: u64 = (64 - prefix_len) as u64;
        0xffff_ffff_ffff_ffffu64 << shift
    }
}

/// Canonical GDP destination prefix.
///
/// Host bits are always cleared when the prefix is constructed.
#[derive(Debug, Clone, Copy, PartialEq, Eq, Structural, PartialOrd, Ord, Hash)]
pub struct GdpPrefix {
    network: GdpAddress,
    prefix_len: u8,
}

impl GdpPrefix {
    #[verifier::type_invariant]
    spec fn inv(self) -> bool {
        self.canonical()
    }

    /// Network address of the prefix.
    pub closed spec fn spec_network(self) -> GdpAddress {
        self.network
    }

    /// Length of the prefix in bits.
    pub closed spec fn spec_prefix_len(self) -> u8 {
        self.prefix_len
    }

    /// Prefixes with the same network and length are the same prefix.
    pub proof fn lemma_fields_determine(a: Self, b: Self)
        ensures
            a.spec_network() == b.spec_network() && a.spec_prefix_len() == b.spec_prefix_len() ==> a == b,
    {
    }

    /// Order of prefixes: by network address, then by length.
    pub open spec fn spec_lt(self, other: Self) -> bool {
        self.spec_network().0 < other.spec_network().0 || (self.spec_network().0 == other.spec_network().0
            && self.spec_prefix_len() < other.spec_prefix_len())
    }

    /// Whether `self` orders before `other`: by network address, then by
    /// length.
    pub fn precedes(self, other: Self) -> (r: bool)
        ensures
            r == self.spec_lt(other),
    {
        self.network.0 < other.network.0 || (self.network.0 == other.network.0 && self.prefix_len
            < other.prefix_len)
    }

    /// Network bits are canonical and the length is at most 64.
    pub open spec fn canonical(self) -> bool {
        &&& self.spec_prefix_len() <= 64
        &&& self.spec_network().0 & spec_route_mask(self.spec_prefix_len()) == self.spec_network().0
    }

    /// Whether `address` lies under the prefix.
    pub open spec fn spec_contains(self, address: GdpAddress) -> bool {
        (address.0 & spec_route_mask(self.spec_prefix_len())) == self.spec_network().0
    }

    /// The prefix of `address` of length `prefix_len`, host bits cleared.
    pub closed spec fn spec_new(address: GdpAddress, prefix_len: u8) -> Self {
        GdpPrefix { network: GdpAddress(address.0 & spec_route_mask(prefix_len)), prefix_len }
    }

    /// What `spec_new` builds, and that a canonical prefix is rebuilt from its parts.
    pub proof fn lemma_spec_new(address: GdpAddress, prefix_len: u8, p: Self)
        ensures
            Self::spec_new(address, prefix_len).spec_network().0 == address.0 & spec_route_mask(
                prefix_len,
            ),
            Self::spec_new(address, prefix_len).spec_prefix_len() == prefix_len,
            p.canonical() ==> Self::spec_new(p.spec_network(), p.spec_prefix_len()) == p,
    {
    }

    /// Two prefixes are equal when network and length are.
    pub proof fn lemma_eq(self, other: Self)
        ensures
            (self.spec_network() == other.spec_network() && self.spec_prefix_len()
                == other.spec_prefix_len()) <==> self == other,
    {
    }

    /// The prefix of `address` with the host bits cleared.
    pub fn new(address: GdpAddress, prefix_len: u8) -> (r: core::result::Result<
        Self,
        PrefixLengthError,
    >)
        ensures
            prefix_len > 64 ==> r is Err,
            prefix_len <= 64 ==> r is Ok && r->Ok_0 == Self::spec_new(address, prefix_len)
                && r->Ok_0.spec_prefix_len() == prefix_len
                && r->Ok_0.spec_network().0 == address.0 & spec_route_mask(prefix_len),
            r is Ok ==> r->Ok_0.canonical(),
    {
        if prefix_len > 64 {
            return Err(PrefixLengthError);
        }
        let mask = prefix_mask(prefix_len);
        proof {
            let a = address.0;
            let m = mask;
            assert((a & m) & m == a & m) by (bit_vector);
        }
        let network = GdpAddress(address.0 & mask);
        proof {
            assert((GdpPrefix { network, prefix_len }).canonical());
        }
        Ok(GdpPrefix { network, prefix_len })
    }

    /// Network address of the prefix; every prefix is canonical.
    pub fn network(self) -> (r: GdpAddress)
        ensures
            r == self.spec_network(),
            self.canonical(),
    {
        proof {
            use_type_invariant(&self);
        }
        self.network
    }


    /// Length of the prefix in bits; every prefix is canonical.
    pub fn prefix_len(self) -> (r: u8)
        ensures
            r == self.spec_prefix_len(),
            self.canonical(),
    {
        proof {
            use_type_invariant(&self);
        }
        self.prefix_len
    }

    /// Whether `address` lies under the prefix.
    pub fn contains(self, address: GdpAddress) -> (r: bool)
        ensures
            r == self.spec_contains(address),
    {
        proof {
            use_type_invariant(&self);
        }
        let mask = prefix_mask(self.prefix_len);
        (address.0 & mask) == self.network.0
    }

    /// The `0/0` prefix.
    pub closed spec fn spec_default_route() -> Self {
        GdpPrefix { network: GdpAddress(0), prefix_len: 0 }
    }

    /// The default prefix has length zero and network zero.
    pub proof fn lemma_default_route()
        ensures
            Self::spec_default_route().spec_network().0 == 0,
            Self::spec_default_route().spec_prefix_len() == 0,
            Self::spec_default_route().canonical(),
    {
        assert(0u64 & 0u64 == 0u64) by (bit_vector);
    }

    /// The `0/0` prefix, which contains every address.
    pub fn default_route() -> (r: Self)
        ensures
            r == Self::spec_default_route(),
            r.spec_network().0 == 0,
            r.spec_prefix_len() == 0,
            r.canonical(),
    {
        proof {
            assert(0u64 & 0u64 == 0u64) by (bit_vector);
        }
        GdpPrefix { network: GdpAddress(0), prefix_len: 0 }
    }
}

/// Stable index identifying a native GNet router interface/link.
#[derive(Debug, Clone, Copy, PartialEq, Eq, Structural, PartialOrd, Ord, Hash)]
pub struct InterfaceHandle(pub u16);

#[derive(Debug, Clone, Copy, PartialEq, Eq, Structural)]
pub enum RouteOrigin {
    Connected,
    Static,
    Dynamic(u16),
}

/// One RIB/FIB entry.
///
/// `next_hop == None` means the destination is directly reachable on the
/// selected interface. Otherwise the frame is sent toward the named GDP router.
#[derive(Debug, Clone, Copy, PartialEq, Eq, Structural)]
pub struct Route {
    pub prefix: GdpPrefix,
    pub next_hop: Option<GdpAddress>,
    pub interface: InterfaceHandle,
    pub origin: RouteOrigin,
    /// Lower values are preferred among routes with the same prefix length.
    pub preference: u16,
    /// Lower values are preferred after administrative preference.
    pub metric: u32,
    /// `None` means preferred forever. A deprecated route remains usable until
    /// expiry, but loses to an otherwise-equivalent preferred route.
    pub preferred_until: Option<Instant>,
    /// `None` means the route never expires.
    pub expires_at: Option<Instant>,
}

/// A static route with preference 100 and no lifetime limits.
pub open spec fn static_route(prefix: GdpPrefix, next_hop: GdpAddress, interface: InterfaceHandle) -> Route {
    Route {
        prefix,
        next_hop: Some(next_hop),
        interface,
        origin: RouteOrigin::Static,
        preference: 100,
        metric: 0,
        preferred_until: None,
        expires_at: None,
    }
}

/// The route has passed its expiry at `now`.
pub open spec fn route_expired(r: Route, now: Instant) -> bool {
    match r.expires_at {
        Some(e) => now.ms() > e.ms(),
        None => false,
    }
}

/// The route is not deprecated at `now`.
pub open spec fn route_preferred(r: Route, now: Instant) -> bool {
    match r.preferred_until {
        Some(u) => !(now.ms() > u.ms()),
        None => true,
    }
}

impl Route {
    /// A directly connected route.
    pub fn connected(prefix: GdpPrefix, interface: InterfaceHandle) -> (r: Self)
        ensures
            r == (Route {
                prefix,
                next_hop: None,
                interface,
                origin: RouteOrigin::Connected,
                preference: 0,
                metric: 0,
                preferred_until: None,
                expires_at: None,
            }),
    {
        Route {
            prefix,
            next_hop: None,
            interface,
            origin: RouteOrigin::Connected,
            preference: 0,
            metric: 0,
            preferred_until: None,
            expires_at: None,
        }
    }

    /// A static route toward `next_hop`.
    pub fn static_via(prefix: GdpPrefix, next_hop: GdpAddress, interface: InterfaceHandle) -> (r:
        Self)
        ensures
            r == static_route(prefix, next_hop, interface),
    {
        Route {
            prefix,
            next_hop: Some(next_hop),
            interface,
            origin: RouteOrigin::Static,
            preference: 100,
            metric: 0,
            preferred_until: None,
            expires_at: None,
        }
    }

    /// A static route toward `next_hop` on the endpoint's single interface.
    pub fn new(prefix: GdpPrefix, next_hop: GdpAddress) -> (r: Self)
        ensures
            r == static_route(prefix, next_hop, InterfaceHandle(0)),
    {
        Self::static_via(prefix, next_hop, InterfaceHandle(0))
    }

    /// The default static route toward `next_hop`.
    pub fn default_via(next_hop: GdpAddress, interface: InterfaceHandle) -> (r: Self)
        ensures
            r == static_route(GdpPrefix::spec_default_route(), next_hop, interface),
    {
        Self::static_via(GdpPrefix::default_route(), next_hop, interface)
    }

    pub fn is_expired(self, now: Instant) -> (r: bool)
        ensures
            r == route_expired(self, now),
    {
        match self.expires_at {
            Some(expires_at) => expires_at.lt(now),
            None => false,
        }
    }

    pub fn is_preferred(self, now: Instant) -> (r: bool)
        ensures
            r == route_preferred(self, now),
    {
        match self.preferred_until {
            Some(until) => !until.lt(now),
            None => true,
        }
    }
}

#[derive(Debug, Clone, Copy, PartialEq, Eq, Structural)]
pub struct RouteTableFull;

impl RouteTableFull {
    /// The message shown for this error.
    pub fn message(&self) -> (s: &'static str)
        ensures
            s@ == "route table full"@,
    {
        "route table full"
    }
}

/// `candidate` beats `current`: longer prefix, then not deprecated, then lower
/// preference, then lower metric, then lower interface handle.
pub open spec fn route_better(candidate: Route, current: Route, now: Instant) -> bool {
    let (cl, ul) = (candidate.prefix.spec_prefix_len(), current.prefix.spec_prefix_len());
    let (cp, up) = (route_preferred(candidate, now), route_preferred(current, now));
    ||| cl > ul
    ||| cl == ul && (
        (cp && !up)
        || (cp == up && (
            candidate.preference < current.preference
            || (candidate.preference == current.preference && (
                candidate.metric < current.metric
                || (candidate.metric == current.metric
                    && candidate.interface.0 < current.interface.0)
            ))
        ))
    )
}

/// `route_better` is a strict weak order.
pub proof fn lemma_route_better_order(a: Route, b: Route, c: Route, now: Instant)
    ensures
        !route_better(a, a, now),
        route_better(a, b, now) ==> !route_better(b, a, now),
        route_better(a, b, now) && route_better(b, c, now) ==> route_better(a, c, now),
        !route_better(a, b, now) && route_better(c, b, now) ==> route_better(c, a, now),
{
}

fn route_is_better(candidate: Route, current: Route, now: Instant) -> (r: bool)
    ensures
        r == route_better(candidate, current, now),
{
    let cl = candidate.prefix.prefix_len();
    let ul = current.prefix.prefix_len();
    if cl != ul {
        return cl > ul;
    }
    let cp = candidate.is_preferred(now);
    let up = current.is_preferred(now);
    if cp != up {
        return cp;
    }
    if candidate.preference != current.preference {
        return candidate.preference < current.preference;
    }
    if candidate.metric != current.metric {
        return candidate.metric < current.metric;
    }
    candidate.interface.0 < current.interface.0
}

/// Number of occupied slots.
pub open spec fn count_some(s: Seq<Option<Route>>) -> nat
    decreases s.len(),
{
    if s.len() == 0 {
        0
    } else {
        count_some(s.drop_last()) + if s.last() is Some {
            1nat
        } else {
            0nat
        }
    }
}

pub proof fn lemma_count_some_bound(s: Seq<Option<Route>>)
    ensures
        count_some(s) <= s.len(),
    decreases s.len(),
{
    if s.len() > 0 {
        lemma_count_some_bound(s.drop_last());
    }
}

pub proof fn lemma_count_some_update(s: Seq<Option<Route>>, i: int, v: Option<Route>)
    requires
        0 <= i < s.len(),
    ensures
        count_some(s.update(i, v)) + (if s[i] is Some {
            1int
        } else {
            0int
        }) == count_some(s) + (if v is Some {
            1int
        } else {
            0int
        }),
    decreases s.len(),
{
    if i < s.len() - 1 {
        lemma_count_some_update(s.drop_last(), i, v);
        assert(s.update(i, v).drop_last() =~= s.drop_last().update(i, v));
    } else {
        assert(s.update(i, v).drop_last() =~= s.drop_last());
    }
}

/// Index of the first free slot at or after `i`, or the length.
pub open spec fn first_free(s: Seq<Option<Route>>, i: int) -> int
    decreases s.len() - i,
{
    if i >= s.len() || i < 0 {
        s.len() as int
    } else if s[i] is None {
        i
    } else {
        first_free(s, i + 1)
    }
}

/// A slot that `first_match` finds holds a matching route.
pub proof fn lemma_first_match_found(s: Seq<Option<Route>>, i: int, prefix: GdpPrefix, interface:
    InterfaceHandle)
    requires
        0 <= i,
    ensures
        first_match(s, i, prefix, interface) < s.len() ==> s[first_match(s, i, prefix, interface)] is Some
            && s[first_match(s, i, prefix, interface)]->0.prefix == prefix
            && s[first_match(s, i, prefix, interface)]->0.interface == interface,
        i <= first_match(s, i, prefix, interface) <= s.len() || i > s.len(),
    decreases s.len() - i,
{
    if i < s.len() && !(s[i] is Some && s[i]->0.prefix == prefix && s[i]->0.interface == interface) {
        lemma_first_match_found(s, i + 1, prefix, interface);
    }
}

/// A free slot at `k` means the first free slot lies in bounds.
pub proof fn lemma_first_free_finds(s: Seq<Option<Route>>, k: int)
    requires
        0 <= k < s.len(),
        s[k] is None,
    ensures
        first_free(s, 0) <= k,
{
    lemma_first_free_from(s, 0, k);
}

proof fn lemma_first_free_from(s: Seq<Option<Route>>, i: int, k: int)
    requires
        0 <= i <= k < s.len(),
        s[k] is None,
    ensures
        first_free(s, i) <= k,
    decreases k - i,
{
    if i < k && s[i] is Some {
        lemma_first_free_from(s, i + 1, k);
    }
}

/// Index of the first slot at or after `i` holding a route for `prefix` on
/// `interface`, or the length.
pub open spec fn first_match(s: Seq<Option<Route>>, i: int, prefix: GdpPrefix, interface:
    InterfaceHandle) -> int
    decreases s.len() - i,
{
    if i >= s.len() || i < 0 {
        s.len() as int
    } else if s[i] is Some && s[i]->0.prefix == prefix && s[i]->0.interface == interface {
        i
    } else {
        first_match(s, i + 1, prefix, interface)
    }
}

/// Slots after storing `route` in the first free one, or `None` when full.
pub open spec fn slots_after_add(s: Seq<Option<Route>>, route: Route) -> Option<Seq<Option<Route>>> {
    let k = first_free(s, 0);
    if k < s.len() {
        Some(s.update(k, Some(route)))
    } else {
        None
    }
}

/// Slots after removing the first route for `prefix` on `interface`.
pub open spec fn slots_after_remove(s: Seq<Option<Route>>, prefix: GdpPrefix, interface: InterfaceHandle) -> Seq<Option<Route>> {
    let k = first_match(s, 0, prefix, interface);
    if k < s.len() {
        s.update(k, None)
    } else {
        s
    }
}

/// The route that removal takes out, if any.
pub open spec fn removed_route(s: Seq<Option<Route>>, prefix: GdpPrefix, interface: InterfaceHandle) -> Option<Route> {
    let k = first_match(s, 0, prefix, interface);
    if k < s.len() {
        s[k]
    } else {
        None
    }
}

/// First default route for `interface` at or after slot `i`.
pub open spec fn first_default(s: Seq<Option<Route>>, i: int, interface: InterfaceHandle) -> Option<
    Route,
>
    decreases s.len() - i,
{
    if i >= s.len() || i < 0 {
        None
    } else if s[i] is Some && s[i]->0.prefix.spec_prefix_len() == 0 && s[i]->0.interface
        == interface {
        s[i]
    } else {
        first_default(s, i + 1, interface)
    }
}

/// The route is live at `now` and covers `destination`.
pub open spec fn route_usable(r: Route, destination: GdpAddress, now: Instant) -> bool {
    !route_expired(r, now) && r.prefix.spec_contains(destination)
}

/// Best usable route of the first `i` slots; an earlier route keeps its place
/// unless a later one is strictly better.
pub open spec fn lookup_prefix(s: Seq<Option<Route>>, i: int, destination: GdpAddress, now: Instant) -> Option<
    Route,
>
    decreases i,
{
    if i <= 0 {
        None
    } else {
        let best = lookup_prefix(s, i - 1, destination, now);
        match s[i - 1] {
            Some(r) => if route_usable(r, destination, now) && (best is None || route_better(
                r,
                best->0,
                now,
            )) {
                Some(r)
            } else {
                best
            },
            None => best,
        }
    }
}

/// Number of expired routes among the first `i` slots.
pub open spec fn count_expired(s: Seq<Option<Route>>, i: int, now: Instant) -> nat
    decreases i,
{
    if i <= 0 {
        0
    } else {
        count_expired(s, i - 1, now) + if s[i - 1] is Some && route_expired(s[i - 1]->0, now) {
            1nat
        } else {
            0nat
        }
    }
}

/// The slots left after removing every route expired at `now`.
pub open spec fn pruned(s: Seq<Option<Route>>, now: Instant) -> Seq<Option<Route>> {
    s.map_values(
        |o: Option<Route>|
            if o is Some && route_expired(o->0, now) {
                None
            } else {
                o
            },
    )
}

/// Earliest expiry among the first `i` slots.
pub open spec fn earliest_expiry(s: Seq<Option<Route>>, i: int) -> Option<Instant>
    decreases i,
{
    if i <= 0 {
        None
    } else {
        let e = earliest_expiry(s, i - 1);
        match s[i - 1] {
            Some(r) => match r.expires_at {
                Some(x) => match e {
                    Some(y) => if x.ms() < y.ms() {
                        Some(x)
                    } else {
                        Some(y)
                    },
                    None => Some(x),
                },
                None => e,
            },
            None => e,
        }
    }
}

} // verus!

verus! {

/// Fixed-capacity routing table suitable for `no_std` routers and endpoints.
///
/// Lookup order is:
/// 1. longest destination prefix;
/// 2. non-deprecated route;
/// 3. lower administrative preference;
/// 4. lower metric;
/// 5. lower interface handle, for deterministic final tie-breaking.
#[derive(Debug, Clone)]
pub struct RouteTable<const N: usize> {
    routes: Vec<Option<Route>>,
    len: usize,
}

impl<const N: usize> RouteTable<N> {
    /// The slots of the table, `N` of them.
    pub closed spec fn slots(&self) -> Seq<Option<Route>> {
        self.routes@
    }

    /// The table's internal bookkeeping is consistent.
    pub closed spec fn wf(&self) -> bool {
        &&& self.routes@.len() == N
        &&& self.len == count_some(self.routes@)
    }

    /// A well-formed table has exactly `N` slots.
    pub proof fn lemma_len(&self)
        requires
            self.wf(),
        ensures
            self.slots().len() == N,
    {
    }

    /// An empty table with `N` slots.
    pub fn new() -> (r: Self)
        ensures
            r.wf(),
            r.slots() == Seq::new(N as nat, |_i: int| None::<Route>),
    {
        let mut routes: Vec<Option<Route>> = Vec::new();
        let mut i: usize = 0;
        while i < N
            invariant
                i <= N,
                routes@ == Seq::new(i as nat, |_j: int| None::<Route>),
                count_some(routes@) == 0,
            decreases N - i,
        {
            let ghost before = routes@;
            routes.push(None);
            proof {
                assert(routes@.drop_last() =~= before);
            }
            i = i + 1;
            assert(routes@ =~= Seq::new(i as nat, |_j: int| None::<Route>));
        }
        RouteTable { routes, len: 0 }
    }

    /// Number of routes held.
    pub fn len(&self) -> (r: usize)
        requires
            self.wf(),
        ensures
            r == count_some(self.slots()),
    {
        self.len
    }

    pub fn capacity(&self) -> (r: usize)
        ensures
            r == N,
    {
        N
    }

    pub fn is_empty(&self) -> (r: bool)
        requires
            self.wf(),
        ensures
            r == (count_some(self.slots()) == 0),
    {
        self.len == 0
    }

    /// Stores `route` in the first free slot.
    pub fn add(&mut self, route: Route) -> (r: core::result::Result<(), RouteTableFull>)
        requires
            old(self).wf(),
        ensures
            final(self).wf(),
            match slots_after_add(old(self).slots(), route) {
                Some(s) => r is Ok && final(self).slots() == s,
                None => r is Err && final(self).slots() == old(self).slots(),
            },
    {
        let mut i: usize = 0;
        while i < self.routes.len()
            invariant
                i <= self.routes@.len() == N,
                self.routes@ == old(self).routes@,
                self.len == old(self).len,
                self.len == count_some(self.routes@),
                first_free(self.routes@, 0) == first_free(self.routes@, i as int),
            decreases self.routes@.len() - i,
        {
            if self.routes[i].is_none() {
                proof {
                    lemma_count_some_update(self.routes@, i as int, Some(route));
                    lemma_count_some_bound(self.routes@.update(i as int, Some(route)));
                }
                self.routes.set(i, Some(route));
                self.len = self.len + 1;
                return Ok(());
            }
            i = i + 1;
        }
        Err(RouteTableFull)
    }

    /// Removes the first route for `prefix` on `interface`.
    pub fn remove(&mut self, prefix: GdpPrefix, interface: InterfaceHandle) -> (r: Option<Route>)
        requires
            old(self).wf(),
        ensures
            final(self).wf(),
            r == removed_route(old(self).slots(), prefix, interface),
            final(self).slots() == slots_after_remove(old(self).slots(), prefix, interface),
    {
        let mut i: usize = 0;
        while i < self.routes.len()
            invariant
                i <= self.routes@.len() == N,
                self.routes@ == old(self).routes@,
                self.len == old(self).len,
                self.len == count_some(self.routes@),
                first_match(self.routes@, 0, prefix, interface) == first_match(
                    self.routes@,
                    i as int,
                    prefix,
                    interface,
                ),
            decreases self.routes@.len() - i,
        {
            match self.routes[i] {
                Some(route) => {
                    if route.prefix == prefix && route.interface == interface {
                        proof {
                            lemma_count_some_update(self.routes@, i as int, None);
                        }
                        self.routes.set(i, None);
                        self.len = self.len - 1;
                        return Some(route);
                    }
                },
                None => {},
            }
            i = i + 1;
        }
        None
    }

    /// Installs `Route::new(GdpPrefix::default_route(), next_hop)`.
    pub fn add_default_route(&mut self, next_hop: GdpAddress) -> (r: core::result::Result<
        (),
        RouteTableFull,
    >)
        requires
            old(self).wf(),
        ensures
            final(self).wf(),
            match slots_after_add(
                old(self).slots(),
                static_route(GdpPrefix::spec_default_route(), next_hop, InterfaceHandle(0)),
            ) {
                Some(s) => r is Ok && final(self).slots() == s,
                None => r is Err && final(self).slots() == old(self).slots(),
            },
    {
        let route = Route::new(GdpPrefix::default_route(), next_hop);
        self.add(route)
    }

    /// Replaces the default route of `interface`, giving back the old one.
    pub fn set_default(&mut self, next_hop: GdpAddress, interface: InterfaceHandle) -> (r:
        core::result::Result<Option<Route>, RouteTableFull>)
        requires
            old(self).wf(),
        ensures
            final(self).wf(),
            ({
                let d = GdpPrefix::spec_default_route();
                let s1 = slots_after_remove(old(self).slots(), d, interface);
                let route = static_route(d, next_hop, interface);
                match slots_after_add(s1, route) {
                    Some(s2) => r == Ok::<Option<Route>, RouteTableFull>(
                        removed_route(old(self).slots(), d, interface),
                    ) && final(self).slots() == s2,
                    None => r is Err && final(self).slots() == old(self).slots(),
                }
            }),
    {
        proof {
            lemma_first_match_found(old(self).slots(), 0, GdpPrefix::spec_default_route(), interface);
        }
        let old_route = self.remove(GdpPrefix::default_route(), interface);
        let ghost s1 = self.slots();
        match self.add(Route::default_via(next_hop, interface)) {
            Ok(()) => Ok(old_route),
            Err(err) => {
                match old_route {
                    Some(o) => {
                        proof {
                            let k = first_match(old(self).slots(), 0, GdpPrefix::spec_default_route(), interface);
                            lemma_first_free_finds(s1, k);
                        }
                        let _ = self.add(o);
                    },
                    None => {},
                }
                Err(err)
            },
        }
    }

    /// The first default route of `interface`.
    pub fn default_for_interface(&self, interface: InterfaceHandle) -> (r: Option<Route>)
        requires
            self.wf(),
        ensures
            r == first_default(self.slots(), 0, interface),
    {
        let mut i: usize = 0;
        while i < self.routes.len()
            invariant
                i <= self.routes@.len(),
                first_default(self.routes@, 0, interface) == first_default(
                    self.routes@,
                    i as int,
                    interface,
                ),
            decreases self.routes@.len() - i,
        {
            match self.routes[i] {
                Some(route) => {
                    if route.prefix.prefix_len() == 0 && route.interface == interface {
                        return Some(route);
                    }
                },
                None => {},
            }
            i = i + 1;
        }
        None
    }

    /// Best live route covering `destination` at `now`.
    pub fn lookup(&self, destination: GdpAddress, now: Instant) -> (r: Option<Route>)
        requires
            self.wf(),
        ensures
            r == lookup_prefix(self.slots(), N as int, destination, now),
    {
        let mut best: Option<Route> = None;
        let mut i: usize = 0;
        while i < self.routes.len()
            invariant
                i <= self.routes@.len() == N,
                best == lookup_prefix(self.routes@, i as int, destination, now),
            decreases self.routes@.len() - i,
        {
            match self.routes[i] {
                Some(route) => {
                    if !route.is_expired(now) && route.prefix.contains(destination) {
                        let take = match best {
                            None => true,
                            Some(current) => route_is_better(route, current, now),
                        };
                        if take {
                            best = Some(route);
                        }
                    }
                },
                None => {},
            }
            i = i + 1;
        }
        best
    }

    /// Removes every route expired at `now`; returns how many were removed.
    pub fn prune_expired(&mut self, now: Instant) -> (r: usize)
        requires
            old(self).wf(),
        ensures
            final(self).wf(),
            final(self).slots() == pruned(old(self).slots(), now),
            r == count_expired(old(self).slots(), N as int, now),
    {
        let mut removed: usize = 0;
        let mut i: usize = 0;
        while i < self.routes.len()
            invariant
                i <= self.routes@.len() == N,
                old(self).routes@.len() == N,
                self.len == count_some(self.routes@),
                forall|j: int|
                    0 <= j < i ==> self.routes@[j] == pruned(old(self).routes@, now)[j],
                forall|j: int| i <= j < N ==> self.routes@[j] == old(self).routes@[j],
                removed == count_expired(old(self).routes@, i as int, now),
                removed <= i,
            decreases self.routes@.len() - i,
        {
            let expired = match self.routes[i] {
                Some(route) => route.is_expired(now),
                None => false,
            };
            if expired {
                proof {
                    lemma_count_some_update(self.routes@, i as int, None);
                }
                self.routes.set(i, None);
                self.len = self.len - 1;
                removed = removed + 1;
            }
            i = i + 1;
        }
        assert(self.routes@ =~= pruned(old(self).routes@, now));
        removed
    }

    /// The earliest expiry among the routes, if any expires.
    pub fn next_expiry(&self) -> (r: Option<Instant>)
        requires
            self.wf(),
        ensures
            r == earliest_expiry(self.slots(), N as int),
    {
        let mut best: Option<Instant> = None;
        let mut i: usize = 0;
        while i < self.routes.len()
            invariant
                i <= self.routes@.len() == N,
                best == earliest_expiry(self.routes@, i as int),
            decreases self.routes@.len() - i,
        {
            match self.routes[i] {
                Some(route) => match route.expires_at {
                    Some(x) => {
                        best = match best {
                            Some(y) => if x.lt(y) {
                                Some(x)
                            } else {
                                Some(y)
                            },
                            None => Some(x),
                        };
                    },
                    None => {},
                },
                None => {},
            }
            i = i + 1;
        }
        best
    }
}

} // verus!

verus! {

/// A lookup returns a live route covering the destination that no other live
/// covering route beats, and returns nothing only when no such route exists.
pub proof fn law_lookup_is_best(s: Seq<Option<Route>>, n: int, destination: GdpAddress, now: Instant)
    requires
        0 <= n <= s.len(),
    ensures
        match lookup_prefix(s, n, destination, now) {
            None => forall|j: int|
                0 <= j < n ==> !(#[trigger] s[j] is Some && route_usable(s[j]->0, destination, now)),
            Some(r) => {
                &&& route_usable(r, destination, now)
                &&& exists|j: int| 0 <= j < n && s[j] == Some(r)
                &&& forall|j: int|
                    0 <= j < n && #[trigger] s[j] is Some && route_usable(s[j]->0, destination, now)
                        ==> !route_better(s[j]->0, r, now)
            },
        },
    decreases n,
{
    if n > 0 {
        law_lookup_is_best(s, n - 1, destination, now);
        let best = lookup_prefix(s, n - 1, destination, now);
        match s[n - 1] {
            Some(r) => {
                if route_usable(r, destination, now) && (best is None || route_better(r, best->0, now)) {
                    assert forall|j: int|
                        0 <= j < n && #[trigger] s[j] is Some && route_usable(s[j]->0, destination, now)
                        implies !route_better(s[j]->0, r, now) by {
                        if j < n - 1 {
                            lemma_route_better_order(s[j]->0, best->0, r, now);
                        } else {
                            lemma_route_better_order(r, r, r, now);
                        }
                    }
                } else if best is Some {
                    let b = best->0;
                    assert forall|j: int|
                        0 <= j < n && #[trigger] s[j] is Some && route_usable(s[j]->0, destination, now)
                        implies !route_better(s[j]->0, b, now) by {
                    }
                }
            },
            None => {},
        }
    }
}

} // verus!

verus! {

/// What a lookup prefers, key by key: among the live routes covering the
/// destination, the one returned has the longest prefix; among equally long
/// prefixes it is not deprecated if any is not; then its administrative
/// preference is lowest, then its metric, then its interface handle.
pub proof fn law_lookup_prefers(
    s: Seq<Option<Route>>,
    n: int,
    destination: GdpAddress,
    now: Instant,
    j: int,
)
    requires
        0 <= n <= s.len(),
        0 <= j < n,
        s[j] is Some,
        route_usable(s[j]->0, destination, now),
    ensures
        lookup_prefix(s, n, destination, now) is Some,
        ({
            let r = lookup_prefix(s, n, destination, now)->0;
            let c = s[j]->0;
            let same_len = c.prefix.spec_prefix_len() == r.prefix.spec_prefix_len();
            let same_pref = route_preferred(c, now) == route_preferred(r, now);
            &&& c.prefix.spec_prefix_len() <= r.prefix.spec_prefix_len()
            &&& same_len && route_preferred(c, now) ==> route_preferred(r, now)
            &&& same_len && same_pref ==> r.preference <= c.preference
            &&& same_len && same_pref && r.preference == c.preference ==> r.metric <= c.metric
            &&& same_len && same_pref && r.preference == c.preference && r.metric == c.metric
                ==> r.interface.0 <= c.interface.0
        }),
{
    law_lookup_is_best(s, n, destination, now);
}

} // verus!

verus! {

/// Comparing two routes directly: with the earlier keys tied, a route with a
/// strictly lower preference, metric or interface handle is the better one.
pub proof fn law_route_better_keys(a: Route, b: Route, now: Instant)
    ensures
        a.prefix.spec_prefix_len() > b.prefix.spec_prefix_len() ==> route_better(a, b, now),
        a.prefix.spec_prefix_len() == b.prefix.spec_prefix_len() && route_preferred(a, now)
            && !route_preferred(b, now) ==> route_better(a, b, now),
        a.prefix.spec_prefix_len() == b.prefix.spec_prefix_len() && route_preferred(a, now)
            == route_preferred(b, now) ==> {
            &&& a.preference < b.preference ==> route_better(a, b, now)
            &&& a.preference == b.preference && a.metric < b.metric ==> route_better(a, b, now)
            &&& a.preference == b.preference && a.metric == b.metric && a.interface.0 < b.interface.0
                ==> route_better(a, b, now)
        },
{
}

} // verus!

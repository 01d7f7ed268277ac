//! The routing information base of a dynamic router: connected, static and
//! learned routes, best-route selection per prefix, and the advertisements
//! and withdrawals sent to neighbors.

use vstd::prelude::*;

use crate::dynamic_routing::{RouteMetric, RouteOrigin, RouterId};
use crate::error::{Error, Result};
use crate::routing::GdpPrefix;
use crate::wire::gctl_routing::{RouteAdvertise, RouteWithdraw};

verus! {

pub type RoutingPortId = u16;

/// One route known to the RIB.
#[derive(Debug, Clone, Copy, PartialEq, Eq, Structural)]
pub struct RibRoute {
    pub prefix: GdpPrefix,
    pub egress_port: RoutingPortId,
    pub origin: RouteOrigin,
    pub metric: RouteMetric,
    pub learned_from: Option<RouterId>,
}

/// The route selected for a prefix.
#[derive(Debug, Clone, Copy, PartialEq, Eq, Structural)]
pub struct SelectedRoute {
    pub prefix: GdpPrefix,
    pub egress_port: RoutingPortId,
    pub origin: RouteOrigin,
    pub metric: RouteMetric,
    pub learned_from: Option<RouterId>,
}

/// One message of a routing update.
#[derive(Debug, Clone, Copy, PartialEq, Eq, Structural)]
pub enum RouteUpdate {
    Advertise(RouteAdvertise),
    Withdraw(RouteWithdraw),
}

/// The selected form of a route.
pub open spec fn selected_of(route: RibRoute) -> SelectedRoute {
    SelectedRoute {
        prefix: route.prefix,
        egress_port: route.egress_port,
        origin: route.origin,
        metric: route.metric,
        learned_from: route.learned_from,
    }
}

impl From<RibRoute> for SelectedRoute {
    fn from(route: RibRoute) -> (r: Self) {
        SelectedRoute {
            prefix: route.prefix,
            egress_port: route.egress_port,
            origin: route.origin,
            metric: route.metric,
            learned_from: route.learned_from,
        }
    }
}

impl vstd::std_specs::convert::FromSpecImpl<RibRoute> for SelectedRoute {
    open spec fn obeys_from_spec() -> bool {
        true
    }

    open spec fn from_spec(route: RibRoute) -> SelectedRoute {
        selected_of(route)
    }
}

/// `candidate` beats `current` for the same prefix: lower administrative
/// preference of its origin, then lower metric, then a lower neighbor id,
/// and a route of this router beats a learned one.
pub open spec fn rib_better(candidate: RibRoute, current: RibRoute) -> bool {
    let cp = candidate.origin.spec_preference();
    let up = current.origin.spec_preference();
    if cp != up {
        cp < up
    } else if candidate.metric.0 != current.metric.0 {
        candidate.metric.0 < current.metric.0
    } else {
        match (candidate.learned_from, current.learned_from) {
            (Some(c), Some(u)) => c.0 < u.0,
            (None, Some(_)) => true,
            _ => false,
        }
    }
}

/// Best route for `p` among the first `n` routes; a later route takes over
/// only when it is better.
pub open spec fn best_upto(s: Seq<RibRoute>, p: GdpPrefix, n: int) -> Option<RibRoute>
    decreases n,
{
    if n <= 0 {
        None
    } else {
        let b = best_upto(s, p, n - 1);
        if s[n - 1].prefix == p {
            match b {
                None => Some(s[n - 1]),
                Some(cur) => if rib_better(s[n - 1], cur) {
                    Some(s[n - 1])
                } else {
                    b
                },
            }
        } else {
            b
        }
    }
}

/// Best route for `p`.
pub open spec fn best_for(s: Seq<RibRoute>, p: GdpPrefix) -> Option<RibRoute> {
    best_upto(s, p, s.len() as int)
}

/// Prefixes strictly increase along `v`.
pub open spec fn sorted_unique(v: Seq<GdpPrefix>) -> bool {
    forall|i: int, j: int| 0 <= i < j < v.len() ==> (#[trigger] v[i]).spec_lt(#[trigger] v[j])
}

/// The selected route of each prefix that some route covers, in prefix
/// order.
pub open spec fn selection(s: Seq<RibRoute>, r: Seq<SelectedRoute>) -> bool {
    &&& sorted_unique(r.map_values(|x: SelectedRoute| x.prefix))
    &&& forall|i: int|
        0 <= i < r.len() ==> #[trigger] best_for(s, r[i].prefix) is Some && selected_of(best_for(s, r[i].prefix)->0)
            == r[i]
    &&& forall|k: int| 0 <= k < s.len() ==> #[trigger] lists_prefix(r, s[k].prefix)
}

/// Some entry of `r` is for prefix `p`.
pub open spec fn lists_prefix(r: Seq<SelectedRoute>, p: GdpPrefix) -> bool {
    exists|i: int| 0 <= i < r.len() && r[i].prefix == p
}

/// Whether a selected route may be offered to `neighbor`: connected routes
/// always, learned ones except back to the router they came from, static and
/// escape routes never.
pub open spec fn advertisable(route: SelectedRoute, neighbor: RouterId) -> bool {
    match route.origin {
        RouteOrigin::Connected => true,
        RouteOrigin::Learned => route.learned_from != Some(neighbor),
        _ => false,
    }
}

/// The advertisement of `route` by `local` over a link of `outgoing` metric.
pub open spec fn advertisement_of(local: RouterId, route: SelectedRoute, outgoing: RouteMetric) -> RouteAdvertise {
    RouteAdvertise {
        advertiser: local,
        prefix: route.prefix,
        origin: route.origin,
        metric: RouteMetric(
            if route.metric.0 + outgoing.0 > u32::MAX {
                u32::MAX
            } else {
                (route.metric.0 + outgoing.0) as u32
            },
        ),
    }
}

/// A route of this router with the same prefix and origin as `route`.
pub open spec fn same_local(existing: RibRoute, route: RibRoute) -> bool {
    existing.prefix == route.prefix && existing.origin == route.origin && existing.learned_from is None
}

/// A route learned from `from` for `prefix`.
pub open spec fn learned_for(existing: RibRoute, prefix: GdpPrefix, from: RouterId) -> bool {
    existing.prefix == prefix && existing.origin == RouteOrigin::Learned && existing.learned_from == Some(from)
}

/// A route learned from `from`.
pub open spec fn learned_via(existing: RibRoute, from: RouterId) -> bool {
    existing.origin == RouteOrigin::Learned && existing.learned_from == Some(from)
}

/// Routes that survive a withdrawal of `prefix` by `from`.
pub open spec fn kept_after_withdrawal(prefix: GdpPrefix, from: RouterId) -> spec_fn(RibRoute) -> bool {
    |r: RibRoute| !learned_for(r, prefix, from)
}

/// Routes that survive losing neighbor `from`.
pub open spec fn kept_after_loss(from: RouterId) -> spec_fn(RibRoute) -> bool {
    |r: RibRoute| !learned_via(r, from)
}

/// `t` is `s` with `route` in place of the first entry `hit` accepts, or
/// with `route` appended when none does.
pub open spec fn replaced_or_pushed(s: Seq<RibRoute>, t: Seq<RibRoute>, route: RibRoute, hit: spec_fn(RibRoute) -> bool) -> bool {
    ||| (exists|i: int|
        0 <= i < s.len() && #[trigger] hit(s[i]) && (forall|j: int| 0 <= j < i ==> !hit(s[j])) && t == s.update(
            i,
            route,
        ))
    ||| (forall|j: int| 0 <= j < s.len() ==> !hit(s[j])) && t == s.push(route)
}

pub open spec fn local_hit(route: RibRoute) -> spec_fn(RibRoute) -> bool {
    |e: RibRoute| same_local(e, route)
}

pub open spec fn learned_hit(prefix: GdpPrefix, from: RouterId) -> spec_fn(RibRoute) -> bool {
    |e: RibRoute| learned_for(e, prefix, from)
}

/// The update for `p` that router `local` sends to `neighbor`: the
/// selected route when it may be offered, else a withdrawal.
pub open spec fn update_for(s: Seq<RibRoute>, local: RouterId, neighbor: RouterId, outgoing: RouteMetric, p: GdpPrefix) -> RouteUpdate {
    match best_for(s, p) {
        Some(b) => if advertisable(selected_of(b), neighbor) {
            RouteUpdate::Advertise(advertisement_of(local, selected_of(b), outgoing))
        } else {
            RouteUpdate::Withdraw(RouteWithdraw { advertiser: local, prefix: p })
        },
        None => RouteUpdate::Withdraw(RouteWithdraw { advertiser: local, prefix: p }),
    }
}

pub open spec fn advertisable_to(neighbor: RouterId) -> spec_fn(SelectedRoute) -> bool {
    |x: SelectedRoute| advertisable(x, neighbor)
}

pub open spec fn learned_only() -> spec_fn(SelectedRoute) -> bool {
    |x: SelectedRoute| x.origin == RouteOrigin::Learned
}

pub proof fn lemma_prefix_total(a: GdpPrefix, b: GdpPrefix)
    ensures
        a == b || a.spec_lt(b) || b.spec_lt(a),
{
    GdpPrefix::lemma_fields_determine(a, b);
}

proof fn lemma_best_upto(s: Seq<RibRoute>, p: GdpPrefix, n: int)
    requires
        0 <= n <= s.len(),
    ensures
        best_upto(s, p, n) is Some ==> best_upto(s, p, n)->0.prefix == p,
        (exists|k: int| 0 <= k < n && s[k].prefix == p) ==> best_upto(s, p, n) is Some,
    decreases n,
{
    if n > 0 {
        lemma_best_upto(s, p, n - 1);
        if exists|k: int| 0 <= k < n && s[k].prefix == p {
            let k = choose|k: int| 0 <= k < n && s[k].prefix == p;
            if k < n - 1 {
                assert(exists|k: int| 0 <= k < n - 1 && s[k].prefix == p);
            }
        }
    }
}

fn insert_prefix(v: &mut Vec<GdpPrefix>, p: GdpPrefix)
    requires
        sorted_unique(old(v)@),
    ensures
        sorted_unique(final(v)@),
        forall|q: GdpPrefix| #[trigger] final(v)@.contains(q) <==> (old(v)@.contains(q) || q == p),
{
    let mut i: usize = 0;
    while i < v.len() && v[i].precedes(p)
        invariant
            i <= v@.len(),
            v@ == old(v)@,
            forall|j: int| 0 <= j < i ==> (#[trigger] v@[j]).spec_lt(p),
        decreases v@.len() - i,
    {
        i = i + 1;
    }
    if i < v.len() && v[i] == p {
        return;
    }
    proof {
        if i < v@.len() {
            lemma_prefix_total(v@[i as int], p);
        }
    }
    let ghost s = v@;
    v.insert(i, p);
    proof {
        assert(v@ =~= s.insert(i as int, p));
        assert forall|a: int, b: int| 0 <= a < b < v@.len() implies (#[trigger] v@[a]).spec_lt(#[trigger] v@[b]) by {
            if b < i {
            } else if b == i {
            } else if a < i {
                assert(s[a].spec_lt(p));
                if b - 1 > i as int {
                    assert(s[i as int].spec_lt(s[b - 1]));
                }
            } else if a == i {
                if b - 1 > i as int {
                    assert(s[i as int].spec_lt(s[b - 1]));
                }
            } else {
                assert(s[a - 1].spec_lt(s[b - 1]));
            }
        }
        assert forall|q: GdpPrefix| #[trigger] v@.contains(q) <==> (s.contains(q) || q == p) by {
            if s.contains(q) {
                let k = choose|k: int| 0 <= k < s.len() && s[k] == q;
                if k < i {
                    assert(v@[k] == q);
                } else {
                    assert(v@[k + 1] == q);
                }
            }
            if q == p {
                assert(v@[i as int] == q);
            }
            if v@.contains(q) {
                let k = choose|k: int| 0 <= k < v@.len() && v@[k] == q;
                if k < i {
                    assert(s[k] == q);
                } else if k > i {
                    assert(s[k - 1] == q);
                }
            }
        }
    }
}

/// The routing information base.
#[derive(Debug, Clone)]
pub struct RouterRib {
    local_router_id: RouterId,
    routes: Vec<RibRoute>,
}

/// A RIB as plain values.
pub struct RouterRibView {
    pub local_router_id: RouterId,
    pub routes: Seq<RibRoute>,
}

impl View for RouterRib {
    type V = RouterRibView;

    closed spec fn view(&self) -> RouterRibView {
        RouterRibView { local_router_id: self.local_router_id, routes: self.routes@ }
    }
}

fn option_router_eq(a: Option<RouterId>, b: Option<RouterId>) -> (r: bool)
    ensures
        r == (a == b),
{
    match (a, b) {
        (Some(x), Some(y)) => x.0 == y.0,
        (None, None) => true,
        _ => false,
    }
}

fn route_better(candidate: RibRoute, current: RibRoute) -> (r: bool)
    ensures
        r == rib_better(candidate, current),
{
    let candidate_preference = candidate.origin.administrative_preference();
    let current_preference = current.origin.administrative_preference();
    if candidate_preference != current_preference {
        return candidate_preference < current_preference;
    }
    if candidate.metric.0 != current.metric.0 {
        return candidate.metric.0 < current.metric.0;
    }
    match (candidate.learned_from, current.learned_from) {
        (Some(c), Some(u)) => c.0 < u.0,
        (None, Some(_)) => true,
        _ => false,
    }
}

fn route_is_advertisable_to(route: SelectedRoute, neighbor: RouterId) -> (r: bool)
    ensures
        r == advertisable(route, neighbor),
{
    match route.origin {
        RouteOrigin::Connected => true,
        RouteOrigin::Learned => !option_router_eq(route.learned_from, Some(neighbor)),
        RouteOrigin::Static | RouteOrigin::Escape => false,
    }
}

impl RouterRib {
    /// An empty RIB of router `local_router_id`.
    pub fn new(local_router_id: RouterId) -> (r: Self)
        ensures
            r@.local_router_id == local_router_id,
            r@.routes == Seq::<RibRoute>::empty(),
    {
        RouterRib { local_router_id, routes: Vec::new() }
    }

    pub fn local_router_id(&self) -> (r: RouterId)
        ensures
            r == self@.local_router_id,
    {
        self.local_router_id
    }

    /// Every known route, in the order they were first added.
    pub fn routes(&self) -> (r: &[RibRoute])
        ensures
            r@ == self@.routes,
    {
        self.routes.as_slice()
    }

    fn replace_at_or_push(&mut self, found: Option<usize>, route: RibRoute)
        requires
            found matches Some(i) ==> i < old(self)@.routes.len(),
        ensures
            final(self)@.local_router_id == old(self)@.local_router_id,
            found matches Some(i) ==> final(self)@.routes == old(self)@.routes.update(i as int, route),
            found is None ==> final(self)@.routes == old(self)@.routes.push(route),
    {
        match found {
            Some(i) => {
                self.routes.set(i, route);
            },
            None => {
                self.routes.push(route);
            },
        }
    }

    fn upsert_local(&mut self, route: RibRoute)
        ensures
            final(self)@.local_router_id == old(self)@.local_router_id,
            replaced_or_pushed(old(self)@.routes, final(self)@.routes, route, local_hit(route)),
    {
        let ghost s = self.routes@;
        let mut found: Option<usize> = None;
        let mut i: usize = 0;
        while i < self.routes.len() && found.is_none()
            invariant
                i <= self.routes@.len(),
                s == self.routes@,
                found is None ==> forall|j: int| 0 <= j < i ==> !local_hit(route)(s[j]),
                found matches Some(k) ==> k < s.len() && local_hit(route)(s[k as int]) && forall|j: int|
                    0 <= j < k ==> !local_hit(route)(s[j]),
            decreases self.routes@.len() - i,
        {
            let e = self.routes[i];
            if e.prefix == route.prefix && e.origin == route.origin && e.learned_from.is_none() {
                found = Some(i);
            }
            i = i + 1;
        }
        self.replace_at_or_push(found, route);
    }

    /// Adds or refreshes a connected route on `egress_port`.
    pub fn add_connected(&mut self, prefix: GdpPrefix, egress_port: RoutingPortId)
        ensures
            final(self)@.local_router_id == old(self)@.local_router_id,
            ({
                let route = RibRoute {
                    prefix,
                    egress_port,
                    origin: RouteOrigin::Connected,
                    metric: RouteMetric(0),
                    learned_from: None,
                };
                replaced_or_pushed(old(self)@.routes, final(self)@.routes, route, local_hit(route))
            }),
    {
        self.upsert_local(
            RibRoute { prefix, egress_port, origin: RouteOrigin::Connected, metric: RouteMetric(0), learned_from: None },
        );
    }

    /// Adds or refreshes a static route on `egress_port`.
    pub fn add_static(&mut self, prefix: GdpPrefix, egress_port: RoutingPortId, metric: RouteMetric)
        ensures
            final(self)@.local_router_id == old(self)@.local_router_id,
            ({
                let route = RibRoute {
                    prefix,
                    egress_port,
                    origin: RouteOrigin::Static,
                    metric,
                    learned_from: None,
                };
                replaced_or_pushed(old(self)@.routes, final(self)@.routes, route, local_hit(route))
            }),
    {
        self.upsert_local(RibRoute { prefix, egress_port, origin: RouteOrigin::Static, metric, learned_from: None });
    }

    /// Learns the route a neighbor advertised, replacing what it said about
    /// the prefix before. Refused when the advertisement claims to come from
    /// this router, names another advertiser than the sender, or carries a
    /// static or escape origin.
    pub fn receive_advertisement(&mut self, from: RouterId, egress_port: RoutingPortId, advertisement: RouteAdvertise) -> (r:
        Result<()>)
        ensures
            final(self)@.local_router_id == old(self)@.local_router_id,
            from == old(self)@.local_router_id || advertisement.advertiser != from || advertisement.origin
                == RouteOrigin::Static || advertisement.origin == RouteOrigin::Escape ==> r == Err::<(), Error>(
                Error::InvalidField,
            ) && final(self)@ == old(self)@,
            !(from == old(self)@.local_router_id || advertisement.advertiser != from || advertisement.origin
                == RouteOrigin::Static || advertisement.origin == RouteOrigin::Escape) ==> r == Ok::<(), Error>(())
                && replaced_or_pushed(
                old(self)@.routes,
                final(self)@.routes,
                RibRoute {
                    prefix: advertisement.prefix,
                    egress_port,
                    origin: RouteOrigin::Learned,
                    metric: advertisement.metric,
                    learned_from: Some(from),
                },
                learned_hit(advertisement.prefix, from),
            ),
    {
        if from.0 == self.local_router_id.0 || advertisement.advertiser.0 != from.0 {
            return Err(Error::InvalidField);
        }
        match advertisement.origin {
            RouteOrigin::Static | RouteOrigin::Escape => return Err(Error::InvalidField),
            _ => {},
        }
        let route = RibRoute {
            prefix: advertisement.prefix,
            egress_port,
            origin: RouteOrigin::Learned,
            metric: advertisement.metric,
            learned_from: Some(from),
        };
        let ghost s = self.routes@;
        let ghost hit = learned_hit(advertisement.prefix, from);
        let mut found: Option<usize> = None;
        let mut i: usize = 0;
        while i < self.routes.len() && found.is_none()
            invariant
                i <= self.routes@.len(),
                s == self.routes@,
                hit == learned_hit(advertisement.prefix, from),
                found is None ==> forall|j: int| 0 <= j < i ==> !hit(s[j]),
                found matches Some(k) ==> k < s.len() && hit(s[k as int]) && forall|j: int| 0 <= j < k ==> !hit(s[j]),
            decreases self.routes@.len() - i,
        {
            let e = self.routes[i];
            if e.prefix == advertisement.prefix && e.origin == RouteOrigin::Learned && option_router_eq(
                e.learned_from,
                Some(from),
            ) {
                found = Some(i);
            }
            i = i + 1;
        }
        self.replace_at_or_push(found, route);
        Ok(())
    }

    /// Forgets what `from` advertised for a prefix; `true` when a route went.
    pub fn receive_withdrawal(&mut self, from: RouterId, withdrawal: RouteWithdraw) -> (r: Result<bool>)
        ensures
            final(self)@.local_router_id == old(self)@.local_router_id,
            from == old(self)@.local_router_id || withdrawal.advertiser != from ==> r == Err::<bool, Error>(
                Error::InvalidField,
            ) && final(self)@ == old(self)@,
            !(from == old(self)@.local_router_id || withdrawal.advertiser != from) ==> ({
                let kept = old(self)@.routes.filter(kept_after_withdrawal(withdrawal.prefix, from));
                &&& final(self)@.routes == kept
                &&& r == Ok::<bool, Error>(kept.len() != old(self)@.routes.len())
            }),
    {
        if from.0 == self.local_router_id.0 || withdrawal.advertiser.0 != from.0 {
            return Err(Error::InvalidField);
        }
        let before = self.routes.len();
        let ghost pred = kept_after_withdrawal(withdrawal.prefix, from);
        let ghost s = self.routes@;
        let mut kept: Vec<RibRoute> = Vec::new();
        let mut i: usize = 0;
        proof {
            reveal(Seq::filter);
            assert(s.take(0) =~= Seq::<RibRoute>::empty());
        }
        while i < self.routes.len()
            invariant
                i <= self.routes@.len(),
                s == self.routes@,
                pred == kept_after_withdrawal(withdrawal.prefix, from),
                kept@ == s.take(i as int).filter(pred),
            decreases self.routes@.len() - i,
        {
            let e = self.routes[i];
            proof {
                reveal(Seq::filter);
                assert(s.take(i + 1).drop_last() =~= s.take(i as int));
            }
            let hit = e.prefix == withdrawal.prefix && e.origin == RouteOrigin::Learned && option_router_eq(
                e.learned_from,
                Some(from),
            );
            if !hit {
                kept.push(e);
            }
            i = i + 1;
        }
        proof {
            assert(s.take(s.len() as int) =~= s);
            s.lemma_filter_len(pred);
        }
        self.routes = kept;
        Ok(self.routes.len() != before)
    }

    /// Forgets every route learned from `neighbor`; returns the prefixes
    /// that lost a route, in prefix order, each once.
    pub fn remove_learned_from(&mut self, neighbor: RouterId) -> (r: Vec<GdpPrefix>)
        ensures
            final(self)@.local_router_id == old(self)@.local_router_id,
            final(self)@.routes == old(self)@.routes.filter(kept_after_loss(neighbor)),
            sorted_unique(r@),
            forall|q: GdpPrefix|
                #[trigger] r@.contains(q) <==> exists|k: int|
                    0 <= k < old(self)@.routes.len() && learned_via(old(self)@.routes[k], neighbor)
                        && old(self)@.routes[k].prefix == q,
    {
        let ghost pred = kept_after_loss(neighbor);
        let ghost s = self.routes@;
        let mut kept: Vec<RibRoute> = Vec::new();
        let mut changed: Vec<GdpPrefix> = Vec::new();
        let mut i: usize = 0;
        proof {
            reveal(Seq::filter);
            assert(s.take(0) =~= Seq::<RibRoute>::empty());
        }
        while i < self.routes.len()
            invariant
                i <= self.routes@.len(),
                s == self.routes@,
                pred == kept_after_loss(neighbor),
                kept@ == s.take(i as int).filter(pred),
                sorted_unique(changed@),
                forall|q: GdpPrefix|
                    #[trigger] changed@.contains(q) <==> exists|k: int|
                        0 <= k < i && learned_via(s[k], neighbor) && s[k].prefix == q,
            decreases self.routes@.len() - i,
        {
            let e = self.routes[i];
            proof {
                reveal(Seq::filter);
                assert(s.take(i + 1).drop_last() =~= s.take(i as int));
            }
            let remove = e.origin == RouteOrigin::Learned && option_router_eq(e.learned_from, Some(neighbor));
            let ghost before = changed@;
            if remove {
                insert_prefix(&mut changed, e.prefix);
            } else {
                kept.push(e);
            }
            proof {
                assert forall|q: GdpPrefix| #[trigger] changed@.contains(q) <==> exists|k: int|
                    0 <= k < i + 1 && learned_via(s[k], neighbor) && s[k].prefix == q by {
                    if exists|k: int| 0 <= k < i + 1 && learned_via(s[k], neighbor) && s[k].prefix == q {
                        let k = choose|k: int| 0 <= k < i + 1 && learned_via(s[k], neighbor) && s[k].prefix == q;
                        if k < i {
                            assert(before.contains(q));
                        }
                    }
                    if before.contains(q) {
                        let k = choose|k: int| 0 <= k < i && learned_via(s[k], neighbor) && s[k].prefix == q;
                        assert(0 <= k < i + 1 && learned_via(s[k], neighbor) && s[k].prefix == q);
                    }
                }
            }
            i = i + 1;
        }
        proof {
            assert(s.take(s.len() as int) =~= s);
        }
        self.routes = kept;
        changed
    }

    fn selected_for_prefix(&self, prefix: GdpPrefix) -> (r: Option<SelectedRoute>)
        ensures
            match best_for(self@.routes, prefix) {
                Some(b) => r == Some(selected_of(b)),
                None => r is None,
            },
    {
        let ghost s = self.routes@;
        let mut best: Option<RibRoute> = None;
        let mut i: usize = 0;
        while i < self.routes.len()
            invariant
                i <= self.routes@.len(),
                s == self.routes@,
                best == best_upto(s, prefix, i as int),
            decreases self.routes@.len() - i,
        {
            let candidate = self.routes[i];
            if candidate.prefix == prefix {
                best = match best {
                    None => Some(candidate),
                    Some(current) => if route_better(candidate, current) {
                        Some(candidate)
                    } else {
                        Some(current)
                    },
                };
            }
            i = i + 1;
        }
        match best {
            Some(b) => Some(SelectedRoute::from(b)),
            None => None,
        }
    }

    /// The best route of every prefix, in prefix order.
    pub fn selected_routes(&self) -> (r: Vec<SelectedRoute>)
        ensures
            selection(self@.routes, r@),
    {
        let ghost s = self.routes@;
        let mut prefixes: Vec<GdpPrefix> = Vec::new();
        let mut i: usize = 0;
        while i < self.routes.len()
            invariant
                i <= self.routes@.len(),
                s == self.routes@,
                sorted_unique(prefixes@),
                forall|q: GdpPrefix|
                    #[trigger] prefixes@.contains(q) <==> exists|k: int| 0 <= k < i && s[k].prefix == q,
            decreases self.routes@.len() - i,
        {
            let ghost before = prefixes@;
            insert_prefix(&mut prefixes, self.routes[i].prefix);
            proof {
                assert forall|q: GdpPrefix| #[trigger] prefixes@.contains(q) <==> exists|k: int|
                    0 <= k < i + 1 && s[k].prefix == q by {
                    if exists|k: int| 0 <= k < i + 1 && s[k].prefix == q {
                        let k = choose|k: int| 0 <= k < i + 1 && s[k].prefix == q;
                        if k < i {
                            assert(before.contains(q));
                        }
                    }
                    if before.contains(q) {
                        let k = choose|k: int| 0 <= k < i && s[k].prefix == q;
                        assert(0 <= k < i + 1 && s[k].prefix == q);
                    }
                }
            }
            i = i + 1;
        }
        let mut out: Vec<SelectedRoute> = Vec::new();
        let mut j: usize = 0;
        while j < prefixes.len()
            invariant
                j <= prefixes@.len(),
                s == self.routes@,
                out@.len() == j,
                sorted_unique(prefixes@),
                forall|q: GdpPrefix|
                    #[trigger] prefixes@.contains(q) <==> exists|k: int| 0 <= k < s.len() && s[k].prefix == q,
                forall|a: int|
                    0 <= a < j ==> (#[trigger] out@[a]).prefix == prefixes@[a] && best_for(s, prefixes@[a]) is Some
                        && selected_of(best_for(s, prefixes@[a])->0) == out@[a],
            decreases prefixes@.len() - j,
        {
            let p = prefixes[j];
            proof {
                assert(prefixes@.contains(p));
                lemma_best_upto(s, p, s.len() as int);
            }
            let sel = self.selected_for_prefix(p).unwrap();
            out.push(sel);
            j = j + 1;
        }
        proof {
            let r = out@;
            assert(r.map_values(|x: SelectedRoute| x.prefix) =~= prefixes@);
            assert forall|k: int| 0 <= k < s.len() implies #[trigger] lists_prefix(r, s[k].prefix) by {
                assert(prefixes@.contains(s[k].prefix));
                let a = choose|a: int| 0 <= a < prefixes@.len() && prefixes@[a] == s[k].prefix;
                assert(r[a].prefix == s[k].prefix);
            }
        }
        out
    }

    /// The selected routes that were learned from neighbors.
    pub fn learned_fib(&self) -> (r: Vec<SelectedRoute>)
        ensures
            exists|sel: Seq<SelectedRoute>| #[trigger] selection(self@.routes, sel) && r@ == sel.filter(learned_only()),
    {
        let selected = self.selected_routes();
        let ghost pred = learned_only();
        let mut out: Vec<SelectedRoute> = Vec::new();
        let mut i: usize = 0;
        proof {
            reveal(Seq::filter);
            assert(selected@.take(0) =~= Seq::<SelectedRoute>::empty());
        }
        while i < selected.len()
            invariant
                i <= selected@.len(),
                pred == learned_only(),
                out@ == selected@.take(i as int).filter(pred),
            decreases selected@.len() - i,
        {
            proof {
                reveal(Seq::filter);
                assert(selected@.take(i + 1).drop_last() =~= selected@.take(i as int));
            }
            if selected[i].origin == RouteOrigin::Learned {
                out.push(selected[i]);
            }
            i = i + 1;
        }
        assert(selected@.take(selected@.len() as int) =~= selected@);
        out
    }

    fn advertisement(&self, route: SelectedRoute, outgoing_metric: RouteMetric) -> (r: RouteAdvertise)
        ensures
            r == advertisement_of(self@.local_router_id, route, outgoing_metric),
    {
        RouteAdvertise {
            advertiser: self.local_router_id,
            prefix: route.prefix,
            origin: route.origin,
            metric: route.metric.saturating_add(outgoing_metric),
        }
    }

    /// Advertisements of every selected route that may be offered to
    /// `neighbor`, in prefix order.
    pub fn advertisements_for(&self, neighbor: RouterId, outgoing_metric: RouteMetric) -> (r: Vec<RouteAdvertise>)
        ensures
            exists|sel: Seq<SelectedRoute>|
                #[trigger] selection(self@.routes, sel) && r@ == sel.filter(advertisable_to(neighbor)).map_values(
                    |x: SelectedRoute| advertisement_of(self@.local_router_id, x, outgoing_metric),
                ),
    {
        let selected = self.selected_routes();
        let ghost pred = advertisable_to(neighbor);
        let ghost sel = selected@;
        let mut out: Vec<RouteAdvertise> = Vec::new();
        let mut i: usize = 0;
        proof {
            reveal(Seq::filter);
            assert(sel.take(0) =~= Seq::<SelectedRoute>::empty());
        }
        while i < selected.len()
            invariant
                i <= selected@.len(),
                sel == selected@,
                pred == advertisable_to(neighbor),
                out@ == sel.take(i as int).filter(pred).map_values(
                    |x: SelectedRoute| advertisement_of(self@.local_router_id, x, outgoing_metric),
                ),
            decreases selected@.len() - i,
        {
            proof {
                reveal(Seq::filter);
                assert(sel.take(i + 1).drop_last() =~= sel.take(i as int));
            }
            let route = selected[i];
            let ghost before = out@;
            if route_is_advertisable_to(route, neighbor) {
                out.push(self.advertisement(route, outgoing_metric));
                assert(sel.take(i + 1).filter(pred) == sel.take(i as int).filter(pred).push(route));
                assert(out@ =~= sel.take(i + 1).filter(pred).map_values(
                    |x: SelectedRoute| advertisement_of(self@.local_router_id, x, outgoing_metric),
                ));
            } else {
                assert(sel.take(i + 1).filter(pred) == sel.take(i as int).filter(pred));
            }
            i = i + 1;
        }
        assert(sel.take(sel.len() as int) =~= sel);
        out
    }

    /// One update per distinct changed prefix, in prefix order: the selected
    /// route when it may be offered to `neighbor`, else a withdrawal.
    pub fn updates_for(&self, neighbor: RouterId, outgoing_metric: RouteMetric, changed_prefixes: &[GdpPrefix]) -> (r:
        Vec<RouteUpdate>)
        ensures
            exists|u: Seq<GdpPrefix>|
                #[trigger] sorted_unique(u) && (forall|q: GdpPrefix| #[trigger] u.contains(q) <==> changed_prefixes@.contains(q))
                    && r@ == u.map_values(
                    |p: GdpPrefix| update_for(self@.routes, self@.local_router_id, neighbor, outgoing_metric, p),
                ),
    {
        let mut unique: Vec<GdpPrefix> = Vec::new();
        let mut i: usize = 0;
        while i < changed_prefixes.len()
            invariant
                i <= changed_prefixes@.len(),
                sorted_unique(unique@),
                forall|q: GdpPrefix|
                    #[trigger] unique@.contains(q) <==> exists|k: int| 0 <= k < i && changed_prefixes@[k] == q,
            decreases changed_prefixes@.len() - i,
        {
            let ghost before = unique@;
            insert_prefix(&mut unique, changed_prefixes[i]);
            proof {
                assert forall|q: GdpPrefix| #[trigger] unique@.contains(q) <==> exists|k: int|
                    0 <= k < i + 1 && changed_prefixes@[k] == q by {
                    if exists|k: int| 0 <= k < i + 1 && changed_prefixes@[k] == q {
                        let k = choose|k: int| 0 <= k < i + 1 && changed_prefixes@[k] == q;
                        if k < i {
                            assert(before.contains(q));
                        }
                    }
                    if before.contains(q) {
                        let k = choose|k: int| 0 <= k < i && changed_prefixes@[k] == q;
                        assert(0 <= k < i + 1 && changed_prefixes@[k] == q);
                    }
                }
            }
            i = i + 1;
        }
        let mut out: Vec<RouteUpdate> = Vec::new();
        let mut j: usize = 0;
        while j < unique.len()
            invariant
                j <= unique@.len(),
                out@ == unique@.take(j as int).map_values(
                    |p: GdpPrefix| update_for(self@.routes, self@.local_router_id, neighbor, outgoing_metric, p),
                ),
            decreases unique@.len() - j,
        {
            let prefix = unique[j];
            let update = match self.selected_for_prefix(prefix) {
                Some(route) => if route_is_advertisable_to(route, neighbor) {
                    RouteUpdate::Advertise(self.advertisement(route, outgoing_metric))
                } else {
                    RouteUpdate::Withdraw(RouteWithdraw { advertiser: self.local_router_id, prefix })
                },
                None => RouteUpdate::Withdraw(RouteWithdraw { advertiser: self.local_router_id, prefix }),
            };
            out.push(update);
            assert(unique@.take(j + 1) =~= unique@.take(j as int).push(prefix));
            assert(out@ =~= unique@.take(j + 1).map_values(
                |p: GdpPrefix| update_for(self@.routes, self@.local_router_id, neighbor, outgoing_metric, p),
            ));
            j = j + 1;
        }
        proof {
            assert(unique@.take(unique@.len() as int) =~= unique@);
            assert forall|q: GdpPrefix| #[trigger] unique@.contains(q) <==> changed_prefixes@.contains(q) by {
                if changed_prefixes@.contains(q) {
                    let k = choose|k: int| 0 <= k < changed_prefixes@.len() && changed_prefixes@[k] == q;
                    assert(exists|k: int| 0 <= k < changed_prefixes@.len() && changed_prefixes@[k] == q);
                }
            }
        }
        out
    }
}

} // verus!

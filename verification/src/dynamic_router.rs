use vstd::prelude::*;

use crate::dynamic_routing::{RouteMetric, RouteOrigin, RouterId};
use crate::error::{Error, Result};
use crate::router_rib::{
    advertisement_of, advertisable_to, best_upto, learned_hit, learned_only, local_hit, replaced_or_pushed,
    selected_of, selection, RibRoute, RouterRib, RouterRibView, SelectedRoute,
};
use crate::routing::GdpPrefix;
use crate::static_router::{
    fresh_router, startup_valid, RouterPortConfig, RouterPortId, RouterStartupConfig, StaticP4Router,
    StaticRouteConfig, StaticRouterView,
};
use crate::wire::gctl_routing::RouteAdvertise;

verus! {

/// One of the configured static routes is for `p`.
pub open spec fn configured_covers(configured: Seq<StaticRouteConfig>, p: GdpPrefix) -> bool {
    exists|k: int| 0 <= k < configured.len() && #[trigger] configured[k].prefix == p
}

/// Learned routes whose prefix no configured static route covers.
pub open spec fn not_configured(configured: Seq<StaticRouteConfig>) -> spec_fn(SelectedRoute) -> bool {
    |r: SelectedRoute| !configured_covers(configured, r.prefix)
}

/// The static route forwarding a learned route out of its port.
pub open spec fn learned_static(r: SelectedRoute) -> StaticRouteConfig {
    StaticRouteConfig { prefix: r.prefix, egress_port: r.egress_port, next_hop: None }
}

/// Routes the forwarding plane is built with: the configured static routes,
/// then each learned route for a prefix they do not cover.
pub open spec fn forwarding_routes(configured: Seq<StaticRouteConfig>, learned: Seq<SelectedRoute>) -> Seq<StaticRouteConfig> {
    configured + learned.filter(not_configured(configured)).map_values(|r: SelectedRoute| learned_static(r))
}

/// Building the forwarding plane from `learned` succeeds: every route in it
/// was learned and the resulting configuration is valid.
pub open spec fn build_ok(ports: Seq<RouterPortConfig>, configured: Seq<StaticRouteConfig>, learned: Seq<SelectedRoute>) -> bool {
    &&& forall|i: int| 0 <= i < learned.len() ==> (#[trigger] learned[i]).origin == RouteOrigin::Learned
    &&& startup_valid(ports, forwarding_routes(configured, learned))
}

/// `learned` is what the RIB `routes` selects among routes learned from
/// neighbors, in prefix order.
pub open spec fn learned_selection(routes: Seq<RibRoute>, learned: Seq<SelectedRoute>) -> bool {
    exists|sel: Seq<SelectedRoute>| #[trigger] selection(routes, sel) && learned == sel.filter(learned_only())
}

/// Mathematical value of a dynamic router.
pub struct DynamicRouterView {
    pub router_id: RouterId,
    pub ports: Seq<RouterPortConfig>,
    pub configured_static: Seq<StaticRouteConfig>,
    pub rib: RouterRibView,
    pub forwarding: StaticRouterView,
}

/// Router whose forwarding plane is rebuilt from its configured static routes
/// and the routes its RIB selects among neighbor advertisements.
pub struct DynamicP4Router {
    router_id: RouterId,
    ports: Vec<RouterPortConfig>,
    configured_static: Vec<StaticRouteConfig>,
    rib: RouterRib,
    forwarding: StaticP4Router,
}

impl View for DynamicP4Router {
    type V = DynamicRouterView;

    closed spec fn view(&self) -> DynamicRouterView {
        DynamicRouterView {
            router_id: self.router_id,
            ports: self.ports@,
            configured_static: self.configured_static@,
            rib: self.rib@,
            forwarding: self.forwarding@,
        }
    }
}

/// Copy of `v`.
fn copy_ports(v: &Vec<RouterPortConfig>) -> (r: Vec<RouterPortConfig>)
    ensures
        r@ == v@,
{
    let mut r: Vec<RouterPortConfig> = Vec::new();
    let mut i: usize = 0;
    while i < v.len()
        invariant
            i <= v.len(),
            r@ == v@.take(i as int),
        decreases v.len() - i,
    {
        r.push(v[i]);
        assert(v@.take(i + 1) =~= v@.take(i as int).push(v@[i as int]));
        i = i + 1;
    }
    assert(v@.take(v.len() as int) =~= v@);
    r
}

/// Copy of `v`.
fn copy_routes(v: &Vec<StaticRouteConfig>) -> (r: Vec<StaticRouteConfig>)
    ensures
        r@ == v@,
{
    let mut r: Vec<StaticRouteConfig> = Vec::new();
    let mut i: usize = 0;
    while i < v.len()
        invariant
            i <= v.len(),
            r@ == v@.take(i as int),
        decreases v.len() - i,
    {
        r.push(v[i]);
        assert(v@.take(i + 1) =~= v@.take(i as int).push(v@[i as int]));
        i = i + 1;
    }
    assert(v@.take(v.len() as int) =~= v@);
    r
}

/// Whether a configured static route is for `p`.
fn covers(configured: &Vec<StaticRouteConfig>, p: GdpPrefix) -> (r: bool)
    ensures
        r == configured_covers(configured@, p),
{
    let mut k: usize = 0;
    while k < configured.len()
        invariant
            k <= configured.len(),
            forall|m: int| 0 <= m < k ==> #[trigger] configured@[m].prefix != p,
        decreases configured.len() - k,
    {
        if configured[k].prefix == p {
            return true;
        }
        k = k + 1;
    }
    false
}

/// The forwarding plane for `ports`, the configured static routes and the
/// learned routes.
fn build_forwarding(
    ports: &Vec<RouterPortConfig>,
    configured: &Vec<StaticRouteConfig>,
    learned: &Vec<SelectedRoute>,
) -> (r: Result<StaticP4Router>)
    ensures
        !build_ok(ports@, configured@, learned@) ==> r == Err::<StaticP4Router, Error>(Error::InvalidField),
        build_ok(ports@, configured@, learned@) ==> r is Ok && r->Ok_0.wf() && r->Ok_0@ == fresh_router(
            ports@,
            forwarding_routes(configured@, learned@),
        ),
{
    let ghost pred = not_configured(configured@);
    let mut routes = copy_routes(configured);
    let mut i: usize = 0;
    proof {
        reveal(Seq::filter);
        assert(learned@.take(0) =~= Seq::<SelectedRoute>::empty());
        assert(routes@ =~= configured@ + learned@.take(0).filter(pred).map_values(
            |r: SelectedRoute| learned_static(r),
        ));
    }
    while i < learned.len()
        invariant
            i <= learned.len(),
            pred == not_configured(configured@),
            forall|k: int| 0 <= k < i ==> (#[trigger] learned@[k]).origin == RouteOrigin::Learned,
            routes@ == configured@ + learned@.take(i as int).filter(pred).map_values(|r: SelectedRoute| learned_static(r)),
        decreases learned.len() - i,
    {
        let route = learned[i];
        if route.origin != RouteOrigin::Learned {
            return Err(Error::InvalidField);
        }
        proof {
            reveal(Seq::filter);
            assert(learned@.take(i + 1).drop_last() =~= learned@.take(i as int));
        }
        if !covers(configured, route.prefix) {
            routes.push(StaticRouteConfig::direct(route.prefix, route.egress_port));
            assert(learned@.take(i + 1).filter(pred) == learned@.take(i as int).filter(pred).push(route));
            assert(routes@ =~= configured@ + learned@.take(i + 1).filter(pred).map_values(
                |r: SelectedRoute| learned_static(r),
            ));
        } else {
            assert(learned@.take(i + 1).filter(pred) == learned@.take(i as int).filter(pred));
        }
        i = i + 1;
    }
    assert(learned@.take(learned.len() as int) =~= learned@);
    StaticP4Router::new(RouterStartupConfig::new(copy_ports(ports), routes))
}

/// The best route for any prefix among `s` is one of the routes of `s`.
proof fn lemma_best_is_member(s: Seq<RibRoute>, p: GdpPrefix, n: int)
    requires
        0 <= n <= s.len(),
    ensures
        best_upto(s, p, n) matches Some(b) ==> exists|k: int| 0 <= k < n && s[k] == b,
    decreases n,
{
    if n > 0 {
        lemma_best_is_member(s, p, n - 1);
        if best_upto(s, p, n) is Some && best_upto(s, p, n) != best_upto(s, p, n - 1) {
            assert(s[n - 1] == best_upto(s, p, n)->0);
        }
    }
}

/// A RIB holding only routes of this router selects no learned route.
proof fn lemma_no_learned(routes: Seq<RibRoute>, learned: Seq<SelectedRoute>)
    requires
        forall|k: int| 0 <= k < routes.len() ==> (#[trigger] routes[k]).origin != RouteOrigin::Learned,
        learned_selection(routes, learned),
    ensures
        learned == Seq::<SelectedRoute>::empty(),
{
    let sel = choose|sel: Seq<SelectedRoute>| #[trigger] selection(routes, sel) && learned == sel.filter(learned_only());
    assert forall|i: int| 0 <= i < sel.len() implies !learned_only()(#[trigger] sel[i]) by {
        lemma_best_is_member(routes, sel[i].prefix, routes.len() as int);
        let b = crate::router_rib::best_for(routes, sel[i].prefix)->0;
        let k = choose|k: int| 0 <= k < routes.len() && routes[k] == b;
        assert(routes[k].origin != RouteOrigin::Learned);
    }
    lemma_filter_none(sel, learned_only());
}

/// Filtering by a predicate no element meets leaves nothing.
proof fn lemma_filter_none(s: Seq<SelectedRoute>, p: spec_fn(SelectedRoute) -> bool)
    requires
        forall|i: int| 0 <= i < s.len() ==> !p(#[trigger] s[i]),
    ensures
        s.filter(p) == Seq::<SelectedRoute>::empty(),
    decreases s.len(),
{
    reveal(Seq::filter);
    if s.len() > 0 {
        lemma_filter_none(s.drop_last(), p);
        assert(!p(s[s.len() - 1]));
    } else {
        assert(s =~= Seq::<SelectedRoute>::empty());
    }
}

/// Routes of this router only: none was learned from a neighbor.
pub open spec fn all_local(routes: Seq<RibRoute>) -> bool {
    forall|k: int| 0 <= k < routes.len() ==> (#[trigger] routes[k]).origin != RouteOrigin::Learned
}

impl DynamicP4Router {
    pub closed spec fn wf(&self) -> bool {
        &&& self.rib@.local_router_id == self.router_id
        &&& self.forwarding.wf()
    }

    /// A router whose RIB holds the connected network of each port and the
    /// configured static routes, forwarding by the configured routes alone.
    pub fn new(router_id: RouterId, ports: Vec<RouterPortConfig>, configured_static: Vec<StaticRouteConfig>) -> (r:
        Result<Self>)
        ensures
            !startup_valid(ports@, configured_static@) ==> r == Err::<Self, Error>(Error::InvalidField),
            startup_valid(ports@, configured_static@) ==> r is Ok && ({
                let v = r->Ok_0@;
                &&& r->Ok_0.wf()
                &&& v.router_id == router_id
                &&& v.ports == ports@
                &&& v.configured_static == configured_static@
                &&& all_local(v.rib.routes)
                &&& v.forwarding == fresh_router(ports@, configured_static@)
            }),
    {
        let mut rib = RouterRib::new(router_id);
        let mut i: usize = 0;
        while i < ports.len()
            invariant
                i <= ports.len(),
                rib@.local_router_id == router_id,
                all_local(rib@.routes),
            decreases ports.len() - i,
        {
            match ports[i].connected_prefix {
                Some(prefix) => {
                    rib.add_connected(prefix, ports[i].id);
                },
                None => {},
            }
            i = i + 1;
        }
        let mut j: usize = 0;
        while j < configured_static.len()
            invariant
                j <= configured_static.len(),
                rib@.local_router_id == router_id,
                all_local(rib@.routes),
            decreases configured_static.len() - j,
        {
            rib.add_static(configured_static[j].prefix, configured_static[j].egress_port, RouteMetric(0));
            j = j + 1;
        }
        let learned = rib.learned_fib();
        proof {
            lemma_no_learned(rib@.routes, learned@);
            assert(learned@.filter(not_configured(configured_static@)) =~= Seq::<SelectedRoute>::empty()) by {
                reveal(Seq::filter);
            }
            assert(forwarding_routes(configured_static@, learned@) =~= configured_static@);
        }
        let forwarding = build_forwarding(&ports, &configured_static, &learned)?;
        Ok(DynamicP4Router { router_id, ports, configured_static, rib, forwarding })
    }

    pub fn router_id(&self) -> (r: RouterId)
        ensures
            r == self@.router_id,
    {
        self.router_id
    }

    pub fn rib(&self) -> (r: &RouterRib)
        ensures
            r@ == self@.rib,
    {
        &self.rib
    }

    /// The best route of every prefix, in prefix order.
    pub fn selected_fib(&self) -> (r: Vec<SelectedRoute>)
        ensures
            selection(self@.rib.routes, r@),
    {
        self.rib.selected_routes()
    }

    /// What this router advertises to `neighbor` over a link of `outgoing_metric`.
    pub fn advertisements_for(&self, neighbor: RouterId, outgoing_metric: RouteMetric) -> (r: Vec<RouteAdvertise>)
        ensures
            exists|sel: Seq<SelectedRoute>|
                #[trigger] selection(self@.rib.routes, sel) && r@ == sel.filter(advertisable_to(neighbor)).map_values(
                    |x: SelectedRoute| advertisement_of(self@.rib.local_router_id, x, outgoing_metric),
                ),
    {
        let r = self.rib.advertisements_for(neighbor, outgoing_metric);
        proof {
            let sel = choose|sel: Seq<SelectedRoute>|
                #[trigger] selection(self.rib@.routes, sel) && r@ == sel.filter(advertisable_to(neighbor)).map_values(
                    |x: SelectedRoute| advertisement_of(self.rib@.local_router_id, x, outgoing_metric),
                );
            assert(r@ =~= sel.filter(advertisable_to(neighbor)).map_values(
                |x: SelectedRoute| advertisement_of(self@.rib.local_router_id, x, outgoing_metric),
            ));
        }
        r
    }

    /// The selected routes that were learned from neighbors.
    pub fn learned_routes(&self) -> (r: Vec<SelectedRoute>)
        ensures
            learned_selection(self@.rib.routes, r@),
    {
        self.rib.learned_fib()
    }

    /// Learn what neighbor `from` advertised on `egress_port`, then rebuild
    /// the forwarding plane. A refused advertisement changes nothing; a
    /// forwarding plane that cannot be built is refused with the learned
    /// route kept in the RIB and the previous forwarding plane in place.
    pub fn receive_advertisement(&mut self, from: RouterId, egress_port: RouterPortId, advertisement: RouteAdvertise) -> (r:
        Result<()>)
        requires
            old(self).wf(),
        ensures
            final(self).wf(),
            final(self)@.router_id == old(self)@.router_id,
            final(self)@.ports == old(self)@.ports,
            final(self)@.configured_static == old(self)@.configured_static,
            final(self)@.rib.local_router_id == old(self)@.rib.local_router_id,
            from == old(self)@.router_id || advertisement.advertiser != from || advertisement.origin == RouteOrigin::Static
                || advertisement.origin == RouteOrigin::Escape ==> r == Err::<(), Error>(Error::InvalidField)
                && final(self)@ == old(self)@,
            !(from == old(self)@.router_id || advertisement.advertiser != from || advertisement.origin
                == RouteOrigin::Static || advertisement.origin == RouteOrigin::Escape) ==> {
                &&& replaced_or_pushed(
                    old(self)@.rib.routes,
                    final(self)@.rib.routes,
                    RibRoute {
                        prefix: advertisement.prefix,
                        egress_port,
                        origin: RouteOrigin::Learned,
                        metric: advertisement.metric,
                        learned_from: Some(from),
                    },
                    learned_hit(advertisement.prefix, from),
                )
                &&& exists|learned: Seq<SelectedRoute>| {
                    &&& #[trigger] learned_selection(final(self)@.rib.routes, learned)
                    &&& build_ok(old(self)@.ports, old(self)@.configured_static, learned) ==> r is Ok
                        && final(self)@.forwarding == fresh_router(
                        old(self)@.ports,
                        forwarding_routes(old(self)@.configured_static, learned),
                    )
                    &&& !build_ok(old(self)@.ports, old(self)@.configured_static, learned) ==> r == Err::<(), Error>(
                        Error::InvalidField,
                    ) && final(self)@.forwarding == old(self)@.forwarding
                }
            },
    {
        self.rib.receive_advertisement(from, egress_port, advertisement)?;
        self.rebuild_forwarding()
    }

    fn rebuild_forwarding(&mut self) -> (r: Result<()>)
        requires
            old(self).wf(),
        ensures
            final(self).wf(),
            final(self)@.router_id == old(self)@.router_id,
            final(self)@.ports == old(self)@.ports,
            final(self)@.configured_static == old(self)@.configured_static,
            final(self)@.rib == old(self)@.rib,
            exists|learned: Seq<SelectedRoute>| {
                &&& #[trigger] learned_selection(old(self)@.rib.routes, learned)
                &&& build_ok(old(self)@.ports, old(self)@.configured_static, learned) ==> r is Ok
                    && final(self)@.forwarding == fresh_router(
                    old(self)@.ports,
                    forwarding_routes(old(self)@.configured_static, learned),
                )
                &&& !build_ok(old(self)@.ports, old(self)@.configured_static, learned) ==> r == Err::<(), Error>(
                    Error::InvalidField,
                ) && final(self)@.forwarding == old(self)@.forwarding
            },
    {
        let learned = self.rib.learned_fib();
        let built = build_forwarding(&self.ports, &self.configured_static, &learned);
        match built {
            Ok(f) => {
                self.forwarding = f;
                assert(learned_selection(old(self)@.rib.routes, learned@));
                Ok(())
            },
            Err(e) => {
                assert(learned_selection(old(self)@.rib.routes, learned@));
                Err(e)
            },
        }
    }
}

} // verus!

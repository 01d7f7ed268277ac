use vstd::prelude::*;

use crate::error::{Error, Result};
use crate::static_router::{
    fresh_router, startup_valid, RouterStartupConfig, StaticP4Router, StaticRouterView,
};

verus! {

/// Whether VC0 is part of the ordinary data VC pool or held back as an escape
/// resource for breaking wormhole channel-dependency cycles.
#[derive(Debug, Clone, Copy, PartialEq, Eq, Structural)]
pub enum RouterVc0Policy {
    /// VC0 may carry ordinary traffic like VC1-VC3; it is then no
    /// always-available escape resource.
    NormalData,
    /// Ordinary traffic uses VC1-VC3; VC0 is kept for escape routing.
    EscapeOnly,
}

impl Default for RouterVc0Policy {
    fn default() -> (r: Self)
        ensures
            r == RouterVc0Policy::EscapeOnly,
    {
        RouterVc0Policy::EscapeOnly
    }
}

/// VCIDs that ordinary routed data may use under `policy`.
pub open spec fn spec_normal_data_vcids(policy: RouterVc0Policy) -> Seq<u8> {
    match policy {
        RouterVc0Policy::NormalData => seq![0u8, 1u8, 2u8, 3u8],
        RouterVc0Policy::EscapeOnly => seq![1u8, 2u8, 3u8],
    }
}

/// Static router together with its wormhole VC allocation policy.
pub struct CycleAwareRouter {
    inner: StaticP4Router,
    vc0_policy: RouterVc0Policy,
}

impl CycleAwareRouter {
    pub closed spec fn wf(&self) -> bool {
        self.inner.wf()
    }

    pub closed spec fn spec_inner(&self) -> StaticRouterView {
        self.inner@
    }

    pub closed spec fn spec_vc0_policy(&self) -> RouterVc0Policy {
        self.vc0_policy
    }

    /// A router for `startup` with the given VC0 policy.
    pub fn new(startup: RouterStartupConfig, vc0_policy: RouterVc0Policy) -> (r: Result<Self>)
        ensures
            !startup_valid(startup.ports@, startup.routes@) ==> r == Err::<Self, Error>(Error::InvalidField),
            startup_valid(startup.ports@, startup.routes@) ==> r is Ok && r->Ok_0.wf()
                && r->Ok_0.spec_vc0_policy() == vc0_policy
                && r->Ok_0.spec_inner() == fresh_router(startup.ports@, startup.routes@),
    {
        let inner = StaticP4Router::new(startup)?;
        Ok(CycleAwareRouter { inner, vc0_policy })
    }

    pub fn vc0_policy(&self) -> (r: RouterVc0Policy)
        ensures
            r == self.spec_vc0_policy(),
    {
        self.vc0_policy
    }

    /// VCIDs available to ordinary routed data.
    pub fn normal_data_vcids(&self) -> (r: Vec<u8>)
        ensures
            r@ == spec_normal_data_vcids(self.spec_vc0_policy()),
    {
        match self.vc0_policy {
            RouterVc0Policy::NormalData => vec![0u8, 1u8, 2u8, 3u8],
            RouterVc0Policy::EscapeOnly => vec![1u8, 2u8, 3u8],
        }
    }

    /// Dedicated escape VC, if this router reserves one.
    pub fn escape_vcid(&self) -> (r: Option<u8>)
        ensures
            r == (match self.spec_vc0_policy() {
                RouterVc0Policy::NormalData => None::<u8>,
                RouterVc0Policy::EscapeOnly => Some(0u8),
            }),
    {
        match self.vc0_policy {
            RouterVc0Policy::NormalData => None,
            RouterVc0Policy::EscapeOnly => Some(0),
        }
    }

    pub fn physical_port_count(&self) -> (r: u16)
        requires
            self.wf(),
        ensures
            r == self.spec_inner().ports.len(),
    {
        self.inner.physical_port_count()
    }

    pub fn startup_config(&self) -> (r: &RouterStartupConfig)
        ensures
            r.ports@ == self.spec_inner().startup_ports,
            r.routes@ == self.spec_inner().startup_routes,
    {
        self.inner.startup_config()
    }

    pub fn inner(&self) -> (r: &StaticP4Router)
        ensures
            r@ == self.spec_inner(),
            self.wf() ==> r.wf(),
    {
        &self.inner
    }

    pub fn inner_mut(&mut self) -> (r: &mut StaticP4Router)
        ensures
            r@ == old(self).spec_inner(),
            old(self).wf() ==> r.wf(),
            final(self).spec_inner() == final(r)@,
            final(self).wf() == final(r).wf(),
            final(self).spec_vc0_policy() == old(self).spec_vc0_policy(),
    {
        &mut self.inner
    }
}

} // verus!

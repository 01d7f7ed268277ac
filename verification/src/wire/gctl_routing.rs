use vstd::prelude::*;

use crate::dynamic_routing::{LinkId, RouteMetric, RouteOrigin, RouterId};
use crate::error::{Error, Result};
use crate::routing::{spec_route_mask, GdpPrefix};
use crate::wire::bytes::{
    all_zero, be32, be64, check_zero, lemma_be32_at, lemma_be64_at, push_u32, push_u64, read_u32,
    read_u64, u32_be, u64_be,
};
use crate::wire::gdp::GdpAddress;

verus! {

pub const GCTL_ROUTER_HELLO: u8 = 0x40;

pub const GCTL_ROUTER_HELLO_ACK: u8 = 0x41;

pub const GCTL_ROUTE_ADVERTISE: u8 = 0x42;

pub const GCTL_ROUTE_WITHDRAW: u8 = 0x43;

pub const GCTL_ROUTING_VERSION: u8 = 1;

pub const GCTL_HEADER_LEN: usize = 8;

pub const ROUTER_HELLO_BODY_LEN: usize = 24;

pub const ROUTE_ADVERTISE_BODY_LEN: usize = 24;

pub const ROUTE_WITHDRAW_BODY_LEN: usize = 24;

#[derive(Debug, Clone, Copy, PartialEq, Eq, Structural)]
pub struct RouterHello {
    pub router_id: RouterId,
    pub link_id: LinkId,
    pub hold_time_ms: u32,
    pub metric: RouteMetric,
}

#[derive(Debug, Clone, Copy, PartialEq, Eq, Structural)]
pub struct RouteAdvertise {
    pub advertiser: RouterId,
    pub prefix: GdpPrefix,
    pub origin: RouteOrigin,
    pub metric: RouteMetric,
}

#[derive(Debug, Clone, Copy, PartialEq, Eq, Structural)]
pub struct RouteWithdraw {
    pub advertiser: RouterId,
    pub prefix: GdpPrefix,
}

#[derive(Debug, Clone, Copy, PartialEq, Eq, Structural)]
pub enum RoutingGctlBody {
    RouterHello(RouterHello),
    RouterHelloAck(RouterHello),
    RouteAdvertise(RouteAdvertise),
    RouteWithdraw(RouteWithdraw),
}

#[derive(Debug, Clone, Copy, PartialEq, Eq, Structural)]
pub struct RoutingGctlMessage {
    pub transaction_id: u32,
    pub body: RoutingGctlBody,
}

pub open spec fn hello_body(h: RouterHello) -> Seq<u8> {
    u64_be(h.router_id.0) + u64_be(h.link_id.0) + u32_be(h.hold_time_ms) + u32_be(h.metric.0)
}

pub open spec fn advertise_body(r: RouteAdvertise) -> Seq<u8> {
    u64_be(r.advertiser.0) + u64_be(r.prefix.spec_network().0) + seq![
        r.prefix.spec_prefix_len(),
        r.origin.spec_code(),
        0u8,
        0u8,
    ] + u32_be(r.metric.0)
}

pub open spec fn withdraw_body(r: RouteWithdraw) -> Seq<u8> {
    u64_be(r.advertiser.0) + u64_be(r.prefix.spec_network().0) + seq![
        r.prefix.spec_prefix_len(),
        0u8,
        0u8,
        0u8,
        0u8,
        0u8,
        0u8,
        0u8,
    ]
}

/// Message type and body bytes of a routing message.
pub open spec fn type_and_body(b: RoutingGctlBody) -> (u8, Seq<u8>) {
    match b {
        RoutingGctlBody::RouterHello(h) => (GCTL_ROUTER_HELLO, hello_body(h)),
        RoutingGctlBody::RouterHelloAck(h) => (GCTL_ROUTER_HELLO_ACK, hello_body(h)),
        RoutingGctlBody::RouteAdvertise(r) => (GCTL_ROUTE_ADVERTISE, advertise_body(r)),
        RoutingGctlBody::RouteWithdraw(r) => (GCTL_ROUTE_WITHDRAW, withdraw_body(r)),
    }
}

/// Encoding of a routing message.
pub open spec fn spec_routing_encode(m: RoutingGctlMessage) -> Seq<u8> {
    seq![GCTL_ROUTING_VERSION, type_and_body(m.body).0, 0u8, 0u8] + u32_be(m.transaction_id)
        + type_and_body(m.body).1
}

pub open spec fn spec_decode_hello(b: Seq<u8>) -> Result<RouterHello> {
    if b.len() != 24 {
        Err(Error::InvalidLength)
    } else if be64(b, 0) == 0 || be64(b, 8) == 0 {
        Err(Error::InvalidField)
    } else {
        Ok(
            RouterHello {
                router_id: RouterId(be64(b, 0) as u64),
                link_id: LinkId(be64(b, 8) as u64),
                hold_time_ms: be32(b, 16) as u32,
                metric: RouteMetric(be32(b, 20) as u32),
            },
        )
    }
}

/// Prefix carried at bytes 8..17 of a route body.
pub open spec fn spec_decode_prefix(b: Seq<u8>) -> Result<GdpPrefix> {
    let network = be64(b, 8) as u64;
    let len = b[16];
    if len > 64 {
        Err(Error::InvalidField)
    } else if network & spec_route_mask(len) != network {
        Err(Error::NonCanonical)
    } else {
        Ok(GdpPrefix::spec_new(GdpAddress(network), len))
    }
}

pub open spec fn spec_decode_advertise(b: Seq<u8>) -> Result<RouteAdvertise> {
    if b.len() != 24 {
        Err(Error::InvalidLength)
    } else if b[18] != 0 || b[19] != 0 {
        Err(Error::InvalidField)
    } else if be64(b, 0) == 0 {
        Err(Error::InvalidField)
    } else {
        match spec_decode_prefix(b) {
            Err(e) => Err(e),
            Ok(prefix) => match RouteOrigin::spec_from_wire(b[17]) {
                Err(e) => Err(e),
                Ok(origin) => Ok(
                    RouteAdvertise {
                        advertiser: RouterId(be64(b, 0) as u64),
                        prefix,
                        origin,
                        metric: RouteMetric(be32(b, 20) as u32),
                    },
                ),
            },
        }
    }
}

pub open spec fn spec_decode_withdraw(b: Seq<u8>) -> Result<RouteWithdraw> {
    if b.len() != 24 {
        Err(Error::InvalidLength)
    } else if !all_zero(b, 17, 24) {
        Err(Error::InvalidField)
    } else if be64(b, 0) == 0 {
        Err(Error::InvalidField)
    } else {
        match spec_decode_prefix(b) {
            Err(e) => Err(e),
            Ok(prefix) => Ok(RouteWithdraw { advertiser: RouterId(be64(b, 0) as u64), prefix }),
        }
    }
}

/// Routing message decoded from `buf`.
pub open spec fn spec_routing_decode(buf: Seq<u8>) -> Result<RoutingGctlMessage> {
    if buf.len() != 32 {
        Err(Error::InvalidLength)
    } else if buf[0] != GCTL_ROUTING_VERSION {
        Err(Error::Unsupported)
    } else if buf[2] != 0 || buf[3] != 0 {
        Err(Error::InvalidField)
    } else {
        let tid = be32(buf, 4) as u32;
        let b = buf.subrange(8, 32);
        let body: Result<RoutingGctlBody> = if buf[1] == GCTL_ROUTER_HELLO {
            match spec_decode_hello(b) {
                Ok(h) => Ok(RoutingGctlBody::RouterHello(h)),
                Err(e) => Err(e),
            }
        } else if buf[1] == GCTL_ROUTER_HELLO_ACK {
            match spec_decode_hello(b) {
                Ok(h) => Ok(RoutingGctlBody::RouterHelloAck(h)),
                Err(e) => Err(e),
            }
        } else if buf[1] == GCTL_ROUTE_ADVERTISE {
            match spec_decode_advertise(b) {
                Ok(r) => Ok(RoutingGctlBody::RouteAdvertise(r)),
                Err(e) => Err(e),
            }
        } else if buf[1] == GCTL_ROUTE_WITHDRAW {
            match spec_decode_withdraw(b) {
                Ok(r) => Ok(RoutingGctlBody::RouteWithdraw(r)),
                Err(e) => Err(e),
            }
        } else {
            Err(Error::Unsupported)
        };
        match body {
            Ok(body) => Ok(RoutingGctlMessage { transaction_id: tid, body }),
            Err(e) => Err(e),
        }
    }
}

fn encode_hello(out: &mut Vec<u8>, hello: RouterHello)
    ensures
        final(out)@ == old(out)@ + hello_body(hello),
{
    push_u64(out, hello.router_id.0);
    push_u64(out, hello.link_id.0);
    push_u32(out, hello.hold_time_ms);
    push_u32(out, hello.metric.0);
    assert(final(out)@ =~= old(out)@ + hello_body(hello));
}

fn encode_route_advertise(out: &mut Vec<u8>, route: RouteAdvertise)
    ensures
        final(out)@ == old(out)@ + advertise_body(route),
{
    push_u64(out, route.advertiser.0);
    push_u64(out, route.prefix.network().0);
    out.push(route.prefix.prefix_len());
    out.push(route.origin.to_wire());
    out.push(0);
    out.push(0);
    push_u32(out, route.metric.0);
    assert(final(out)@ =~= old(out)@ + advertise_body(route));
}

fn encode_route_withdraw(out: &mut Vec<u8>, route: RouteWithdraw)
    ensures
        final(out)@ == old(out)@ + withdraw_body(route),
{
    push_u64(out, route.advertiser.0);
    push_u64(out, route.prefix.network().0);
    out.push(route.prefix.prefix_len());
    let mut i: usize = 0;
    while i < 7
        invariant
            i <= 7,
            out@ == old(out)@ + u64_be(route.advertiser.0) + u64_be(route.prefix.spec_network().0)
                + seq![route.prefix.spec_prefix_len()] + Seq::new(i as nat, |_j: int| 0u8),
        decreases 7 - i,
    {
        out.push(0);
        i = i + 1;
        assert(out@ =~= old(out)@ + u64_be(route.advertiser.0) + u64_be(
            route.prefix.spec_network().0,
        ) + seq![route.prefix.spec_prefix_len()] + Seq::new(i as nat, |_j: int| 0u8));
    }
    assert(final(out)@ =~= old(out)@ + withdraw_body(route));
}

fn decode_prefix(body: &[u8]) -> (r: Result<GdpPrefix>)
    requires
        body@.len() == 24,
    ensures
        r == spec_decode_prefix(body@),
{
    let network = GdpAddress(read_u64(body, 8));
    let prefix_len = body[16];
    let prefix = match GdpPrefix::new(network, prefix_len) {
        Ok(p) => p,
        Err(_) => {
            return Err(Error::InvalidField);
        },
    };
    if prefix.network().0 != network.0 {
        return Err(Error::NonCanonical);
    }
    Ok(prefix)
}

fn decode_hello(body: &[u8]) -> (r: Result<RouterHello>)
    ensures
        r == spec_decode_hello(body@),
{
    if body.len() != ROUTER_HELLO_BODY_LEN {
        return Err(Error::InvalidLength);
    }
    let router_id = RouterId::new(read_u64(body, 0))?;
    let link_id = LinkId::new(read_u64(body, 8))?;
    Ok(
        RouterHello {
            router_id,
            link_id,
            hold_time_ms: read_u32(body, 16),
            metric: RouteMetric(read_u32(body, 20)),
        },
    )
}

fn decode_route_advertise(body: &[u8]) -> (r: Result<RouteAdvertise>)
    ensures
        r == spec_decode_advertise(body@),
{
    if body.len() != ROUTE_ADVERTISE_BODY_LEN {
        return Err(Error::InvalidLength);
    }
    if body[18] != 0 || body[19] != 0 {
        return Err(Error::InvalidField);
    }
    let advertiser = RouterId::new(read_u64(body, 0))?;
    let prefix = decode_prefix(body)?;
    let origin = RouteOrigin::from_wire(body[17])?;
    Ok(RouteAdvertise { advertiser, prefix, origin, metric: RouteMetric(read_u32(body, 20)) })
}

fn decode_route_withdraw(body: &[u8]) -> (r: Result<RouteWithdraw>)
    ensures
        r == spec_decode_withdraw(body@),
{
    if body.len() != ROUTE_WITHDRAW_BODY_LEN {
        return Err(Error::InvalidLength);
    }
    if !check_zero(body, 17, 24) {
        return Err(Error::InvalidField);
    }
    let advertiser = RouterId::new(read_u64(body, 0))?;
    let prefix = decode_prefix(body)?;
    Ok(RouteWithdraw { advertiser, prefix })
}

impl RoutingGctlMessage {
    pub fn router_hello(transaction_id: u32, hello: RouterHello) -> (r: Self)
        ensures
            r == (RoutingGctlMessage { transaction_id, body: RoutingGctlBody::RouterHello(hello) }),
    {
        RoutingGctlMessage { transaction_id, body: RoutingGctlBody::RouterHello(hello) }
    }

    pub fn router_hello_ack(transaction_id: u32, hello: RouterHello) -> (r: Self)
        ensures
            r == (RoutingGctlMessage {
                transaction_id,
                body: RoutingGctlBody::RouterHelloAck(hello),
            }),
    {
        RoutingGctlMessage { transaction_id, body: RoutingGctlBody::RouterHelloAck(hello) }
    }

    pub fn route_advertise(transaction_id: u32, route: RouteAdvertise) -> (r: Self)
        ensures
            r == (RoutingGctlMessage {
                transaction_id,
                body: RoutingGctlBody::RouteAdvertise(route),
            }),
    {
        RoutingGctlMessage { transaction_id, body: RoutingGctlBody::RouteAdvertise(route) }
    }

    pub fn route_withdraw(transaction_id: u32, route: RouteWithdraw) -> (r: Self)
        ensures
            r == (RoutingGctlMessage { transaction_id, body: RoutingGctlBody::RouteWithdraw(route) }),
    {
        RoutingGctlMessage { transaction_id, body: RoutingGctlBody::RouteWithdraw(route) }
    }

    /// The 32-byte encoding: GCTL header, then the 24-byte body.
    pub fn encode(&self) -> (r: Vec<u8>)
        ensures
            r@ == spec_routing_encode(*self),
    {
        let mut out: Vec<u8> = Vec::new();
        out.push(GCTL_ROUTING_VERSION);
        let message_type = match self.body {
            RoutingGctlBody::RouterHello(_) => GCTL_ROUTER_HELLO,
            RoutingGctlBody::RouterHelloAck(_) => GCTL_ROUTER_HELLO_ACK,
            RoutingGctlBody::RouteAdvertise(_) => GCTL_ROUTE_ADVERTISE,
            RoutingGctlBody::RouteWithdraw(_) => GCTL_ROUTE_WITHDRAW,
        };
        out.push(message_type);
        out.push(0);
        out.push(0);
        push_u32(&mut out, self.transaction_id);
        match self.body {
            RoutingGctlBody::RouterHello(hello) => encode_hello(&mut out, hello),
            RoutingGctlBody::RouterHelloAck(hello) => encode_hello(&mut out, hello),
            RoutingGctlBody::RouteAdvertise(route) => encode_route_advertise(&mut out, route),
            RoutingGctlBody::RouteWithdraw(route) => encode_route_withdraw(&mut out, route),
        }
        assert(out@ =~= spec_routing_encode(*self));
        out
    }

    /// Decodes a 32-byte routing message.
    pub fn decode(buf: &[u8]) -> (r: Result<Self>)
        ensures
            r == spec_routing_decode(buf@),
    {
        if buf.len() != GCTL_HEADER_LEN + ROUTER_HELLO_BODY_LEN {
            return Err(Error::InvalidLength);
        }
        if buf[0] != GCTL_ROUTING_VERSION {
            return Err(Error::Unsupported);
        }
        if buf[2] != 0 || buf[3] != 0 {
            return Err(Error::InvalidField);
        }
        let transaction_id = read_u32(buf, 4);
        let b = crate::wire::bytes::copy_range(buf, 8, 32);
        let body = if buf[1] == GCTL_ROUTER_HELLO {
            RoutingGctlBody::RouterHello(decode_hello(b.as_slice())?)
        } else if buf[1] == GCTL_ROUTER_HELLO_ACK {
            RoutingGctlBody::RouterHelloAck(decode_hello(b.as_slice())?)
        } else if buf[1] == GCTL_ROUTE_ADVERTISE {
            RoutingGctlBody::RouteAdvertise(decode_route_advertise(b.as_slice())?)
        } else if buf[1] == GCTL_ROUTE_WITHDRAW {
            RoutingGctlBody::RouteWithdraw(decode_route_withdraw(b.as_slice())?)
        } else {
            return Err(Error::Unsupported);
        };
        Ok(RoutingGctlMessage { transaction_id, body })
    }
}

} // verus!

verus! {

/// Fields that the wire form can carry: non-zero identities, canonical prefixes.
pub open spec fn routing_message_encodable(m: RoutingGctlMessage) -> bool {
    match m.body {
        RoutingGctlBody::RouterHello(h) => h.router_id.0 != 0 && h.link_id.0 != 0,
        RoutingGctlBody::RouterHelloAck(h) => h.router_id.0 != 0 && h.link_id.0 != 0,
        RoutingGctlBody::RouteAdvertise(r) => r.advertiser.0 != 0 && r.prefix.canonical(),
        RoutingGctlBody::RouteWithdraw(r) => r.advertiser.0 != 0 && r.prefix.canonical(),
    }
}

/// Decoding an encoded routing message gives it back.
#[verifier::rlimit(40)]
pub proof fn law_routing_roundtrip(m: RoutingGctlMessage)
    requires
        routing_message_encodable(m),
    ensures
        spec_routing_decode(spec_routing_encode(m)) == Ok::<RoutingGctlMessage, Error>(m),
{
    lemma_routing_header(m);
    match m.body {
        RoutingGctlBody::RouterHello(h) => lemma_hello_body(h),
        RoutingGctlBody::RouterHelloAck(h) => lemma_hello_body(h),
        RoutingGctlBody::RouteAdvertise(r) => lemma_advertise_body(r),
        RoutingGctlBody::RouteWithdraw(r) => lemma_withdraw_body(r),
    }
}

proof fn lemma_routing_header(m: RoutingGctlMessage)
    ensures
        spec_routing_encode(m).len() == 32,
        spec_routing_encode(m)[0] == GCTL_ROUTING_VERSION,
        spec_routing_encode(m)[1] == type_and_body(m.body).0,
        spec_routing_encode(m)[2] == 0,
        spec_routing_encode(m)[3] == 0,
        be32(spec_routing_encode(m), 4) == m.transaction_id,
        spec_routing_encode(m).subrange(8, 32) == type_and_body(m.body).1,
{
    let buf = spec_routing_encode(m);
    assert(buf.subrange(4, 8) =~= u32_be(m.transaction_id));
    lemma_be32_at(buf, 4, m.transaction_id);
    assert(buf.subrange(8, 32) =~= type_and_body(m.body).1);
}

proof fn lemma_advertise_body(r: RouteAdvertise)
    requires
        r.advertiser.0 != 0,
        r.prefix.canonical(),
    ensures
        spec_decode_advertise(advertise_body(r)) == Ok::<RouteAdvertise, Error>(r),
{
    let b = advertise_body(r);
    assert(b.subrange(0, 8) =~= u64_be(r.advertiser.0));
    assert(b.subrange(8, 16) =~= u64_be(r.prefix.spec_network().0));
    assert(b.subrange(20, 24) =~= u32_be(r.metric.0));
    lemma_be64_at(b, 0, r.advertiser.0);
    lemma_be64_at(b, 8, r.prefix.spec_network().0);
    lemma_be32_at(b, 20, r.metric.0);
    GdpPrefix::lemma_spec_new(r.prefix.spec_network(), r.prefix.spec_prefix_len(), r.prefix);
}

proof fn lemma_withdraw_body(r: RouteWithdraw)
    requires
        r.advertiser.0 != 0,
        r.prefix.canonical(),
    ensures
        spec_decode_withdraw(withdraw_body(r)) == Ok::<RouteWithdraw, Error>(r),
{
    let b = withdraw_body(r);
    assert(b.subrange(0, 8) =~= u64_be(r.advertiser.0));
    assert(b.subrange(8, 16) =~= u64_be(r.prefix.spec_network().0));
    lemma_be64_at(b, 0, r.advertiser.0);
    lemma_be64_at(b, 8, r.prefix.spec_network().0);
    GdpPrefix::lemma_spec_new(r.prefix.spec_network(), r.prefix.spec_prefix_len(), r.prefix);
}

proof fn lemma_hello_body(h: RouterHello)
    requires
        h.router_id.0 != 0,
        h.link_id.0 != 0,
    ensures
        spec_decode_hello(hello_body(h)) == Ok::<RouterHello, Error>(h),
{
    let b = hello_body(h);
    assert(b.subrange(0, 8) =~= u64_be(h.router_id.0));
    assert(b.subrange(8, 16) =~= u64_be(h.link_id.0));
    assert(b.subrange(16, 20) =~= u32_be(h.hold_time_ms));
    assert(b.subrange(20, 24) =~= u32_be(h.metric.0));
    lemma_be64_at(b, 0, h.router_id.0);
    lemma_be64_at(b, 8, h.link_id.0);
    lemma_be32_at(b, 16, h.hold_time_ms);
    lemma_be32_at(b, 20, h.metric.0);
}

} // verus!

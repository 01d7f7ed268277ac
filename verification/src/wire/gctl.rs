use vstd::prelude::*;

use crate::error::{Error, Result};
use crate::wire::bytes::{
    all_zero, be16, be32, be64, check_zero, copy_range, lemma_be16_at, lemma_be32_at,
    lemma_be64_at, push_slice, push_u16, push_u32, push_u64, push_zeros, read_u16, read_u32,
    read_u64, u16_be, u32_be, u64_be, zeros,
};
use crate::wire::gdp::{class_bytes, GdpAddress, SizeClass};

verus! {

/// GCTL message type.
#[derive(Debug, Clone, Copy, PartialEq, Eq, Structural)]
pub enum GctlType {
    Solicit,
    Advertise,
    CreditRequest,
    Credit,
    NodeAnnounce,
    ReannounceSolicit,
    AddressOffer,
    AddressClaim,
    AddressAck,
    AddressNak,
    EchoRequest,
    EchoReply,
    DestinationUnreachable,
    HopLimitExceeded,
    ParameterProblem,
    ClassUnsupported,
    TransitAborted,
    PathProbe,
    PathReply,
    StatusRequest,
    StatusReply,
    GetRequest,
    GetReply,
    GetNextRequest,
    GetNextReply,
    EventReport,
    Experimental,
}

impl GctlType {
    /// Wire code of the type.
    pub open spec fn spec_code(self) -> u8 {
        match self {
            GctlType::Solicit => 0x01,
            GctlType::Advertise => 0x02,
            GctlType::CreditRequest => 0x03,
            GctlType::Credit => 0x04,
            GctlType::NodeAnnounce => 0x05,
            GctlType::ReannounceSolicit => 0x06,
            GctlType::AddressOffer => 0x10,
            GctlType::AddressClaim => 0x11,
            GctlType::AddressAck => 0x12,
            GctlType::AddressNak => 0x13,
            GctlType::EchoRequest => 0x20,
            GctlType::EchoReply => 0x21,
            GctlType::DestinationUnreachable => 0x22,
            GctlType::HopLimitExceeded => 0x23,
            GctlType::ParameterProblem => 0x24,
            GctlType::ClassUnsupported => 0x25,
            GctlType::TransitAborted => 0x26,
            GctlType::PathProbe => 0x28,
            GctlType::PathReply => 0x29,
            GctlType::StatusRequest => 0x30,
            GctlType::StatusReply => 0x31,
            GctlType::GetRequest => 0x32,
            GctlType::GetReply => 0x33,
            GctlType::GetNextRequest => 0x34,
            GctlType::GetNextReply => 0x35,
            GctlType::EventReport => 0x36,
            GctlType::Experimental => 0xff,
        }
    }

    /// The type with wire code `v`, if there is one.
    pub open spec fn spec_from_code(v: u8) -> Option<GctlType> {
        if v == 0x01 {
            Some(GctlType::Solicit)
        } else if v == 0x02 {
            Some(GctlType::Advertise)
        } else if v == 0x03 {
            Some(GctlType::CreditRequest)
        } else if v == 0x04 {
            Some(GctlType::Credit)
        } else if v == 0x05 {
            Some(GctlType::NodeAnnounce)
        } else if v == 0x06 {
            Some(GctlType::ReannounceSolicit)
        } else if v == 0x10 {
            Some(GctlType::AddressOffer)
        } else if v == 0x11 {
            Some(GctlType::AddressClaim)
        } else if v == 0x12 {
            Some(GctlType::AddressAck)
        } else if v == 0x13 {
            Some(GctlType::AddressNak)
        } else if v == 0x20 {
            Some(GctlType::EchoRequest)
        } else if v == 0x21 {
            Some(GctlType::EchoReply)
        } else if v == 0x22 {
            Some(GctlType::DestinationUnreachable)
        } else if v == 0x23 {
            Some(GctlType::HopLimitExceeded)
        } else if v == 0x24 {
            Some(GctlType::ParameterProblem)
        } else if v == 0x25 {
            Some(GctlType::ClassUnsupported)
        } else if v == 0x26 {
            Some(GctlType::TransitAborted)
        } else if v == 0x28 {
            Some(GctlType::PathProbe)
        } else if v == 0x29 {
            Some(GctlType::PathReply)
        } else if v == 0x30 {
            Some(GctlType::StatusRequest)
        } else if v == 0x31 {
            Some(GctlType::StatusReply)
        } else if v == 0x32 {
            Some(GctlType::GetRequest)
        } else if v == 0x33 {
            Some(GctlType::GetReply)
        } else if v == 0x34 {
            Some(GctlType::GetNextRequest)
        } else if v == 0x35 {
            Some(GctlType::GetNextReply)
        } else if v == 0x36 {
            Some(GctlType::EventReport)
        } else if v == 0xff {
            Some(GctlType::Experimental)
        } else {
            None
        }
    }

    /// Wire code of the type.
    pub fn to_wire(self) -> (r: u8)
        ensures
            r == self.spec_code(),
    {
        match self {
            GctlType::Solicit => 0x01,
            GctlType::Advertise => 0x02,
            GctlType::CreditRequest => 0x03,
            GctlType::Credit => 0x04,
            GctlType::NodeAnnounce => 0x05,
            GctlType::ReannounceSolicit => 0x06,
            GctlType::AddressOffer => 0x10,
            GctlType::AddressClaim => 0x11,
            GctlType::AddressAck => 0x12,
            GctlType::AddressNak => 0x13,
            GctlType::EchoRequest => 0x20,
            GctlType::EchoReply => 0x21,
            GctlType::DestinationUnreachable => 0x22,
            GctlType::HopLimitExceeded => 0x23,
            GctlType::ParameterProblem => 0x24,
            GctlType::ClassUnsupported => 0x25,
            GctlType::TransitAborted => 0x26,
            GctlType::PathProbe => 0x28,
            GctlType::PathReply => 0x29,
            GctlType::StatusRequest => 0x30,
            GctlType::StatusReply => 0x31,
            GctlType::GetRequest => 0x32,
            GctlType::GetReply => 0x33,
            GctlType::GetNextRequest => 0x34,
            GctlType::GetNextReply => 0x35,
            GctlType::EventReport => 0x36,
            GctlType::Experimental => 0xff,
        }
    }

    /// The type with wire code `v`; unknown codes are `Unsupported`.
    pub fn from_wire(v: u8) -> (r: Result<Self>)
        ensures
            match Self::spec_from_code(v) {
                Some(t) => r == Ok::<GctlType, Error>(t),
                None => r == Err::<GctlType, Error>(Error::Unsupported),
            },
    {
        match v {
            0x01 => Ok(GctlType::Solicit),
            0x02 => Ok(GctlType::Advertise),
            0x03 => Ok(GctlType::CreditRequest),
            0x04 => Ok(GctlType::Credit),
            0x05 => Ok(GctlType::NodeAnnounce),
            0x06 => Ok(GctlType::ReannounceSolicit),
            0x10 => Ok(GctlType::AddressOffer),
            0x11 => Ok(GctlType::AddressClaim),
            0x12 => Ok(GctlType::AddressAck),
            0x13 => Ok(GctlType::AddressNak),
            0x20 => Ok(GctlType::EchoRequest),
            0x21 => Ok(GctlType::EchoReply),
            0x22 => Ok(GctlType::DestinationUnreachable),
            0x23 => Ok(GctlType::HopLimitExceeded),
            0x24 => Ok(GctlType::ParameterProblem),
            0x25 => Ok(GctlType::ClassUnsupported),
            0x26 => Ok(GctlType::TransitAborted),
            0x28 => Ok(GctlType::PathProbe),
            0x29 => Ok(GctlType::PathReply),
            0x30 => Ok(GctlType::StatusRequest),
            0x31 => Ok(GctlType::StatusReply),
            0x32 => Ok(GctlType::GetRequest),
            0x33 => Ok(GctlType::GetReply),
            0x34 => Ok(GctlType::GetNextRequest),
            0x35 => Ok(GctlType::GetNextReply),
            0x36 => Ok(GctlType::EventReport),
            0xff => Ok(GctlType::Experimental),
            _ => Err(Error::Unsupported),
        }
    }
}

/// Every GCTL type reads back from its own wire code.
pub proof fn law_gctl_type_roundtrip(t: GctlType)
    ensures
        GctlType::spec_from_code(t.spec_code()) == Some(t),
{
}

/// GCTL service type carried by SOLICIT and ADVERTISE.
#[derive(Debug, Clone, Copy, PartialEq, Eq, Structural)]
pub struct ServiceType(pub u16);

impl ServiceType {
    pub fn router() -> (r: Self)
        ensures
            r.0 == 0x0001,
    {
        ServiceType(0x0001)
    }

    pub fn directory() -> (r: Self)
        ensures
            r.0 == 0x0002,
    {
        ServiceType(0x0002)
    }

    pub fn terminal_server() -> (r: Self)
        ensures
            r.0 == 0x0003,
    {
        ServiceType(0x0003)
    }

    pub fn boot_server() -> (r: Self)
        ensures
            r.0 == 0x0004,
    {
        ServiceType(0x0004)
    }

    pub fn time() -> (r: Self)
        ensures
            r.0 == 0x0005,
    {
        ServiceType(0x0005)
    }

    pub fn identity() -> (r: Self)
        ensures
            r.0 == 0x0006,
    {
        ServiceType(0x0006)
    }

    pub fn network_management() -> (r: Self)
        ensures
            r.0 == 0x0007,
    {
        ServiceType(0x0007)
    }

    pub fn session_reservation() -> (r: Self)
        ensures
            r.0 == 0x0008,
    {
        ServiceType(0x0008)
    }

    pub fn experimental() -> (r: Self)
        ensures
            r.0 == 0xffff,
    {
        ServiceType(0xffff)
    }
}

/// Discovery scope of SOLICIT and REANNOUNCE_SOLICIT.
#[derive(Debug, Clone, Copy, PartialEq, Eq, Structural)]
pub enum DiscoveryScope {
    Link,
}

/// Wire code of a discovery scope.
pub open spec fn scope_code(scope: DiscoveryScope) -> u8 {
    match scope {
        DiscoveryScope::Link => 0,
    }
}

/// Scope with wire code `v`.
pub open spec fn spec_scope_from_wire(v: u8) -> Result<DiscoveryScope> {
    if v == 0 {
        Ok(DiscoveryScope::Link)
    } else {
        Err(Error::Unsupported)
    }
}

impl DiscoveryScope {
    fn to_wire(self) -> (r: u8)
        ensures
            r == scope_code(self),
    {
        match self {
            DiscoveryScope::Link => 0,
        }
    }

    fn from_wire(v: u8) -> (r: Result<Self>)
        ensures
            r == spec_scope_from_wire(v),
    {
        match v {
            0 => Ok(DiscoveryScope::Link),
            _ => Err(Error::Unsupported),
        }
    }
}

#[derive(Debug, Clone, Copy, PartialEq, Eq, Structural)]
pub struct CreditRequest {
    pub requested_flits: u32,
}

#[derive(Debug, Clone, Copy, PartialEq, Eq, Structural)]
pub struct CreditGrant {
    pub granted_flits: u32,
}

#[derive(Debug, Clone, Copy, PartialEq, Eq, Structural)]
pub struct Solicit {
    pub service_type: ServiceType,
    pub scope: DiscoveryScope,
}

#[derive(Debug, Clone, Copy, PartialEq, Eq, Structural)]
pub struct Advertise {
    pub service_type: ServiceType,
    pub preference: u8,
    pub provider: GdpAddress,
    pub lifetime: u32,
    pub capabilities: u32,
}

/// A node announces its current GDP identity on attachment and whenever asked
/// to reannounce. `nonce` identifies the attachment instance and lets a
/// receiver distinguish a repeated announcement from an address collision.
#[derive(Debug, Clone, Copy, PartialEq, Eq, Structural)]
pub struct NodeAnnounce {
    pub node: GdpAddress,
    pub nonce: u64,
    pub capabilities: u32,
}

impl NodeAnnounce {
    /// Two announcements conflict when they claim one address from two attachments.
    pub fn conflicts_with(self, other: Self) -> (r: bool)
        ensures
            r == (self.node == other.node && self.nonce != other.nonce),
    {
        self.node.0 == other.node.0 && self.nonce != other.nonce
    }
}

/// Link-scoped request emitted when a newly present router needs the attached
/// nodes to replay NODE_ANNOUNCE. The switch itself needs no GDP address.
#[derive(Debug, Clone, Copy, PartialEq, Eq, Structural)]
pub struct ReannounceSolicit {
    pub scope: DiscoveryScope,
}

#[derive(Debug, Clone, Copy, PartialEq, Eq, Structural)]
pub struct AddressOffer {
    pub router: GdpAddress,
    pub prefix: u64,
    pub prefix_len: u8,
    pub candidate: GdpAddress,
    pub lifetime: u32,
}

#[derive(Debug, Clone, Copy, PartialEq, Eq, Structural)]
pub struct AddressClaim {
    pub candidate: GdpAddress,
    pub nonce: u64,
}

#[derive(Debug, Clone, Copy, PartialEq, Eq, Structural)]
pub struct AddressAck {
    pub candidate: GdpAddress,
    pub lifetime: u32,
}

#[derive(Debug, Clone, Copy, PartialEq, Eq, Structural)]
pub struct AddressNak {
    pub candidate: GdpAddress,
    pub reason: u8,
    pub retry_delay: u32,
}

/// Whether `len` is a prefix length that GCTL addressing uses.
pub open spec fn valid_prefix_len(len: u8) -> bool {
    len == 16 || len == 32 || len == 48 || len == 56
}

/// Mask keeping the top `len` bits.
pub open spec fn spec_prefix_mask(len: u8) -> u64 {
    0xffff_ffff_ffff_ffffu64 << ((64 - len) as u64)
}

fn prefix_mask(prefix_len: u8) -> (r: Result<u64>)
    ensures
        valid_prefix_len(prefix_len) ==> r == Ok::<u64, Error>(spec_prefix_mask(prefix_len)),
        !valid_prefix_len(prefix_len) ==> r == Err::<u64, Error>(Error::InvalidField),
{
    match prefix_len {
        16 | 32 | 48 | 56 => {
            let shift: u64 = (64 - prefix_len) as u64;
            Ok(0xffff_ffff_ffff_ffffu64 << shift)
        },
        _ => Err(Error::InvalidField),
    }
}

/// Clears the bits of `prefix` below its length.
pub fn normalize_prefix(prefix: u64, prefix_len: u8) -> (r: Result<u64>)
    ensures
        valid_prefix_len(prefix_len) ==> r == Ok::<u64, Error>(
            prefix & spec_prefix_mask(prefix_len),
        ),
        !valid_prefix_len(prefix_len) ==> r == Err::<u64, Error>(Error::InvalidField),
{
    let mask = prefix_mask(prefix_len)?;
    Ok(prefix & mask)
}

/// Whether `address` lies under `prefix/prefix_len`.
pub fn address_matches_prefix(address: GdpAddress, prefix: u64, prefix_len: u8) -> (r: Result<bool>)
    ensures
        valid_prefix_len(prefix_len) ==> r == Ok::<bool, Error>(
            (address.0 & spec_prefix_mask(prefix_len)) == (prefix & spec_prefix_mask(
                prefix_len,
            )),
        ),
        !valid_prefix_len(prefix_len) ==> r == Err::<bool, Error>(Error::InvalidField),
{
    let mask = prefix_mask(prefix_len)?;
    Ok((address.0 & mask) == (prefix & mask))
}

/// A GCTL control message.
#[derive(Debug, Clone, PartialEq, Eq)]
pub struct GctlMessage {
    pub version: u8,
    pub message_type: GctlType,
    pub code: u8,
    pub flags: u8,
    pub transaction_id: u32,
    pub body: Vec<u8>,
}

/// Mathematical value of a GCTL message.
pub struct GctlMessageView {
    pub version: u8,
    pub message_type: GctlType,
    pub code: u8,
    pub flags: u8,
    pub transaction_id: u32,
    pub body: Seq<u8>,
}

impl View for GctlMessage {
    type V = GctlMessageView;

    open spec fn view(&self) -> GctlMessageView {
        GctlMessageView {
            version: self.version,
            message_type: self.message_type,
            code: self.code,
            flags: self.flags,
            transaction_id: self.transaction_id,
            body: self.body@,
        }
    }
}

/// A version-1 message with code and flags zero.
pub open spec fn gctl_view(t: GctlType, transaction_id: u32, body: Seq<u8>) -> GctlMessageView {
    GctlMessageView { version: 1, message_type: t, code: 0, flags: 0, transaction_id, body }
}

/// Encoding of `m` padded with zeros to `total` bytes.
pub open spec fn spec_gctl_encode_exact(m: GctlMessageView, total: nat) -> Result<Seq<u8>> {
    if m.version != 1 || total < 8 + m.body.len() {
        Err(Error::InvalidLength)
    } else {
        Ok(
            seq![m.version, m.message_type.spec_code(), m.code, m.flags] + u32_be(
                m.transaction_id,
            ) + m.body + zeros((total - 8 - m.body.len()) as nat),
        )
    }
}

/// Message decoded from `buf`; everything after the eight header bytes is body.
pub open spec fn spec_gctl_decode(buf: Seq<u8>) -> Result<GctlMessageView> {
    if buf.len() < 8 {
        Err(Error::InvalidLength)
    } else if buf[0] != 1 {
        Err(Error::Unsupported)
    } else {
        match GctlType::spec_from_code(buf[1]) {
            None => Err(Error::Unsupported),
            Some(t) => Ok(
                GctlMessageView {
                    version: buf[0],
                    message_type: t,
                    code: buf[2],
                    flags: buf[3],
                    transaction_id: be32(buf, 4) as u32,
                    body: buf.subrange(8, buf.len() as int),
                },
            ),
        }
    }
}

/// Checks that the body of `m` belongs to type `expected`, is at least `len`
/// bytes long, and has only zero bytes after them.
pub open spec fn spec_typed_body(m: GctlMessageView, expected: GctlType, len: nat) -> Result<()> {
    if m.message_type != expected || m.body.len() < len {
        Err(Error::InvalidLength)
    } else if !all_zero(m.body, len as int, m.body.len() as int) {
        Err(Error::InvalidField)
    } else {
        Ok(())
    }
}

pub open spec fn spec_parse_credit_request(m: GctlMessageView) -> Result<CreditRequest> {
    match spec_typed_body(m, GctlType::CreditRequest, 4) {
        Err(e) => Err(e),
        Ok(_) => Ok(CreditRequest { requested_flits: be32(m.body, 0) as u32 }),
    }
}

pub open spec fn spec_parse_credit(m: GctlMessageView) -> Result<CreditGrant> {
    match spec_typed_body(m, GctlType::Credit, 4) {
        Err(e) => Err(e),
        Ok(_) => Ok(CreditGrant { granted_flits: be32(m.body, 0) as u32 }),
    }
}

pub open spec fn solicit_body(service_type: ServiceType, scope: DiscoveryScope) -> Seq<u8> {
    u16_be(service_type.0) + seq![scope_code(scope), 0u8]
}

pub open spec fn spec_parse_solicit(m: GctlMessageView) -> Result<Solicit> {
    match spec_typed_body(m, GctlType::Solicit, 4) {
        Err(e) => Err(e),
        Ok(_) => if m.body[3] != 0 {
            Err(Error::InvalidField)
        } else {
            match spec_scope_from_wire(m.body[2]) {
                Err(e) => Err(e),
                Ok(scope) => Ok(
                    Solicit { service_type: ServiceType(be16(m.body, 0) as u16), scope },
                ),
            }
        },
    }
}

pub open spec fn advertise_body(a: Advertise) -> Seq<u8> {
    u16_be(a.service_type.0) + seq![a.preference, 0u8] + u64_be(a.provider.0) + u32_be(
        a.lifetime,
    ) + u32_be(a.capabilities)
}

pub open spec fn spec_parse_advertise(m: GctlMessageView) -> Result<Advertise> {
    match spec_typed_body(m, GctlType::Advertise, 20) {
        Err(e) => Err(e),
        Ok(_) => if m.body[3] != 0 {
            Err(Error::InvalidField)
        } else {
            Ok(
                Advertise {
                    service_type: ServiceType(be16(m.body, 0) as u16),
                    preference: m.body[2],
                    provider: GdpAddress(be64(m.body, 4) as u64),
                    lifetime: be32(m.body, 12) as u32,
                    capabilities: be32(m.body, 16) as u32,
                },
            )
        },
    }
}

pub open spec fn node_announce_body(a: NodeAnnounce) -> Seq<u8> {
    u64_be(a.node.0) + u64_be(a.nonce) + u32_be(a.capabilities)
}

pub open spec fn spec_parse_node_announce(m: GctlMessageView) -> Result<NodeAnnounce> {
    match spec_typed_body(m, GctlType::NodeAnnounce, 20) {
        Err(e) => Err(e),
        Ok(_) => Ok(
            NodeAnnounce {
                node: GdpAddress(be64(m.body, 0) as u64),
                nonce: be64(m.body, 8) as u64,
                capabilities: be32(m.body, 16) as u32,
            },
        ),
    }
}

pub open spec fn spec_parse_reannounce_solicit(m: GctlMessageView) -> Result<ReannounceSolicit> {
    match spec_typed_body(m, GctlType::ReannounceSolicit, 4) {
        Err(e) => Err(e),
        Ok(_) => if !all_zero(m.body, 1, 4) {
            Err(Error::InvalidField)
        } else {
            match spec_scope_from_wire(m.body[0]) {
                Err(e) => Err(e),
                Ok(scope) => Ok(ReannounceSolicit { scope }),
            }
        },
    }
}

/// An offer is well formed: canonical prefix of a used length, candidate under it.
pub open spec fn offer_valid(o: AddressOffer) -> bool {
    &&& valid_prefix_len(o.prefix_len)
    &&& (o.prefix & spec_prefix_mask(o.prefix_len)) == o.prefix
    &&& (o.candidate.0 & spec_prefix_mask(o.prefix_len)) == (o.prefix & spec_prefix_mask(
        o.prefix_len,
    ))
}

pub open spec fn address_offer_body(o: AddressOffer) -> Seq<u8> {
    u64_be(o.router.0) + u64_be(o.prefix) + seq![o.prefix_len, 0u8, 0u8, 0u8] + u64_be(
        o.candidate.0,
    ) + u32_be(o.lifetime)
}

pub open spec fn spec_parse_address_offer(m: GctlMessageView) -> Result<AddressOffer> {
    match spec_typed_body(m, GctlType::AddressOffer, 32) {
        Err(e) => Err(e),
        Ok(_) => if !all_zero(m.body, 17, 20) {
            Err(Error::InvalidField)
        } else {
            let o = AddressOffer {
                router: GdpAddress(be64(m.body, 0) as u64),
                prefix: be64(m.body, 8) as u64,
                prefix_len: m.body[16],
                candidate: GdpAddress(be64(m.body, 20) as u64),
                lifetime: be32(m.body, 28) as u32,
            };
            if offer_valid(o) {
                Ok(o)
            } else {
                Err(Error::InvalidField)
            }
        },
    }
}

pub open spec fn address_claim_body(c: AddressClaim) -> Seq<u8> {
    u64_be(c.candidate.0) + u64_be(c.nonce)
}

pub open spec fn spec_parse_address_claim(m: GctlMessageView) -> Result<AddressClaim> {
    match spec_typed_body(m, GctlType::AddressClaim, 16) {
        Err(e) => Err(e),
        Ok(_) => Ok(
            AddressClaim {
                candidate: GdpAddress(be64(m.body, 0) as u64),
                nonce: be64(m.body, 8) as u64,
            },
        ),
    }
}

pub open spec fn address_ack_body(a: AddressAck) -> Seq<u8> {
    u64_be(a.candidate.0) + u32_be(a.lifetime)
}

pub open spec fn spec_parse_address_ack(m: GctlMessageView) -> Result<AddressAck> {
    match spec_typed_body(m, GctlType::AddressAck, 12) {
        Err(e) => Err(e),
        Ok(_) => Ok(
            AddressAck {
                candidate: GdpAddress(be64(m.body, 0) as u64),
                lifetime: be32(m.body, 8) as u32,
            },
        ),
    }
}

pub open spec fn address_nak_body(n: AddressNak) -> Seq<u8> {
    u64_be(n.candidate.0) + u32_be(n.retry_delay)
}

pub open spec fn spec_parse_address_nak(m: GctlMessageView) -> Result<AddressNak> {
    match spec_typed_body(m, GctlType::AddressNak, 12) {
        Err(e) => Err(e),
        Ok(_) => Ok(
            AddressNak {
                candidate: GdpAddress(be64(m.body, 0) as u64),
                reason: m.code,
                retry_delay: be32(m.body, 8) as u32,
            },
        ),
    }
}

} // verus!

verus! {

impl GctlMessage {
    /// A version-1 message with code and flags zero.
    pub fn new(message_type: GctlType, transaction_id: u32, body: Vec<u8>) -> (r: Self)
        ensures
            r@ == gctl_view(message_type, transaction_id, body@),
    {
        GctlMessage { version: 1, message_type, code: 0, flags: 0, transaction_id, body }
    }

    /// Header plus body length.
    pub fn encoded_len(&self) -> (r: usize)
        requires
            self.body@.len() + 8 <= usize::MAX,
        ensures
            r == self.body@.len() + 8,
    {
        8 + self.body.len()
    }

    /// The smallest GDP size class that holds the encoded message.
    pub fn recommended_size_class(&self) -> (r: Result<SizeClass>)
        requires
            self.body@.len() + 8 <= usize::MAX,
        ensures
            match r {
                Ok(c) => c.spec_bytes() >= self.body@.len() + 8 && forall|k: int|
                    0 <= k < c.code() ==> class_bytes(k) < self.body@.len() + 8,
                Err(e) => e == Error::MessageTooLarge && self.body@.len() + 8 > 8192,
            },
    {
        match SizeClass::smallest_for(self.encoded_len()) {
            Some(c) => Ok(c),
            None => Err(Error::MessageTooLarge),
        }
    }

    /// Encodes the message padded with zeros to exactly `total` bytes.
    pub fn encode_exact(&self, total: usize) -> (r: Result<Vec<u8>>)
        ensures
            match spec_gctl_encode_exact(self@, total as nat) {
                Ok(b) => r is Ok && r->Ok_0@ == b,
                Err(e) => r is Err && r->Err_0 == e,
            },
    {
        if self.version != 1 || total < 8 || total - 8 < self.body.len() {
            return Err(Error::InvalidLength);
        }
        let mut o: Vec<u8> = Vec::new();
        o.push(self.version);
        o.push(self.message_type.to_wire());
        o.push(self.code);
        o.push(self.flags);
        push_u32(&mut o, self.transaction_id);
        push_slice(&mut o, self.body.as_slice());
        push_zeros(&mut o, total - 8 - self.body.len());
        proof {
            assert(o@ =~= seq![self.version, self.message_type.spec_code(), self.code, self.flags]
                + u32_be(self.transaction_id) + self.body@ + zeros(
                (total - 8 - self.body@.len()) as nat,
            ));
        }
        Ok(o)
    }

    /// Decodes a message; the body is everything after the eight header bytes.
    pub fn decode(buf: &[u8]) -> (r: Result<Self>)
        ensures
            match spec_gctl_decode(buf@) {
                Ok(m) => r is Ok && r->Ok_0@ == m,
                Err(e) => r is Err && r->Err_0 == e,
            },
    {
        if buf.len() < 8 {
            return Err(Error::InvalidLength);
        }
        if buf[0] != 1 {
            return Err(Error::Unsupported);
        }
        let message_type = GctlType::from_wire(buf[1])?;
        let transaction_id = read_u32(buf, 4);
        let body = copy_range(buf, 8, buf.len());
        Ok(
            GctlMessage {
                version: buf[0],
                message_type,
                code: buf[2],
                flags: buf[3],
                transaction_id,
                body,
            },
        )
    }

    fn typed_body(&self, expected: GctlType, len: usize) -> (r: Result<()>)
        ensures
            r == spec_typed_body(self@, expected, len as nat),
    {
        if self.message_type != expected || self.body.len() < len {
            return Err(Error::InvalidLength);
        }
        if !check_zero(self.body.as_slice(), len, self.body.len()) {
            return Err(Error::InvalidField);
        }
        Ok(())
    }

    /// Reply to an ECHO_REQUEST carrying the same transaction and body.
    pub fn echo_reply(&self) -> (r: Result<Self>)
        ensures
            self.message_type != GctlType::EchoRequest ==> r is Err && r->Err_0
                == Error::InvalidState,
            self.message_type == GctlType::EchoRequest ==> r is Ok && r->Ok_0@ == (
            GctlMessageView { message_type: GctlType::EchoReply, ..self@ }),
    {
        if self.message_type != GctlType::EchoRequest {
            return Err(Error::InvalidState);
        }
        let body = copy_range(self.body.as_slice(), 0, self.body.len());
        proof {
            assert(self.body@.subrange(0, self.body@.len() as int) =~= self.body@);
        }
        Ok(
            GctlMessage {
                version: self.version,
                message_type: GctlType::EchoReply,
                code: self.code,
                flags: self.flags,
                transaction_id: self.transaction_id,
                body,
            },
        )
    }

    pub fn credit_request(transaction_id: u32, requested_flits: u32) -> (r: Self)
        ensures
            r@ == gctl_view(GctlType::CreditRequest, transaction_id, u32_be(requested_flits)),
    {
        let mut body: Vec<u8> = Vec::new();
        push_u32(&mut body, requested_flits);
        proof {
            assert(body@ =~= u32_be(requested_flits));
        }
        Self::new(GctlType::CreditRequest, transaction_id, body)
    }

    pub fn parse_credit_request(&self) -> (r: Result<CreditRequest>)
        ensures
            r == spec_parse_credit_request(self@),
    {
        self.typed_body(GctlType::CreditRequest, 4)?;
        Ok(CreditRequest { requested_flits: read_u32(self.body.as_slice(), 0) })
    }

    pub fn credit(transaction_id: u32, granted_flits: u32) -> (r: Self)
        ensures
            r@ == gctl_view(GctlType::Credit, transaction_id, u32_be(granted_flits)),
    {
        let mut body: Vec<u8> = Vec::new();
        push_u32(&mut body, granted_flits);
        proof {
            assert(body@ =~= u32_be(granted_flits));
        }
        Self::new(GctlType::Credit, transaction_id, body)
    }

    pub fn parse_credit(&self) -> (r: Result<CreditGrant>)
        ensures
            r == spec_parse_credit(self@),
    {
        self.typed_body(GctlType::Credit, 4)?;
        Ok(CreditGrant { granted_flits: read_u32(self.body.as_slice(), 0) })
    }

    pub fn solicit(transaction_id: u32, service_type: ServiceType, scope: DiscoveryScope) -> (r:
        Self)
        ensures
            r@ == gctl_view(GctlType::Solicit, transaction_id, solicit_body(service_type, scope)),
    {
        let mut body: Vec<u8> = Vec::new();
        push_u16(&mut body, service_type.0);
        body.push(scope.to_wire());
        body.push(0);
        proof {
            assert(body@ =~= solicit_body(service_type, scope));
        }
        Self::new(GctlType::Solicit, transaction_id, body)
    }

    pub fn parse_solicit(&self) -> (r: Result<Solicit>)
        ensures
            r == spec_parse_solicit(self@),
    {
        self.typed_body(GctlType::Solicit, 4)?;
        if self.body[3] != 0 {
            return Err(Error::InvalidField);
        }
        let scope = DiscoveryScope::from_wire(self.body[2])?;
        Ok(Solicit { service_type: ServiceType(read_u16(self.body.as_slice(), 0)), scope })
    }

    pub fn advertise(transaction_id: u32, advertise: Advertise) -> (r: Self)
        ensures
            r@ == gctl_view(GctlType::Advertise, transaction_id, advertise_body(advertise)),
    {
        let mut body: Vec<u8> = Vec::new();
        push_u16(&mut body, advertise.service_type.0);
        body.push(advertise.preference);
        body.push(0);
        push_u64(&mut body, advertise.provider.0);
        push_u32(&mut body, advertise.lifetime);
        push_u32(&mut body, advertise.capabilities);
        proof {
            assert(body@ =~= advertise_body(advertise));
        }
        Self::new(GctlType::Advertise, transaction_id, body)
    }

    pub fn parse_advertise(&self) -> (r: Result<Advertise>)
        ensures
            r == spec_parse_advertise(self@),
    {
        self.typed_body(GctlType::Advertise, 20)?;
        if self.body[3] != 0 {
            return Err(Error::InvalidField);
        }
        let b = self.body.as_slice();
        Ok(
            Advertise {
                service_type: ServiceType(read_u16(b, 0)),
                preference: b[2],
                provider: GdpAddress(read_u64(b, 4)),
                lifetime: read_u32(b, 12),
                capabilities: read_u32(b, 16),
            },
        )
    }

    pub fn node_announce(transaction_id: u32, announce: NodeAnnounce) -> (r: Self)
        ensures
            r@ == gctl_view(GctlType::NodeAnnounce, transaction_id, node_announce_body(announce)),
    {
        let mut body: Vec<u8> = Vec::new();
        push_u64(&mut body, announce.node.0);
        push_u64(&mut body, announce.nonce);
        push_u32(&mut body, announce.capabilities);
        proof {
            assert(body@ =~= node_announce_body(announce));
        }
        Self::new(GctlType::NodeAnnounce, transaction_id, body)
    }

    pub fn parse_node_announce(&self) -> (r: Result<NodeAnnounce>)
        ensures
            r == spec_parse_node_announce(self@),
    {
        self.typed_body(GctlType::NodeAnnounce, 20)?;
        let b = self.body.as_slice();
        Ok(
            NodeAnnounce {
                node: GdpAddress(read_u64(b, 0)),
                nonce: read_u64(b, 8),
                capabilities: read_u32(b, 16),
            },
        )
    }

    pub fn reannounce_solicit(transaction_id: u32, scope: DiscoveryScope) -> (r: Self)
        ensures
            r@ == gctl_view(
                GctlType::ReannounceSolicit,
                transaction_id,
                seq![scope_code(scope), 0u8, 0u8, 0u8],
            ),
    {
        let mut body: Vec<u8> = Vec::new();
        body.push(scope.to_wire());
        body.push(0);
        body.push(0);
        body.push(0);
        proof {
            assert(body@ =~= seq![scope_code(scope), 0u8, 0u8, 0u8]);
        }
        Self::new(GctlType::ReannounceSolicit, transaction_id, body)
    }

    pub fn parse_reannounce_solicit(&self) -> (r: Result<ReannounceSolicit>)
        ensures
            r == spec_parse_reannounce_solicit(self@),
    {
        self.typed_body(GctlType::ReannounceSolicit, 4)?;
        if !check_zero(self.body.as_slice(), 1, 4) {
            return Err(Error::InvalidField);
        }
        let scope = DiscoveryScope::from_wire(self.body[0])?;
        Ok(ReannounceSolicit { scope })
    }

    pub fn address_offer(transaction_id: u32, offer: AddressOffer) -> (r: Result<Self>)
        ensures
            offer_valid(offer) ==> r is Ok && r->Ok_0@ == gctl_view(
                GctlType::AddressOffer,
                transaction_id,
                address_offer_body(offer),
            ),
            !offer_valid(offer) ==> r is Err && r->Err_0 == Error::InvalidField,
    {
        let normalized = normalize_prefix(offer.prefix, offer.prefix_len)?;
        if normalized != offer.prefix || !address_matches_prefix(
            offer.candidate,
            offer.prefix,
            offer.prefix_len,
        )? {
            return Err(Error::InvalidField);
        }
        let mut body: Vec<u8> = Vec::new();
        push_u64(&mut body, offer.router.0);
        push_u64(&mut body, offer.prefix);
        body.push(offer.prefix_len);
        body.push(0);
        body.push(0);
        body.push(0);
        push_u64(&mut body, offer.candidate.0);
        push_u32(&mut body, offer.lifetime);
        proof {
            assert(body@ =~= address_offer_body(offer));
        }
        Ok(Self::new(GctlType::AddressOffer, transaction_id, body))
    }

    pub fn parse_address_offer(&self) -> (r: Result<AddressOffer>)
        ensures
            r == spec_parse_address_offer(self@),
    {
        self.typed_body(GctlType::AddressOffer, 32)?;
        if !check_zero(self.body.as_slice(), 17, 20) {
            return Err(Error::InvalidField);
        }
        let b = self.body.as_slice();
        let offer = AddressOffer {
            router: GdpAddress(read_u64(b, 0)),
            prefix: read_u64(b, 8),
            prefix_len: b[16],
            candidate: GdpAddress(read_u64(b, 20)),
            lifetime: read_u32(b, 28),
        };
        if normalize_prefix(offer.prefix, offer.prefix_len)? != offer.prefix
            || !address_matches_prefix(offer.candidate, offer.prefix, offer.prefix_len)? {
            return Err(Error::InvalidField);
        }
        Ok(offer)
    }

    pub fn address_claim(transaction_id: u32, claim: AddressClaim) -> (r: Self)
        ensures
            r@ == gctl_view(GctlType::AddressClaim, transaction_id, address_claim_body(claim)),
    {
        let mut body: Vec<u8> = Vec::new();
        push_u64(&mut body, claim.candidate.0);
        push_u64(&mut body, claim.nonce);
        proof {
            assert(body@ =~= address_claim_body(claim));
        }
        Self::new(GctlType::AddressClaim, transaction_id, body)
    }

    pub fn parse_address_claim(&self) -> (r: Result<AddressClaim>)
        ensures
            r == spec_parse_address_claim(self@),
    {
        self.typed_body(GctlType::AddressClaim, 16)?;
        let b = self.body.as_slice();
        Ok(AddressClaim { candidate: GdpAddress(read_u64(b, 0)), nonce: read_u64(b, 8) })
    }

    pub fn address_ack(transaction_id: u32, ack: AddressAck) -> (r: Self)
        ensures
            r@ == gctl_view(GctlType::AddressAck, transaction_id, address_ack_body(ack)),
    {
        let mut body: Vec<u8> = Vec::new();
        push_u64(&mut body, ack.candidate.0);
        push_u32(&mut body, ack.lifetime);
        proof {
            assert(body@ =~= address_ack_body(ack));
        }
        Self::new(GctlType::AddressAck, transaction_id, body)
    }

    pub fn parse_address_ack(&self) -> (r: Result<AddressAck>)
        ensures
            r == spec_parse_address_ack(self@),
    {
        self.typed_body(GctlType::AddressAck, 12)?;
        let b = self.body.as_slice();
        Ok(AddressAck { candidate: GdpAddress(read_u64(b, 0)), lifetime: read_u32(b, 8) })
    }

    /// ADDRESS_NAK; the reason travels in the header's code byte.
    pub fn address_nak(transaction_id: u32, nak: AddressNak) -> (r: Self)
        ensures
            r@ == (GctlMessageView {
                code: nak.reason,
                ..gctl_view(GctlType::AddressNak, transaction_id, address_nak_body(nak))
            }),
    {
        let mut body: Vec<u8> = Vec::new();
        push_u64(&mut body, nak.candidate.0);
        push_u32(&mut body, nak.retry_delay);
        proof {
            assert(body@ =~= address_nak_body(nak));
        }
        let mut msg = Self::new(GctlType::AddressNak, transaction_id, body);
        msg.code = nak.reason;
        msg
    }

    pub fn parse_address_nak(&self) -> (r: Result<AddressNak>)
        ensures
            r == spec_parse_address_nak(self@),
    {
        self.typed_body(GctlType::AddressNak, 12)?;
        let b = self.body.as_slice();
        Ok(
            AddressNak {
                candidate: GdpAddress(read_u64(b, 0)),
                reason: self.code,
                retry_delay: read_u32(b, 8),
            },
        )
    }
}

} // verus!

verus! {

/// Decoding an exactly encoded message gives it back, its body followed by the padding.
pub proof fn law_gctl_encode_decode(m: GctlMessageView, total: nat)
    requires
        spec_gctl_encode_exact(m, total) is Ok,
    ensures
        spec_gctl_decode(spec_gctl_encode_exact(m, total)->Ok_0) == Ok::<GctlMessageView, Error>(
            GctlMessageView { body: m.body + zeros((total - 8 - m.body.len()) as nat), ..m },
        ),
{
    let b = spec_gctl_encode_exact(m, total)->Ok_0;
    assert(b.subrange(4, 8) =~= u32_be(m.transaction_id));
    lemma_be32_at(b, 4, m.transaction_id);
    assert(b.subrange(8, b.len() as int) =~= m.body + zeros((total - 8 - m.body.len()) as nat));
}

/// CREDIT_REQUEST parses back to the requested credit.
pub proof fn law_credit_request_roundtrip(transaction_id: u32, requested_flits: u32)
    ensures
        spec_parse_credit_request(
            gctl_view(GctlType::CreditRequest, transaction_id, u32_be(requested_flits)),
        ) == Ok::<CreditRequest, Error>(CreditRequest { requested_flits }),
{
    let b = u32_be(requested_flits);
    assert(b.subrange(0, 4) =~= b);
    lemma_be32_at(b, 0, requested_flits);
}

/// CREDIT parses back to the granted credit.
pub proof fn law_credit_roundtrip(transaction_id: u32, granted_flits: u32)
    ensures
        spec_parse_credit(gctl_view(GctlType::Credit, transaction_id, u32_be(granted_flits)))
            == Ok::<CreditGrant, Error>(CreditGrant { granted_flits }),
{
    let b = u32_be(granted_flits);
    assert(b.subrange(0, 4) =~= b);
    lemma_be32_at(b, 0, granted_flits);
}

/// SOLICIT parses back to its service type and scope.
pub proof fn law_solicit_roundtrip(transaction_id: u32, s: Solicit)
    ensures
        spec_parse_solicit(
            gctl_view(GctlType::Solicit, transaction_id, solicit_body(s.service_type, s.scope)),
        ) == Ok::<Solicit, Error>(s),
{
    let b = solicit_body(s.service_type, s.scope);
    assert(b.subrange(0, 2) =~= u16_be(s.service_type.0));
    lemma_be16_at(b, 0, s.service_type.0);
}

/// ADVERTISE parses back to the advertisement.
pub proof fn law_advertise_roundtrip(transaction_id: u32, a: Advertise)
    ensures
        spec_parse_advertise(gctl_view(GctlType::Advertise, transaction_id, advertise_body(a)))
            == Ok::<Advertise, Error>(a),
{
    let b = advertise_body(a);
    assert(b.subrange(0, 2) =~= u16_be(a.service_type.0));
    assert(b.subrange(4, 12) =~= u64_be(a.provider.0));
    assert(b.subrange(12, 16) =~= u32_be(a.lifetime));
    assert(b.subrange(16, 20) =~= u32_be(a.capabilities));
    lemma_be16_at(b, 0, a.service_type.0);
    lemma_be64_at(b, 4, a.provider.0);
    lemma_be32_at(b, 12, a.lifetime);
    lemma_be32_at(b, 16, a.capabilities);
}

/// NODE_ANNOUNCE parses back to the announcement.
pub proof fn law_node_announce_roundtrip(transaction_id: u32, a: NodeAnnounce)
    ensures
        spec_parse_node_announce(
            gctl_view(GctlType::NodeAnnounce, transaction_id, node_announce_body(a)),
        ) == Ok::<NodeAnnounce, Error>(a),
{
    let b = node_announce_body(a);
    assert(b.subrange(0, 8) =~= u64_be(a.node.0));
    assert(b.subrange(8, 16) =~= u64_be(a.nonce));
    assert(b.subrange(16, 20) =~= u32_be(a.capabilities));
    lemma_be64_at(b, 0, a.node.0);
    lemma_be64_at(b, 8, a.nonce);
    lemma_be32_at(b, 16, a.capabilities);
}

/// REANNOUNCE_SOLICIT parses back to its scope.
pub proof fn law_reannounce_solicit_roundtrip(transaction_id: u32, s: ReannounceSolicit)
    ensures
        spec_parse_reannounce_solicit(
            gctl_view(
                GctlType::ReannounceSolicit,
                transaction_id,
                seq![scope_code(s.scope), 0u8, 0u8, 0u8],
            ),
        ) == Ok::<ReannounceSolicit, Error>(s),
{
}

/// A well-formed ADDRESS_OFFER parses back to the offer.
pub proof fn law_address_offer_roundtrip(transaction_id: u32, o: AddressOffer)
    requires
        offer_valid(o),
    ensures
        spec_parse_address_offer(
            gctl_view(GctlType::AddressOffer, transaction_id, address_offer_body(o)),
        ) == Ok::<AddressOffer, Error>(o),
{
    let b = address_offer_body(o);
    assert(b.subrange(0, 8) =~= u64_be(o.router.0));
    assert(b.subrange(8, 16) =~= u64_be(o.prefix));
    assert(b.subrange(20, 28) =~= u64_be(o.candidate.0));
    assert(b.subrange(28, 32) =~= u32_be(o.lifetime));
    lemma_be64_at(b, 0, o.router.0);
    lemma_be64_at(b, 8, o.prefix);
    lemma_be64_at(b, 20, o.candidate.0);
    lemma_be32_at(b, 28, o.lifetime);
    assert(b[16] == o.prefix_len);
}

/// ADDRESS_CLAIM parses back to the claim.
pub proof fn law_address_claim_roundtrip(transaction_id: u32, c: AddressClaim)
    ensures
        spec_parse_address_claim(
            gctl_view(GctlType::AddressClaim, transaction_id, address_claim_body(c)),
        ) == Ok::<AddressClaim, Error>(c),
{
    let b = address_claim_body(c);
    assert(b.subrange(0, 8) =~= u64_be(c.candidate.0));
    assert(b.subrange(8, 16) =~= u64_be(c.nonce));
    lemma_be64_at(b, 0, c.candidate.0);
    lemma_be64_at(b, 8, c.nonce);
}

/// ADDRESS_ACK parses back to the acknowledgement.
pub proof fn law_address_ack_roundtrip(transaction_id: u32, a: AddressAck)
    ensures
        spec_parse_address_ack(gctl_view(GctlType::AddressAck, transaction_id, address_ack_body(a)))
            == Ok::<AddressAck, Error>(a),
{
    let b = address_ack_body(a);
    assert(b.subrange(0, 8) =~= u64_be(a.candidate.0));
    assert(b.subrange(8, 12) =~= u32_be(a.lifetime));
    lemma_be64_at(b, 0, a.candidate.0);
    lemma_be32_at(b, 8, a.lifetime);
}

/// ADDRESS_NAK parses back to the refusal, reason included.
pub proof fn law_address_nak_roundtrip(transaction_id: u32, n: AddressNak)
    ensures
        spec_parse_address_nak(
            GctlMessageView {
                code: n.reason,
                ..gctl_view(GctlType::AddressNak, transaction_id, address_nak_body(n))
            },
        ) == Ok::<AddressNak, Error>(n),
{
    let b = address_nak_body(n);
    assert(b.subrange(0, 8) =~= u64_be(n.candidate.0));
    assert(b.subrange(8, 12) =~= u32_be(n.retry_delay));
    lemma_be64_at(b, 0, n.candidate.0);
    lemma_be32_at(b, 8, n.retry_delay);
}

} // verus!

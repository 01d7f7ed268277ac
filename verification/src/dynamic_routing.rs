use vstd::prelude::*;

use crate::error::{Error, Result};
use crate::entropy::{fill_random, unexpected_random_error};
use getrandom::Error as RandomError;

verus! {

/// Identity of a router; zero is reserved.
#[derive(Debug, Clone, Copy, PartialEq, Eq, Structural, PartialOrd, Ord, Hash)]
pub struct RouterId(pub u64);

impl RouterId {
    /// A router id; zero is refused.
    pub fn new(value: u64) -> (r: Result<Self>)
        ensures
            value == 0 ==> r == Err::<RouterId, Error>(Error::InvalidField),
            value != 0 ==> r == Ok::<RouterId, Error>(RouterId(value)),
    {
        if value == 0 {
            return Err(Error::InvalidField);
        }
        Ok(RouterId(value))
    }

    /// The router id whose big-endian bytes are `bytes`, unless they are all zero.
    pub fn from_random_bytes(bytes: &[u8]) -> (r: Option<Self>)
        requires
            bytes@.len() == 8,
        ensures
            crate::wire::bytes::be64(bytes@, 0) == 0 ==> r is None,
            crate::wire::bytes::be64(bytes@, 0) != 0 ==> r == Some(
                RouterId(crate::wire::bytes::be64(bytes@, 0) as u64),
            ),
    {
        let value = crate::wire::bytes::read_u64(bytes, 0);
        if value != 0 {
            Some(RouterId(value))
        } else {
            None
        }
    }

    /// A random non-zero router id from the system's random source, drawing
    /// again while the bytes are all zero; the source's error when it fails.
    /// The source's unexpected-result error comes back only after it gave
    /// zero bytes 2^64 - 1 times in a row.
    pub fn random() -> (r: core::result::Result<Self, RandomError>)
        ensures
            r is Ok ==> (r->Ok_0).0 != 0,
    {
        let mut attempts: u64 = u64::MAX;
        while attempts > 0
            decreases attempts,
        {
            let mut bytes: Vec<u8> = Vec::new();
            bytes.push(0);
            bytes.push(0);
            bytes.push(0);
            bytes.push(0);
            bytes.push(0);
            bytes.push(0);
            bytes.push(0);
            bytes.push(0);
            match fill_random(bytes.as_mut_slice()) {
                Ok(()) => {},
                Err(e) => {
                    return Err(e);
                },
            }
            match Self::from_random_bytes(bytes.as_slice()) {
                Some(id) => {
                    return Ok(id);
                },
                None => {},
            }
            attempts = attempts - 1;
        }
        Err(unexpected_random_error())
    }
}

/// Identity of a link between routers; zero is reserved.
#[derive(Debug, Clone, Copy, PartialEq, Eq, Structural, PartialOrd, Ord, Hash)]
pub struct LinkId(pub u64);

impl LinkId {
    /// A link id; zero is refused.
    pub fn new(value: u64) -> (r: Result<Self>)
        ensures
            value == 0 ==> r == Err::<LinkId, Error>(Error::InvalidField),
            value != 0 ==> r == Ok::<LinkId, Error>(LinkId(value)),
    {
        if value == 0 {
            return Err(Error::InvalidField);
        }
        Ok(LinkId(value))
    }
}

/// How a router learned a route.
#[derive(Debug, Clone, Copy, PartialEq, Eq, Structural)]
pub enum RouteOrigin {
    Connected,
    Learned,
    Static,
    Escape,
}

impl RouteOrigin {
    /// Wire code of the origin.
    pub open spec fn spec_code(self) -> u8 {
        match self {
            RouteOrigin::Connected => 0,
            RouteOrigin::Learned => 1,
            RouteOrigin::Static => 2,
            RouteOrigin::Escape => 3,
        }
    }

    /// Origin with wire code `value`.
    pub open spec fn spec_from_wire(value: u8) -> Result<RouteOrigin> {
        if value == 0 {
            Ok(RouteOrigin::Connected)
        } else if value == 1 {
            Ok(RouteOrigin::Learned)
        } else if value == 2 {
            Ok(RouteOrigin::Static)
        } else if value == 3 {
            Ok(RouteOrigin::Escape)
        } else {
            Err(Error::InvalidField)
        }
    }

    pub fn to_wire(self) -> (r: u8)
        ensures
            r == self.spec_code(),
    {
        match self {
            RouteOrigin::Connected => 0,
            RouteOrigin::Learned => 1,
            RouteOrigin::Static => 2,
            RouteOrigin::Escape => 3,
        }
    }

    pub fn from_wire(value: u8) -> (r: Result<Self>)
        ensures
            r == Self::spec_from_wire(value),
    {
        match value {
            0 => Ok(RouteOrigin::Connected),
            1 => Ok(RouteOrigin::Learned),
            2 => Ok(RouteOrigin::Static),
            3 => Ok(RouteOrigin::Escape),
            _ => Err(Error::InvalidField),
        }
    }

    /// Administrative preference of the origin; lower wins.
    pub open spec fn spec_preference(self) -> u8 {
        match self {
            RouteOrigin::Connected => 0,
            RouteOrigin::Static => 10,
            RouteOrigin::Learned => 100,
            RouteOrigin::Escape => 255,
        }
    }

    pub fn administrative_preference(self) -> (r: u8)
        ensures
            r == self.spec_preference(),
    {
        match self {
            RouteOrigin::Connected => 0,
            RouteOrigin::Static => 10,
            RouteOrigin::Learned => 100,
            RouteOrigin::Escape => 255,
        }
    }
}

/// Every route origin reads back from its wire code.
pub proof fn law_route_origin_roundtrip(o: RouteOrigin)
    ensures
        RouteOrigin::spec_from_wire(o.spec_code()) == Ok::<RouteOrigin, Error>(o),
{
}

/// Additive route cost.
#[derive(Debug, Clone, Copy, PartialEq, Eq, Structural, PartialOrd, Ord)]
pub struct RouteMetric(pub u32);

impl RouteMetric {
    /// Cost of one default link.
    pub fn default_link() -> (r: Self)
        ensures
            r.0 == 100,
    {
        RouteMetric(100)
    }

    /// Sum of two metrics, saturating at `u32::MAX`.
    pub fn saturating_add(self, other: Self) -> (r: Self)
        ensures
            r.0 == (if self.0 + other.0 > u32::MAX {
                u32::MAX as int
            } else {
                self.0 + other.0
            }),
    {
        RouteMetric(self.0.saturating_add(other.0))
    }
}

} // verus!

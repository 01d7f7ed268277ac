use vstd::prelude::*;

use crate::error::{Error, Result};
use crate::link::{GnetFrame, GnetFrameView, LinkTraffic, Vcid};
use crate::wire::bytes::{bytes_equal, copy_range, push_slice, push_u16, u16_be};

verus! {

/// IEEE 802 local experimental EtherType 1. This is used only by the hosted
/// TAP adapter and is not part of the GNet wire specification.
pub const GNET_TAP_ETHERTYPE: u16 = 0x88b5;

/// Ethernet addresses of the two ends of a hosted TAP link.
#[derive(Debug, Clone, Copy, PartialEq, Eq)]
pub struct TapAddressing {
    pub local_mac: [u8; 6],
    pub peer_mac: [u8; 6],
}

impl TapAddressing {
    pub fn new(local_mac: [u8; 6], peer_mac: [u8; 6]) -> (r: Self)
        ensures
            r.local_mac == local_mac,
            r.peer_mac == peer_mac,
    {
        TapAddressing { local_mac, peer_mac }
    }
}

pub open spec fn link_traffic_code(t: LinkTraffic) -> u8 {
    match t {
        LinkTraffic::Control => 0,
        LinkTraffic::Data => 1,
    }
}

/// The Ethernet envelope of a frame: peer, local, EtherType, shim, frame bytes.
pub open spec fn spec_tap_frame(f: GnetFrameView, a: TapAddressing) -> Seq<u8> {
    a.peer_mac@ + a.local_mac@ + u16_be(GNET_TAP_ETHERTYPE) + seq![
        1u8,
        f.vcid.spec_get(),
        link_traffic_code(f.traffic),
        0u8,
    ] + f.bytes
}

/// All-ones broadcast address.
pub open spec fn broadcast_mac() -> Seq<u8> {
    seq![0xffu8, 0xffu8, 0xffu8, 0xffu8, 0xffu8, 0xffu8]
}

/// Frame carried by an envelope addressed to `a.local_mac` or broadcast.
pub open spec fn spec_tap_decode(b: Seq<u8>, a: TapAddressing) -> Result<GnetFrameView> {
    if b.len() < 18 {
        Err(Error::InvalidLength)
    } else if b.subrange(0, 6) != a.local_mac@ && b.subrange(0, 6) != broadcast_mac() {
        Err(Error::InvalidField)
    } else if b[12] != 0x88 || b[13] != 0xb5 || b[14] != 1 || b[17] != 0 {
        Err(Error::InvalidField)
    } else if b[15] >= 4 {
        Err(Error::InvalidField)
    } else if b[16] > 1 {
        Err(Error::InvalidField)
    } else if (b[16] == 0) != (b[15] == 0) {
        Err(Error::InvalidField)
    } else {
        Ok(
            GnetFrameView {
                vcid: Vcid::spec_new(b[15]),
                traffic: if b[16] == 0 {
                    LinkTraffic::Control
                } else {
                    LinkTraffic::Data
                },
                bytes: b.subrange(18, b.len() as int),
            },
        )
    }
}

/// Encode one QDX-GNET host frame inside a debugging-only Ethernet envelope.
pub fn encode_tap_frame(frame: &GnetFrame, addressing: TapAddressing) -> (r: Vec<u8>)
    ensures
        r@ == spec_tap_frame(frame@, addressing),
{
    let mut out: Vec<u8> = Vec::new();
    push_slice(&mut out, &addressing.peer_mac);
    push_slice(&mut out, &addressing.local_mac);
    push_u16(&mut out, GNET_TAP_ETHERTYPE);
    out.push(1);
    out.push(frame.vcid.get());
    out.push(
        match frame.traffic {
            LinkTraffic::Control => 0,
            LinkTraffic::Data => 1,
        },
    );
    out.push(0);
    push_slice(&mut out, frame.bytes.as_slice());
    assert(out@ =~= spec_tap_frame(frame@, addressing));
    out
}

/// Decode the hosted TAP envelope back into the normal QDX-GNET frame type.
pub fn decode_tap_frame(bytes: &[u8], addressing: TapAddressing) -> (r: Result<GnetFrame>)
    ensures
        match spec_tap_decode(bytes@, addressing) {
            Ok(f) => r is Ok && r->Ok_0@ == f,
            Err(e) => r is Err && r->Err_0 == e,
        },
{
    if bytes.len() < 18 {
        return Err(Error::InvalidLength);
    }
    let dst = copy_range(bytes, 0, 6);
    let bcast: [u8; 6] = [0xff, 0xff, 0xff, 0xff, 0xff, 0xff];
    proof {
        assert(bcast@ =~= broadcast_mac());
    }
    if !bytes_equal(dst.as_slice(), &addressing.local_mac) && !bytes_equal(
        dst.as_slice(),
        &bcast,
    ) {
        return Err(Error::InvalidField);
    }
    if bytes[12] != 0x88 || bytes[13] != 0xb5 || bytes[14] != 1 || bytes[17] != 0 {
        return Err(Error::InvalidField);
    }
    let vcid = Vcid::new(bytes[15])?;
    let traffic = match bytes[16] {
        0 => LinkTraffic::Control,
        1 => LinkTraffic::Data,
        _ => {
            return Err(Error::InvalidField);
        },
    };
    if traffic == LinkTraffic::Control && !vcid.is_control() {
        return Err(Error::InvalidField);
    }
    if traffic == LinkTraffic::Data && vcid.is_control() {
        return Err(Error::InvalidField);
    }
    proof {
        Vcid::lemma_spec_new(vcid);
    }
    Ok(GnetFrame { vcid, traffic, bytes: copy_range(bytes, 18, bytes.len()) })
}

/// A frame sent by one end decodes at the other end as the same frame.
pub proof fn law_tap_roundtrip(f: GnetFrameView, a: TapAddressing)
    requires
        f.vcid.spec_get() < 4,
        (f.traffic == LinkTraffic::Control) == (f.vcid.spec_get() == 0),
    ensures
        spec_tap_decode(spec_tap_frame(f, a), TapAddressing::new_spec(a.peer_mac, a.local_mac))
            == Ok::<GnetFrameView, Error>(f),
{
    let b = spec_tap_frame(f, a);
    assert(b.subrange(0, 6) =~= a.peer_mac@);
    assert(b.subrange(18, b.len() as int) =~= f.bytes);
    Vcid::lemma_spec_new(f.vcid);
}

impl TapAddressing {
    pub open spec fn new_spec(local_mac: [u8; 6], peer_mac: [u8; 6]) -> Self {
        TapAddressing { local_mac, peer_mac }
    }
}

} // verus!

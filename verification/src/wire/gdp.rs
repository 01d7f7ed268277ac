use vstd::prelude::*;

use crate::error::{Error, Result};
use crate::wire::bytes::{
    be32, be64, push_slice, push_u32, push_u64, put_slice, read_u32, read_u64, u32_be, u64_be,
    copy_range,
};
use crate::wire::crc::{bits_of, crc8_bits, Crc8};

verus! {

/// A 64-bit GDP address.
#[derive(Debug, Clone, Copy, PartialEq, Eq, Structural, PartialOrd, Ord, Hash)]
pub struct GdpAddress(pub u64);

/// `address` lies in FE80::/16, the range kept for link-local and control use.
pub open spec fn in_link_local_range(address: GdpAddress) -> bool {
    address.0 >> 48u64 == 0xfe80u64
}

impl GdpAddress {
    /// Whether the address lies in FE80::/16.
    pub fn is_link_local(self) -> (r: bool)
        ensures
            r == in_link_local_range(self),
    {
        self.0 >> 48u64 == 0xfe80u64
    }
}

/// GDP address form: full 64-bit addresses or 16-bit local identifiers.
#[derive(Debug, Clone, Copy, PartialEq, Eq, Structural)]
pub enum AddressForm {
    Global,
    Local,
}

/// GDP packet type (four bits on the wire).
#[derive(Debug, Clone, Copy, PartialEq, Eq, Structural)]
pub enum GdpType {
    Gctl,
    Gts,
    Reserved(u8),
}

impl GdpType {
    pub open spec fn spec_to_wire(self) -> u8 {
        match self {
            GdpType::Gctl => 1,
            GdpType::Gts => 2,
            GdpType::Reserved(v) => v,
        }
    }

    pub open spec fn spec_from_wire(v: u8) -> GdpType {
        if v == 1 {
            GdpType::Gctl
        } else if v == 2 {
            GdpType::Gts
        } else {
            GdpType::Reserved(v)
        }
    }

    pub fn to_wire(self) -> (r: u8)
        ensures
            r == self.spec_to_wire(),
    {
        match self {
            GdpType::Gctl => 1,
            GdpType::Gts => 2,
            GdpType::Reserved(v) => v,
        }
    }

    pub fn from_wire(v: u8) -> (r: GdpType)
        ensures
            r == GdpType::spec_from_wire(v),
    {
        if v == 1 {
            GdpType::Gctl
        } else if v == 2 {
            GdpType::Gts
        } else {
            GdpType::Reserved(v)
        }
    }
}

/// The frozen GDP Size Classes: payload sizes in bytes.
#[derive(Debug, Clone, Copy, PartialEq, Eq, Structural, PartialOrd, Ord, Hash)]
pub enum SizeClass {
    Empty,
    Tiny3,
    Ctrl32,
    Ctrl64,
    Msg128,
    Msg192,
    Msg256,
    Msg384,
    Msg512,
    Msg768,
    Msg1024,
    Msg1280,
    Legacy1500,
    Jumbo2048,
    Jumbo4096,
    Jumbo8K,
}

/// Payload size of the size class with wire code `c`.
pub open spec fn class_bytes(c: int) -> nat {
    if c == 0 {
        0
    } else if c == 1 {
        3
    } else if c == 2 {
        32
    } else if c == 3 {
        64
    } else if c == 4 {
        128
    } else if c == 5 {
        192
    } else if c == 6 {
        256
    } else if c == 7 {
        384
    } else if c == 8 {
        512
    } else if c == 9 {
        768
    } else if c == 10 {
        1024
    } else if c == 11 {
        1280
    } else if c == 12 {
        1500
    } else if c == 13 {
        2048
    } else if c == 14 {
        4096
    } else {
        8192
    }
}

impl SizeClass {
    pub open spec fn code(self) -> u8 {
        match self {
            SizeClass::Empty => 0,
            SizeClass::Tiny3 => 1,
            SizeClass::Ctrl32 => 2,
            SizeClass::Ctrl64 => 3,
            SizeClass::Msg128 => 4,
            SizeClass::Msg192 => 5,
            SizeClass::Msg256 => 6,
            SizeClass::Msg384 => 7,
            SizeClass::Msg512 => 8,
            SizeClass::Msg768 => 9,
            SizeClass::Msg1024 => 10,
            SizeClass::Msg1280 => 11,
            SizeClass::Legacy1500 => 12,
            SizeClass::Jumbo2048 => 13,
            SizeClass::Jumbo4096 => 14,
            SizeClass::Jumbo8K => 15,
        }
    }

    pub open spec fn spec_bytes(self) -> nat {
        class_bytes(self.code() as int)
    }

    pub open spec fn of_code(c: u8) -> SizeClass {
        if c == 0 {
            SizeClass::Empty
        } else if c == 1 {
            SizeClass::Tiny3
        } else if c == 2 {
            SizeClass::Ctrl32
        } else if c == 3 {
            SizeClass::Ctrl64
        } else if c == 4 {
            SizeClass::Msg128
        } else if c == 5 {
            SizeClass::Msg192
        } else if c == 6 {
            SizeClass::Msg256
        } else if c == 7 {
            SizeClass::Msg384
        } else if c == 8 {
            SizeClass::Msg512
        } else if c == 9 {
            SizeClass::Msg768
        } else if c == 10 {
            SizeClass::Msg1024
        } else if c == 11 {
            SizeClass::Msg1280
        } else if c == 12 {
            SizeClass::Legacy1500
        } else if c == 13 {
            SizeClass::Jumbo2048
        } else if c == 14 {
            SizeClass::Jumbo4096
        } else {
            SizeClass::Jumbo8K
        }
    }

    /// Wire code of the class.
    pub fn to_wire(self) -> (r: u8)
        ensures
            r == self.code(),
            r < 16,
    {
        match self {
            SizeClass::Empty => 0,
            SizeClass::Tiny3 => 1,
            SizeClass::Ctrl32 => 2,
            SizeClass::Ctrl64 => 3,
            SizeClass::Msg128 => 4,
            SizeClass::Msg192 => 5,
            SizeClass::Msg256 => 6,
            SizeClass::Msg384 => 7,
            SizeClass::Msg512 => 8,
            SizeClass::Msg768 => 9,
            SizeClass::Msg1024 => 10,
            SizeClass::Msg1280 => 11,
            SizeClass::Legacy1500 => 12,
            SizeClass::Jumbo2048 => 13,
            SizeClass::Jumbo4096 => 14,
            SizeClass::Jumbo8K => 15,
        }
    }

    /// Payload size in bytes.
    pub fn bytes(self) -> (r: usize)
        ensures
            r == self.spec_bytes(),
            r <= 8192,
    {
        match self {
            SizeClass::Empty => 0,
            SizeClass::Tiny3 => 3,
            SizeClass::Ctrl32 => 32,
            SizeClass::Ctrl64 => 64,
            SizeClass::Msg128 => 128,
            SizeClass::Msg192 => 192,
            SizeClass::Msg256 => 256,
            SizeClass::Msg384 => 384,
            SizeClass::Msg512 => 512,
            SizeClass::Msg768 => 768,
            SizeClass::Msg1024 => 1024,
            SizeClass::Msg1280 => 1280,
            SizeClass::Legacy1500 => 1500,
            SizeClass::Jumbo2048 => 2048,
            SizeClass::Jumbo4096 => 4096,
            SizeClass::Jumbo8K => 8192,
        }
    }

    /// Class with wire code `v`; codes above 15 are not size classes.
    pub fn from_wire(v: u8) -> (r: Result<SizeClass>)
        ensures
            v < 16 ==> r == Ok::<SizeClass, Error>(SizeClass::of_code(v)),
            v >= 16 ==> r == Err::<SizeClass, Error>(Error::InvalidSizeClass),
    {
        match v {
            0 => Ok(SizeClass::Empty),
            1 => Ok(SizeClass::Tiny3),
            2 => Ok(SizeClass::Ctrl32),
            3 => Ok(SizeClass::Ctrl64),
            4 => Ok(SizeClass::Msg128),
            5 => Ok(SizeClass::Msg192),
            6 => Ok(SizeClass::Msg256),
            7 => Ok(SizeClass::Msg384),
            8 => Ok(SizeClass::Msg512),
            9 => Ok(SizeClass::Msg768),
            10 => Ok(SizeClass::Msg1024),
            11 => Ok(SizeClass::Msg1280),
            12 => Ok(SizeClass::Legacy1500),
            13 => Ok(SizeClass::Jumbo2048),
            14 => Ok(SizeClass::Jumbo4096),
            15 => Ok(SizeClass::Jumbo8K),
            _ => Err(Error::InvalidSizeClass),
        }
    }

    /// The smallest class whose payload holds `n` bytes.
    pub fn smallest_for(n: usize) -> (r: Option<SizeClass>)
        ensures
            match r {
                Some(c) => c.spec_bytes() >= n && forall|k: int|
                    0 <= k < c.code() ==> class_bytes(k) < n,
                None => n > 8192,
            },
    {
        let mut code: u8 = 0;
        while code < 16
            invariant
                code <= 16,
                forall|k: int| 0 <= k < code ==> class_bytes(k) < n,
            decreases 16 - code,
        {
            let c = match SizeClass::from_wire(code) {
                Ok(c) => c,
                Err(_) => return None,
            };
            if c.bytes() >= n {
                return Some(c);
            }
            code = code + 1;
        }
        assert(class_bytes(15) < n);
        None
    }

    /// Whether `self` is no larger than `other`.
    pub fn le(self, other: SizeClass) -> (r: bool)
        ensures
            r == (self.code() <= other.code()),
    {
        self.to_wire() <= other.to_wire()
    }
}

/// Code order and byte order of size classes agree.
pub proof fn lemma_class_bytes_monotone(a: int, b: int)
    requires
        0 <= a <= b < 16,
    ensures
        class_bytes(a) <= class_bytes(b),
{
}

/// Polarity of the GDP address-form bit.
#[derive(Debug, Clone, Copy, PartialEq, Eq, Structural)]
pub struct GdpWireConfig {
    /// Value of the form bit that marks local addressing.
    pub local_form_bit: bool,
}

impl GdpWireConfig {
    /// The standard polarity: a set form bit means local addressing.
    pub fn standard() -> (r: Self)
        ensures
            r.local_form_bit,
    {
        GdpWireConfig { local_form_bit: true }
    }

    pub open spec fn spec_form_bit(self, form: AddressForm) -> bool {
        match form {
            AddressForm::Local => self.local_form_bit,
            AddressForm::Global => !self.local_form_bit,
        }
    }

    pub open spec fn spec_form_from_bit(self, bit: bool) -> AddressForm {
        if bit == self.local_form_bit {
            AddressForm::Local
        } else {
            AddressForm::Global
        }
    }

    pub fn form_bit(self, form: AddressForm) -> (r: bool)
        ensures
            r == self.spec_form_bit(form),
    {
        match form {
            AddressForm::Local => self.local_form_bit,
            AddressForm::Global => !self.local_form_bit,
        }
    }

    pub fn form_from_bit(self, bit: bool) -> (r: AddressForm)
        ensures
            r == self.spec_form_from_bit(bit),
    {
        if bit == self.local_form_bit {
            AddressForm::Local
        } else {
            AddressForm::Global
        }
    }
}

impl Default for GdpWireConfig {
    fn default() -> (r: Self)
        ensures
            r.local_form_bit,
    {
        GdpWireConfig { local_form_bit: true }
    }
}

/// The addresses of a GDP header in either form.
#[allow(inconsistent_fields)]
#[derive(Debug, Clone, Copy, PartialEq, Eq, Structural)]
pub enum GdpAddresses {
    Global { destination: GdpAddress, source: GdpAddress },
    Local { destination: u16, source: u16, prefix: u64 },
}

/// `p` with its low sixteen bits cleared.
pub open spec fn clear_low16(p: u64) -> u64 {
    (p - p % 65536) as u64
}

impl GdpAddresses {
    pub open spec fn spec_form(self) -> AddressForm {
        match self {
            GdpAddresses::Global { .. } => AddressForm::Global,
            GdpAddresses::Local { .. } => AddressForm::Local,
        }
    }

    pub open spec fn spec_effective_destination(self) -> GdpAddress {
        match self {
            GdpAddresses::Global { destination, .. } => destination,
            GdpAddresses::Local { destination, prefix, .. } => GdpAddress(
                (clear_low16(prefix) + destination) as u64,
            ),
        }
    }

    pub open spec fn spec_effective_source(self) -> GdpAddress {
        match self {
            GdpAddresses::Global { source, .. } => source,
            GdpAddresses::Local { source, prefix, .. } => GdpAddress(
                (clear_low16(prefix) + source) as u64,
            ),
        }
    }

    pub fn form(&self) -> (r: AddressForm)
        ensures
            r == self.spec_form(),
    {
        match self {
            GdpAddresses::Global { .. } => AddressForm::Global,
            GdpAddresses::Local { .. } => AddressForm::Local,
        }
    }

    /// The full 64-bit destination (a local identifier within its prefix).
    pub fn effective_destination(&self) -> (r: GdpAddress)
        ensures
            r == self.spec_effective_destination(),
    {
        match self {
            GdpAddresses::Global { destination, .. } => *destination,
            GdpAddresses::Local { destination, prefix, .. } => {
                let p = *prefix - *prefix % 65536;
                GdpAddress(p + *destination as u64)
            },
        }
    }

    /// The full 64-bit source (a local identifier within its prefix).
    pub fn effective_source(&self) -> (r: GdpAddress)
        ensures
            r == self.spec_effective_source(),
    {
        match self {
            GdpAddresses::Global { source, .. } => *source,
            GdpAddresses::Local { source, prefix, .. } => {
                let p = *prefix - *prefix % 65536;
                GdpAddress(p + *source as u64)
            },
        }
    }
}

/// A GDP header.
#[derive(Debug, Clone, Copy, PartialEq, Eq, Structural)]
pub struct GdpHeader {
    pub version: u8,
    pub packet_type: GdpType,
    pub size_class: SizeClass,
    pub hop_limit: u8,
    pub addresses: GdpAddresses,
}

/// Bits covered by the GDP header CRC-8 (the hop limit is not covered).
pub open spec fn header_crc_bits(h: GdpHeader, cfg: GdpWireConfig) -> Seq<bool> {
    let base = bits_of(h.version as u64, 2) + bits_of(h.packet_type.spec_to_wire() as u64, 4)
        + bits_of(h.size_class.code() as u64, 4) + seq![
        cfg.spec_form_bit(h.addresses.spec_form()),
    ];
    match h.addresses {
        GdpAddresses::Global { destination, source } => base + bits_of(destination.0, 64)
            + bits_of(source.0, 64),
        GdpAddresses::Local { destination, source, .. } => base + bits_of(destination as u64, 16)
            + bits_of(source as u64, 16),
    }
}

/// CRC-8-GNET of a GDP header.
pub open spec fn spec_header_crc(h: GdpHeader, cfg: GdpWireConfig) -> u8 {
    crc8_bits(0, header_crc_bits(h, cfg))
}

/// The first header word from its fields.
pub open spec fn header_word(v: int, t: int, s: int, f: int, c: int, hop: int) -> int {
    v * 0x4000_0000 + t * 0x0400_0000 + s * 0x0040_0000 + f * 0x0020_0000 + c * 256 + hop
}

/// Header length of an address form.
pub open spec fn form_header_len(form: AddressForm) -> nat {
    match form {
        AddressForm::Global => 20,
        AddressForm::Local => 8,
    }
}

/// Encoded header is encodable: small version and type, local hop limit fits four bits.
pub open spec fn header_encodable(h: GdpHeader) -> bool {
    &&& h.version <= 3
    &&& h.packet_type.spec_to_wire() <= 15
    &&& (h.addresses is Local ==> h.hop_limit <= 15)
}

/// The wire bytes of an encodable header.
#[verifier::opaque]
pub open spec fn spec_header_bytes(h: GdpHeader, cfg: GdpWireConfig) -> Seq<u8> {
    let f: int = if cfg.spec_form_bit(h.addresses.spec_form()) {
        1
    } else {
        0
    };
    let word = header_word(
        h.version as int,
        h.packet_type.spec_to_wire() as int,
        h.size_class.code() as int,
        f,
        spec_header_crc(h, cfg) as int,
        h.hop_limit as int,
    );
    u32_be(word as u32) + match h.addresses {
        GdpAddresses::Global { destination, source } => u64_be(destination.0) + u64_be(source.0),
        GdpAddresses::Local { destination, source, .. } => u32_be(
            (destination as int * 65536 + source as int) as u32,
        ),
    }
}

pub open spec fn spec_header_encode(h: GdpHeader, cfg: GdpWireConfig) -> Result<Seq<u8>> {
    if !header_encodable(h) {
        Err(Error::InvalidField)
    } else {
        Ok(spec_header_bytes(h, cfg))
    }
}

/// Header decoded from `buf`, which must hold at least the header.
#[verifier::opaque]
pub open spec fn spec_header_decode(buf: Seq<u8>, cfg: GdpWireConfig, local_prefix: u64) -> Result<
    GdpHeader,
> {
    if buf.len() < 4 {
        Err(Error::InvalidLength)
    } else {
        let word = be32(buf, 0);
        let version = ((word / 0x4000_0000) % 4) as u8;
        let packet_type = GdpType::spec_from_wire(((word / 0x0400_0000) % 16) as u8);
        let size_class = SizeClass::of_code(((word / 0x0040_0000) % 16) as u8);
        let form = cfg.spec_form_from_bit((word / 0x0020_0000) % 2 == 1);
        let crc = ((word / 256) % 256) as u8;
        if form == AddressForm::Global && buf.len() < 20 {
            Err(Error::InvalidLength)
        } else if form == AddressForm::Local && buf.len() < 8 {
            Err(Error::InvalidLength)
        } else {
            let h = if form == AddressForm::Global {
                GdpHeader {
                    version,
                    packet_type,
                    size_class,
                    hop_limit: (word % 256) as u8,
                    addresses: GdpAddresses::Global {
                        destination: GdpAddress(be64(buf, 4) as u64),
                        source: GdpAddress(be64(buf, 12) as u64),
                    },
                }
            } else {
                GdpHeader {
                    version,
                    packet_type,
                    size_class,
                    hop_limit: (word % 16) as u8,
                    addresses: GdpAddresses::Local {
                        destination: (be32(buf, 4) / 65536) as u16,
                        source: (be32(buf, 4) % 65536) as u16,
                        prefix: clear_low16(local_prefix),
                    },
                }
            };
            if spec_header_crc(h, cfg) != crc {
                Err(Error::InvalidCrc)
            } else {
                Ok(h)
            }
        }
    }
}

/// The encoded header is as long as its form says.
pub proof fn lemma_header_bytes_len(h: GdpHeader, cfg: GdpWireConfig)
    ensures
        spec_header_bytes(h, cfg).len() == h.spec_header_len(),
{
    reveal(spec_header_bytes);
}

/// The fields of the first header word are recovered by division.
proof fn lemma_word_fields(v: u32, t: u32, s: u32, f: u32, c: u32, h: u32)
    requires
        v < 4,
        t < 16,
        s < 16,
        f < 2,
        c < 256,
        h < 256,
    ensures
        ({
            let w = v * 0x4000_0000 + t * 0x0400_0000 + s * 0x0040_0000 + f * 0x0020_0000 + c
                * 256 + h;
            &&& w <= u32::MAX
            &&& (w / 0x4000_0000) % 4 == v
            &&& (w / 0x0400_0000) % 16 == t
            &&& (w / 0x0040_0000) % 16 == s
            &&& (w / 0x0020_0000) % 2 == f
            &&& (w / 256) % 256 == c
            &&& w % 256 == h
            &&& (h < 16 ==> w % 16 == h)
        }),
{
    assert({
        let w = v * 0x4000_0000 + t * 0x0400_0000 + s * 0x0040_0000 + f * 0x0020_0000 + c * 256
            + h;
        &&& w <= u32::MAX
        &&& (w / 0x4000_0000) % 4 == v
        &&& (w / 0x0400_0000) % 16 == t
        &&& (w / 0x0040_0000) % 16 == s
        &&& (w / 0x0020_0000) % 2 == f
        &&& (w / 256) % 256 == c
        &&& w % 256 == h
        &&& (h < 16 ==> w % 16 == h)
    }) by (bit_vector)
        requires
            v < 4,
            t < 16,
            s < 16,
            f < 2,
            c < 256,
            h < 256,
    ;
}

impl GdpHeader {
    /// A global-form header.
    pub fn global(
        packet_type: GdpType,
        size_class: SizeClass,
        hop_limit: u8,
        source: GdpAddress,
        destination: GdpAddress,
    ) -> (r: Self)
        ensures
            r == (GdpHeader {
                version: 0,
                packet_type,
                size_class,
                hop_limit,
                addresses: GdpAddresses::Global { destination, source },
            }),
    {
        GdpHeader {
            version: 0,
            packet_type,
            size_class,
            hop_limit,
            addresses: GdpAddresses::Global { destination, source },
        }
    }

    /// A local-form header; the hop limit of the local form is four bits.
    pub fn local(
        packet_type: GdpType,
        size_class: SizeClass,
        hop_limit: u8,
        prefix: u64,
        source: u16,
        destination: u16,
    ) -> (r: Result<Self>)
        ensures
            hop_limit > 15 ==> r == Err::<GdpHeader, Error>(Error::InvalidField),
            hop_limit <= 15 ==> r == Ok::<GdpHeader, Error>(
                GdpHeader {
                    version: 0,
                    packet_type,
                    size_class,
                    hop_limit,
                    addresses: GdpAddresses::Local {
                        destination,
                        source,
                        prefix: clear_low16(prefix),
                    },
                },
            ),
    {
        if hop_limit > 15 {
            return Err(Error::InvalidField);
        }
        Ok(
            GdpHeader {
                version: 0,
                packet_type,
                size_class,
                hop_limit,
                addresses: GdpAddresses::Local {
                    destination,
                    source,
                    prefix: prefix - prefix % 65536,
                },
            },
        )
    }

    pub open spec fn spec_header_len(self) -> nat {
        form_header_len(self.addresses.spec_form())
    }

    /// Length of the encoded header: 20 bytes global, 8 bytes local.
    pub fn header_len(&self) -> (r: usize)
        ensures
            r == self.spec_header_len(),
    {
        match self.addresses {
            GdpAddresses::Global { .. } => 20,
            GdpAddresses::Local { .. } => 8,
        }
    }

    /// CRC-8-GNET over version, type, size class, form bit and addresses.
    pub fn crc8(&self, cfg: GdpWireConfig) -> (r: u8)
        ensures
            r == spec_header_crc(*self, cfg),
    {
        let mut c = Crc8::new();
        c.update_bits(self.version as u64, 2);
        let c1 = c.finalize();
        c.update_bits(self.packet_type.to_wire() as u64, 4);
        let c2 = c.finalize();
        c.update_bits(self.size_class.to_wire() as u64, 4);
        let c3 = c.finalize();
        let fb = cfg.form_bit(self.addresses.form());
        c.update_bit(fb);
        let c4 = c.finalize();
        proof {
            let b1 = bits_of(self.version as u64, 2);
            let b2 = bits_of(self.packet_type.spec_to_wire() as u64, 4);
            let b3 = bits_of(self.size_class.code() as u64, 4);
            let b4 = seq![fb];
            crate::wire::crc::lemma_crc8_append(0, b1, b2);
            crate::wire::crc::lemma_crc8_append(0, b1 + b2, b3);
            crate::wire::crc::lemma_crc8_append(0, b1 + b2 + b3, b4);
            assert((b1 + b2 + b3 + b4).drop_last() =~= b1 + b2 + b3);
        }
        let ghost base = bits_of(self.version as u64, 2) + bits_of(
            self.packet_type.spec_to_wire() as u64,
            4,
        ) + bits_of(self.size_class.code() as u64, 4) + seq![fb];
        match self.addresses {
            GdpAddresses::Global { destination, source } => {
                c.update_bits(destination.0, 64);
                let c5 = c.finalize();
                c.update_bits(source.0, 64);
                proof {
                    let d = bits_of(destination.0, 64);
                    let s = bits_of(source.0, 64);
                    crate::wire::crc::lemma_crc8_append(0, base, d);
                    crate::wire::crc::lemma_crc8_append(0, base + d, s);
                }
            },
            GdpAddresses::Local { destination, source, .. } => {
                c.update_bits(destination as u64, 16);
                c.update_bits(source as u64, 16);
                proof {
                    let d = bits_of(destination as u64, 16);
                    let s = bits_of(source as u64, 16);
                    crate::wire::crc::lemma_crc8_append(0, base, d);
                    crate::wire::crc::lemma_crc8_append(0, base + d, s);
                }
            },
        }
        c.finalize()
    }

    /// The encoded header as a new vector.
    pub fn encode(&self, cfg: GdpWireConfig) -> (r: Result<Vec<u8>>)
        ensures
            match spec_header_encode(*self, cfg) {
                Ok(b) => r is Ok && r->Ok_0@ == b,
                Err(e) => r is Err && r->Err_0 == e,
            },
    {
        let t = self.packet_type.to_wire();
        if self.version > 3 || t > 15 {
            return Err(Error::InvalidField);
        }
        let local = match self.addresses {
            GdpAddresses::Local { .. } => true,
            GdpAddresses::Global { .. } => false,
        };
        if local && self.hop_limit > 15 {
            return Err(Error::InvalidField);
        }
        let f: u32 = if cfg.form_bit(self.addresses.form()) {
            1
        } else {
            0
        };
        let crc = self.crc8(cfg) as u32;
        let v = self.version as u32;
        let tt = t as u32;
        let s = self.size_class.to_wire() as u32;
        let hop = self.hop_limit as u32;
        proof {
            lemma_word_fields(v, tt, s, f, crc, hop);
        }
        let word = v * 0x4000_0000 + tt * 0x0400_0000 + s * 0x0040_0000 + f * 0x0020_0000 + crc
            * 256 + hop;
        let mut out: Vec<u8> = Vec::new();
        push_u32(&mut out, word);
        match self.addresses {
            GdpAddresses::Global { destination, source } => {
                push_u64(&mut out, destination.0);
                push_u64(&mut out, source.0);
            },
            GdpAddresses::Local { destination, source, .. } => {
                push_u32(&mut out, destination as u32 * 65536 + source as u32);
            },
        }
        assert(out@ =~= spec_header_bytes(*self, cfg)) by {
            reveal(spec_header_bytes);
        }
        Ok(out)
    }

    /// Writes the encoded header at the start of `out`; returns its length.
    pub fn encode_into(&self, cfg: GdpWireConfig, out: &mut [u8]) -> (r: Result<usize>)
        ensures
            match spec_header_encode(*self, cfg) {
                Ok(b) => if b.len() <= old(out)@.len() {
                    r == Ok::<usize, Error>(b.len() as usize) && final(out)@ == b + old(
                        out,
                    )@.subrange(b.len() as int, old(out)@.len() as int)
                } else {
                    r == Err::<usize, Error>(Error::BufferFull) && final(out)@ == old(out)@
                },
                Err(e) => r == Err::<usize, Error>(e) && final(out)@ == old(out)@,
            },
    {
        let bytes = self.encode(cfg)?;
        if out.len() < bytes.len() {
            return Err(Error::BufferFull);
        }
        put_slice(out, 0, bytes.as_slice());
        assert(final(out)@ =~= bytes@ + old(out)@.subrange(
            bytes@.len() as int,
            old(out)@.len() as int,
        ));
        Ok(bytes.len())
    }

    /// Decodes and CRC-checks the header at the start of `buf`.
    pub fn decode(buf: &[u8], cfg: GdpWireConfig, local_prefix: u64) -> (r: Result<Self>)
        ensures
            r == spec_header_decode(buf@, cfg, local_prefix),
    {
        reveal(spec_header_decode);
        if buf.len() < 4 {
            return Err(Error::InvalidLength);
        }
        let word = read_u32(buf, 0);
        let version = ((word / 0x4000_0000) % 4) as u8;
        let packet_type = GdpType::from_wire(((word / 0x0400_0000) % 16) as u8);
        let size_class = match SizeClass::from_wire(((word / 0x0040_0000) % 16) as u8) {
            Ok(c) => c,
            Err(e) => return Err(e),
        };
        let form = cfg.form_from_bit((word / 0x0020_0000) % 2 == 1);
        let received_crc = ((word / 256) % 256) as u8;
        let header = match form {
            AddressForm::Global => {
                if buf.len() < 20 {
                    return Err(Error::InvalidLength);
                }
                GdpHeader {
                    version,
                    packet_type,
                    size_class,
                    hop_limit: (word % 256) as u8,
                    addresses: GdpAddresses::Global {
                        destination: GdpAddress(read_u64(buf, 4)),
                        source: GdpAddress(read_u64(buf, 12)),
                    },
                }
            },
            AddressForm::Local => {
                if buf.len() < 8 {
                    return Err(Error::InvalidLength);
                }
                let ids = read_u32(buf, 4);
                GdpHeader {
                    version,
                    packet_type,
                    size_class,
                    hop_limit: (word % 16) as u8,
                    addresses: GdpAddresses::Local {
                        destination: (ids / 65536) as u16,
                        source: (ids % 65536) as u16,
                        prefix: local_prefix - local_prefix % 65536,
                    },
                }
            },
        };
        if header.crc8(cfg) != received_crc {
            return Err(Error::InvalidCrc);
        }
        Ok(header)
    }

    /// The handwritten decoder, kept as a reference for alternative decoder backends.
    pub fn decode_handwritten_reference(buf: &[u8], cfg: GdpWireConfig, local_prefix: u64) -> (r:
        Result<Self>)
        ensures
            r == spec_header_decode(buf@, cfg, local_prefix),
    {
        Self::decode(buf, cfg, local_prefix)
    }
}

/// Decoding an encoded header gives it back, given the local prefix it was built with.
#[verifier::rlimit(60)]
pub proof fn law_header_roundtrip(h: GdpHeader, cfg: GdpWireConfig, local_prefix: u64, tail: Seq<
    u8,
>)
    requires
        header_encodable(h),
        GdpType::spec_from_wire(h.packet_type.spec_to_wire()) == h.packet_type,
        h.addresses is Local ==> h.addresses->prefix == clear_low16(local_prefix),
    ensures
        spec_header_decode(spec_header_bytes(h, cfg) + tail, cfg, local_prefix) == Ok::<
            GdpHeader,
            Error,
        >(h),
{
    reveal(spec_header_decode);
    let f: u32 = if cfg.spec_form_bit(h.addresses.spec_form()) {
        1
    } else {
        0
    };
    let c = spec_header_crc(h, cfg);
    lemma_word_fields(
        h.version as u32,
        h.packet_type.spec_to_wire() as u32,
        h.size_class.code() as u32,
        f,
        c as u32,
        h.hop_limit as u32,
    );
    let word = header_word(
        h.version as int,
        h.packet_type.spec_to_wire() as int,
        h.size_class.code() as int,
        f as int,
        c as int,
        h.hop_limit as int,
    );
    reveal(spec_header_bytes);
    let b = spec_header_bytes(h, cfg) + tail;
    crate::wire::bytes::lemma_u32_roundtrip(word as u32);
    assert(b.subrange(0, 4) =~= u32_be(word as u32));
    assert(be32(b, 0) == be32(u32_be(word as u32), 0));
    assert(SizeClass::of_code(h.size_class.code()) == h.size_class);
    match h.addresses {
        GdpAddresses::Global { destination, source } => {
            crate::wire::bytes::lemma_u64_roundtrip(destination.0);
            crate::wire::bytes::lemma_u64_roundtrip(source.0);
            assert(b.subrange(4, 12) =~= u64_be(destination.0));
            assert(b.subrange(12, 20) =~= u64_be(source.0));
            assert(be64(b, 4) == be64(u64_be(destination.0), 0)) by {
                assert(be32(b, 4) == be32(u64_be(destination.0), 0));
                assert(be32(b, 8) == be32(u64_be(destination.0), 4));
            }
            assert(be64(b, 12) == be64(u64_be(source.0), 0)) by {
                assert(be32(b, 12) == be32(u64_be(source.0), 0));
                assert(be32(b, 16) == be32(u64_be(source.0), 4));
            }
        },
        GdpAddresses::Local { destination, source, prefix } => {
            let ids = (destination as int * 65536 + source as int) as u32;
            crate::wire::bytes::lemma_u32_roundtrip(ids);
            assert(b.subrange(4, 8) =~= u32_be(ids));
            assert(be32(b, 4) == be32(u32_be(ids), 0));
            assert(ids / 65536 == destination && ids % 65536 == source);
        },
    }
}

/// A GDP packet borrowing its payload.
#[derive(Debug, Clone, PartialEq, Eq)]
pub struct GdpPacketRef<'a> {
    pub header: GdpHeader,
    pub payload: &'a [u8],
}

impl<'a> GdpPacketRef<'a> {
    /// Pairs a header with a payload of exactly its size class.
    pub fn new(header: GdpHeader, payload: &'a [u8]) -> (r: Result<Self>)
        ensures
            payload@.len() == header.size_class.spec_bytes() ==> r is Ok && r->Ok_0.header
                == header && r->Ok_0.payload@ == payload@,
            payload@.len() != header.size_class.spec_bytes() ==> r is Err && r->Err_0
                == Error::InvalidLength,
    {
        if payload.len() != header.size_class.bytes() {
            return Err(Error::InvalidLength);
        }
        Ok(GdpPacketRef { header, payload })
    }

    /// Decodes a complete packet whose length is exactly header plus size class.
    pub fn decode(buf: &'a [u8], cfg: GdpWireConfig, local_prefix: u64) -> (r: Result<Self>)
        ensures
            match spec_packet_decode(buf@, cfg, local_prefix) {
                Ok(p) => r is Ok && r->Ok_0.header == p.header && r->Ok_0.payload@ == p.payload,
                Err(e) => r is Err && r->Err_0 == e,
            },
    {
        let header = GdpHeader::decode(buf, cfg, local_prefix)?;
        let header_len = header.header_len();
        let total = header_len + header.size_class.bytes();
        if buf.len() != total {
            return Err(Error::InvalidLength);
        }
        let payload = slice_from(buf, header_len);
        Ok(GdpPacketRef { header, payload })
    }

    /// Writes header and payload at the start of `out`; returns the packet length.
    #[verifier::rlimit(40)]
    pub fn encode_into(&self, cfg: GdpWireConfig, out: &mut [u8]) -> (r: Result<usize>)
        ensures
            match spec_header_encode(self.header, cfg) {
                Ok(b) => if self.header.spec_header_len() + self.payload@.len() <= old(
                    out,
                )@.len() {
                    r is Ok && r->Ok_0 == b.len() + self.payload@.len() && final(out)@ == b
                        + self.payload@ + old(out)@.subrange(
                        (b.len() + self.payload@.len()) as int,
                        old(out)@.len() as int,
                    )
                } else {
                    r == Err::<usize, Error>(Error::BufferFull)
                },
                Err(e) => self.header.spec_header_len() + self.payload@.len() <= old(out)@.len()
                    ==> r == Err::<usize, Error>(e),
            },
    {
        let hl = self.header.header_len();
        if out.len() < hl || out.len() - hl < self.payload.len() {
            return Err(Error::BufferFull);
        }
        let total = hl + self.payload.len();
        let bytes = match self.header.encode(cfg) {
            Ok(b) => b,
            Err(e) => return Err(e),
        };
        proof {
            lemma_header_bytes_len(self.header, cfg);
        }
        let mut all = bytes;
        push_slice(&mut all, self.payload);
        put_slice(out, 0, all.as_slice());
        assert(final(out)@ =~= all@ + old(out)@.subrange(total as int, old(out)@.len() as int));
        Ok(total)
    }
}

/// `&buf[from..]`.
fn slice_from<'a>(buf: &'a [u8], from: usize) -> (r: &'a [u8])
    requires
        from <= buf@.len(),
    ensures
        r@ == buf@.subrange(from as int, buf@.len() as int),
{
    let n = buf.len();
    &buf[from..n]
}

/// A GDP packet owning its payload.
#[derive(Debug, Clone, PartialEq, Eq)]
pub struct GdpPacket {
    pub header: GdpHeader,
    pub payload: Vec<u8>,
}

/// Mathematical value of a GDP packet.
pub struct GdpPacketView {
    pub header: GdpHeader,
    pub payload: Seq<u8>,
}

impl View for GdpPacket {
    type V = GdpPacketView;

    open spec fn view(&self) -> GdpPacketView {
        GdpPacketView { header: self.header, payload: self.payload@ }
    }
}

/// Complete packet decoded from `buf`.
pub open spec fn spec_packet_decode(buf: Seq<u8>, cfg: GdpWireConfig, local_prefix: u64) -> Result<
    GdpPacketView,
> {
    match spec_header_decode(buf, cfg, local_prefix) {
        Err(e) => Err(e),
        Ok(h) => if buf.len() != h.spec_header_len() + h.size_class.spec_bytes() {
            Err(Error::InvalidLength)
        } else {
            Ok(
                GdpPacketView {
                    header: h,
                    payload: buf.subrange(h.spec_header_len() as int, buf.len() as int),
                },
            )
        },
    }
}

/// Encoding of a packet.
pub open spec fn spec_packet_encode(p: GdpPacketView, cfg: GdpWireConfig) -> Result<Seq<u8>> {
    if p.payload.len() != p.header.size_class.spec_bytes() {
        Err(Error::InvalidLength)
    } else {
        match spec_header_encode(p.header, cfg) {
            Ok(b) => Ok(b + p.payload),
            Err(e) => Err(e),
        }
    }
}

impl GdpPacket {
    /// Pairs a header with a payload of exactly its size class.
    pub fn new(header: GdpHeader, payload: Vec<u8>) -> (r: Result<Self>)
        ensures
            payload@.len() == header.size_class.spec_bytes() ==> r is Ok && r->Ok_0.header
                == header && r->Ok_0.payload@ == payload@,
            payload@.len() != header.size_class.spec_bytes() ==> r is Err && r->Err_0
                == Error::InvalidLength,
    {
        if payload.len() != header.size_class.bytes() {
            return Err(Error::InvalidLength);
        }
        Ok(GdpPacket { header, payload })
    }

    /// The encoded packet.
    pub fn encode(&self, cfg: GdpWireConfig) -> (r: Result<Vec<u8>>)
        ensures
            match spec_packet_encode(self@, cfg) {
                Ok(b) => r is Ok && r->Ok_0@ == b,
                Err(e) => r is Err && r->Err_0 == e,
            },
    {
        if self.payload.len() != self.header.size_class.bytes() {
            return Err(Error::InvalidLength);
        }
        let mut out = self.header.encode(cfg)?;
        push_slice(&mut out, self.payload.as_slice());
        Ok(out)
    }

    /// Decodes a complete packet.
    pub fn decode(buf: &[u8], cfg: GdpWireConfig, local_prefix: u64) -> (r: Result<Self>)
        ensures
            match spec_packet_decode(buf@, cfg, local_prefix) {
                Ok(p) => r is Ok && r->Ok_0@ == p,
                Err(e) => r is Err && r->Err_0 == e,
            },
    {
        let header = GdpHeader::decode(buf, cfg, local_prefix)?;
        let header_len = header.header_len();
        let total = header_len + header.size_class.bytes();
        if buf.len() != total {
            return Err(Error::InvalidLength);
        }
        let payload = copy_range(buf, header_len, total);
        Ok(GdpPacket { header, payload })
    }

    /// Clone of the packet with the same header and payload bytes.
    pub fn duplicate(&self) -> (r: Self)
        ensures
            r@ == self@,
    {
        let payload = copy_range(self.payload.as_slice(), 0, self.payload.len());
        proof {
            assert(self.payload@.subrange(0, self.payload@.len() as int) =~= self.payload@);
        }
        GdpPacket { header: self.header, payload }
    }
}

/// Decoding an encoded packet gives it back (the GDP wire round trip).
pub proof fn law_packet_roundtrip(p: GdpPacketView, cfg: GdpWireConfig, local_prefix: u64)
    requires
        spec_packet_encode(p, cfg) is Ok,
        GdpType::spec_from_wire(p.header.packet_type.spec_to_wire()) == p.header.packet_type,
        p.header.addresses is Local ==> p.header.addresses->prefix == clear_low16(local_prefix),
    ensures
        spec_packet_decode(spec_packet_encode(p, cfg)->Ok_0, cfg, local_prefix) == Ok::<
            GdpPacketView,
            Error,
        >(p),
{
    law_header_roundtrip(p.header, cfg, local_prefix, p.payload);
    let b = spec_header_bytes(p.header, cfg);
    lemma_header_bytes_len(p.header, cfg);
    assert((b + p.payload).subrange(b.len() as int, (b + p.payload).len() as int) =~= p.payload);
}

} // verus!

verus! {

/// The frozen size-class table: each class carries the payload its name
/// gives (Tiny3 three bytes, Ctrl32 thirty-two, ..., Msg768 seven hundred
/// sixty-eight, Legacy1500 fifteen hundred, Jumbo8K 8192), by wire code.
pub proof fn law_size_class_table()
    ensures
        SizeClass::Empty.spec_bytes() == 0 && SizeClass::Empty.code() == 0,
        SizeClass::Tiny3.spec_bytes() == 3 && SizeClass::Tiny3.code() == 1,
        SizeClass::Ctrl32.spec_bytes() == 32 && SizeClass::Ctrl32.code() == 2,
        SizeClass::Ctrl64.spec_bytes() == 64 && SizeClass::Ctrl64.code() == 3,
        SizeClass::Msg128.spec_bytes() == 128 && SizeClass::Msg128.code() == 4,
        SizeClass::Msg192.spec_bytes() == 192 && SizeClass::Msg192.code() == 5,
        SizeClass::Msg256.spec_bytes() == 256 && SizeClass::Msg256.code() == 6,
        SizeClass::Msg384.spec_bytes() == 384 && SizeClass::Msg384.code() == 7,
        SizeClass::Msg512.spec_bytes() == 512 && SizeClass::Msg512.code() == 8,
        SizeClass::Msg768.spec_bytes() == 768 && SizeClass::Msg768.code() == 9,
        SizeClass::Msg1024.spec_bytes() == 1024 && SizeClass::Msg1024.code() == 10,
        SizeClass::Msg1280.spec_bytes() == 1280 && SizeClass::Msg1280.code() == 11,
        SizeClass::Legacy1500.spec_bytes() == 1500 && SizeClass::Legacy1500.code() == 12,
        SizeClass::Jumbo2048.spec_bytes() == 2048 && SizeClass::Jumbo2048.code() == 13,
        SizeClass::Jumbo4096.spec_bytes() == 4096 && SizeClass::Jumbo4096.code() == 14,
        SizeClass::Jumbo8K.spec_bytes() == 8192 && SizeClass::Jumbo8K.code() == 15,
{
}

} // verus!

use vstd::prelude::*;

use crate::error::{Error, Result};
use crate::wire::bytes::{all_zero, push_slice, put_slice, zeros};

verus! {

/// A 16-byte canonical service selector (CSS).
#[derive(Debug, Clone, Copy, PartialEq, Eq, Hash)]
pub struct ServiceSelector(pub [u8; 16]);

/// One of the three canonical CSS wire forms.
#[derive(Debug, Clone, Copy, PartialEq, Eq)]
pub enum CssWire {
    Registered(u8),
    Short([u8; 4]),
    Full([u8; 16]),
}

/// Mathematical value of a [`CssWire`].
pub enum CssWireView {
    Registered(u8),
    Short(Seq<u8>),
    Full(Seq<u8>),
}

impl View for CssWire {
    type V = CssWireView;

    open spec fn view(&self) -> CssWireView {
        match self {
            CssWire::Registered(c) => CssWireView::Registered(*c),
            CssWire::Short(s) => CssWireView::Short(s@),
            CssWire::Full(v) => CssWireView::Full(v@),
        }
    }
}

impl View for ServiceSelector {
    type V = Seq<u8>;

    open spec fn view(&self) -> Seq<u8> {
        self.0@
    }
}

/// A byte allowed in a short selector: `A`..`Z` or `0`..`9`.
pub open spec fn is_short_char(b: u8) -> bool {
    (65 <= b <= 90) || (48 <= b <= 57)
}

pub open spec fn spec_valid_short(s: Seq<u8>) -> bool {
    s.len() == 4 && forall|i: int| 0 <= i < 4 ==> is_short_char(#[trigger] s[i])
}

/// The short name `FILE` (registered code 1).
pub open spec fn file_name() -> Seq<u8> {
    seq![70u8, 73u8, 76u8, 69u8]
}

/// The short name `GRPC` (registered code 2).
pub open spec fn grpc_name() -> Seq<u8> {
    seq![71u8, 82u8, 80u8, 67u8]
}

pub open spec fn spec_registered_to_short(code: u8) -> Option<Seq<u8>> {
    if code == 1 {
        Some(file_name())
    } else if code == 2 {
        Some(grpc_name())
    } else {
        None
    }
}

pub open spec fn spec_short_to_registered(s: Seq<u8>) -> Option<u8> {
    if s == file_name() {
        Some(1u8)
    } else if s == grpc_name() {
        Some(2u8)
    } else {
        None
    }
}

/// Selector bytes of a four-byte short name.
pub open spec fn short_selector(s: Seq<u8>) -> Seq<u8> {
    s + zeros(12)
}

pub open spec fn spec_short_raw(s: Seq<u8>) -> Result<Seq<u8>> {
    if !spec_valid_short(s) {
        Err(Error::InvalidField)
    } else {
        Ok(short_selector(s))
    }
}

pub open spec fn spec_registered(code: u8) -> Result<Seq<u8>> {
    match spec_registered_to_short(code) {
        Some(s) => spec_short_raw(s),
        None => Err(Error::InvalidField),
    }
}

pub open spec fn spec_short(s: Seq<u8>) -> Result<Seq<u8>> {
    if spec_short_to_registered(s) is Some {
        Err(Error::NonCanonical)
    } else {
        spec_short_raw(s)
    }
}

/// The selector is the short form: tail zero and a valid short head.
pub open spec fn is_short_form(v: Seq<u8>) -> bool {
    all_zero(v, 4, 16) && spec_valid_short(v.subrange(0, 4))
}

pub open spec fn spec_full(v: Seq<u8>) -> Result<Seq<u8>> {
    if v == zeros(16) {
        Err(Error::InvalidField)
    } else if is_short_form(v) {
        Err(Error::NonCanonical)
    } else {
        Ok(v)
    }
}

pub open spec fn spec_canonical_wire(v: Seq<u8>) -> Result<CssWireView> {
    if v == zeros(16) {
        Err(Error::InvalidField)
    } else if is_short_form(v) {
        match spec_short_to_registered(v.subrange(0, 4)) {
            Some(c) => Ok(CssWireView::Registered(c)),
            None => Ok(CssWireView::Short(v.subrange(0, 4))),
        }
    } else {
        Ok(CssWireView::Full(v))
    }
}

pub open spec fn spec_wire_bytes(w: CssWireView) -> Seq<u8> {
    match w {
        CssWireView::Registered(c) => seq![0u8, c],
        CssWireView::Short(s) => seq![0x40u8] + s,
        CssWireView::Full(v) => seq![0x80u8] + v,
    }
}

/// Canonical encoding of a selector.
pub open spec fn spec_css_encode(v: Seq<u8>) -> Result<Seq<u8>> {
    match spec_canonical_wire(v) {
        Ok(w) => Ok(spec_wire_bytes(w)),
        Err(e) => Err(e),
    }
}

/// Decoding of the selector at the start of `buf`: selector and consumed length.
pub open spec fn spec_css_decode(buf: Seq<u8>) -> Result<(Seq<u8>, nat)> {
    if buf.len() == 0 {
        Err(Error::InvalidLength)
    } else if buf[0] % 64 != 0 {
        Err(Error::InvalidField)
    } else if buf[0] / 64 == 0 {
        if buf.len() < 2 {
            Err(Error::InvalidLength)
        } else {
            match spec_registered(buf[1]) {
                Ok(s) => Ok((s, 2nat)),
                Err(e) => Err(e),
            }
        }
    } else if buf[0] / 64 == 1 {
        if buf.len() < 5 {
            Err(Error::InvalidLength)
        } else {
            match spec_short(buf.subrange(1, 5)) {
                Ok(s) => Ok((s, 5nat)),
                Err(e) => Err(e),
            }
        }
    } else if buf[0] / 64 == 2 {
        if buf.len() < 17 {
            Err(Error::InvalidLength)
        } else {
            match spec_full(buf.subrange(1, 17)) {
                Ok(s) => Ok((s, 17nat)),
                Err(e) => Err(e),
            }
        }
    } else {
        Err(Error::InvalidField)
    }
}

fn valid_short(bytes: &[u8; 4]) -> (r: bool)
    ensures
        r == spec_valid_short(bytes@),
{
    let mut i: usize = 0;
    while i < 4
        invariant
            i <= 4,
            forall|j: int| 0 <= j < i ==> is_short_char(#[trigger] bytes@[j]),
        decreases 4 - i,
    {
        let b = bytes[i];
        if !((65 <= b && b <= 90) || (48 <= b && b <= 57)) {
            return false;
        }
        i = i + 1;
    }
    true
}

fn short_to_registered(v: &[u8; 4]) -> (r: Option<u8>)
    ensures
        r == spec_short_to_registered(v@),
{
    if v[0] == 70 && v[1] == 73 && v[2] == 76 && v[3] == 69 {
        assert(v@ =~= file_name());
        Some(1)
    } else if v[0] == 71 && v[1] == 82 && v[2] == 80 && v[3] == 67 {
        assert(v@ =~= grpc_name());
        Some(2)
    } else {
        None
    }
}

fn registered_to_short(code: u8) -> (r: Option<[u8; 4]>)
    ensures
        match spec_registered_to_short(code) {
            Some(s) => r is Some && r->0@ == s,
            None => r is None,
        },
{
    if code == 1 {
        let a: [u8; 4] = [70, 73, 76, 69];
        assert(a@ =~= file_name());
        Some(a)
    } else if code == 2 {
        let a: [u8; 4] = [71, 82, 80, 67];
        assert(a@ =~= grpc_name());
        Some(a)
    } else {
        None
    }
}

fn is_zero16(v: &[u8; 16]) -> (r: bool)
    ensures
        r == (v@ == zeros(16)),
{
    let mut i: usize = 0;
    while i < 16
        invariant
            i <= 16,
            forall|j: int| 0 <= j < i ==> v@[j] == 0,
        decreases 16 - i,
    {
        if v[i] != 0 {
            assert(v@[i as int] != zeros(16)[i as int]);
            return false;
        }
        i = i + 1;
    }
    assert(v@ =~= zeros(16));
    true
}

fn tail_zero(v: &[u8; 16]) -> (r: bool)
    ensures
        r == all_zero(v@, 4, 16),
{
    let mut i: usize = 4;
    while i < 16
        invariant
            4 <= i <= 16,
            all_zero(v@, 4, i as int),
        decreases 16 - i,
    {
        if v[i] != 0 {
            return false;
        }
        i = i + 1;
    }
    true
}

fn head4(v: &[u8; 16]) -> (r: [u8; 4])
    ensures
        r@ == v@.subrange(0, 4),
{
    let a: [u8; 4] = [v[0], v[1], v[2], v[3]];
    assert(a@ =~= v@.subrange(0, 4));
    a
}

impl ServiceSelector {
    /// Whether two selectors hold the same bytes.
    pub fn same(&self, other: &Self) -> (r: bool)
        ensures
            r == (self@ == other@),
    {
        let mut i: usize = 0;
        while i < 16
            invariant
                i <= 16,
                forall|j: int| 0 <= j < i ==> self@[j] == other@[j],
            decreases 16 - i,
        {
            if self.0[i] != other.0[i] {
                return false;
            }
            i = i + 1;
        }
        assert(self@ =~= other@);
        true
    }

    /// The all-zero selector (never a valid service).
    pub fn zero() -> (r: Self)
        ensures
            r@ == zeros(16),
    {
        let z = ServiceSelector([0u8; 16]);
        assert(z@ =~= zeros(16));
        z
    }

    fn short_raw(v: [u8; 4]) -> (r: Result<Self>)
        ensures
            match spec_short_raw(v@) {
                Ok(s) => r is Ok && r->Ok_0@ == s,
                Err(e) => r == Err::<Self, Error>(e),
            },
    {
        if !valid_short(&v) {
            return Err(Error::InvalidField);
        }
        let mut x = [0u8; 16];
        x[0] = v[0];
        x[1] = v[1];
        x[2] = v[2];
        x[3] = v[3];
        assert(x@ =~= short_selector(v@));
        Ok(ServiceSelector(x))
    }

    /// Selector of a registered service code (`1` = FILE, `2` = GRPC).
    pub fn registered(code: u8) -> (r: Result<Self>)
        ensures
            match spec_registered(code) {
                Ok(s) => r is Ok && r->Ok_0@ == s,
                Err(e) => r == Err::<Self, Error>(e),
            },
    {
        match registered_to_short(code) {
            Some(s) => Self::short_raw(s),
            None => Err(Error::InvalidField),
        }
    }

    /// Selector of a four-character short name that has no registered code.
    pub fn short(v: [u8; 4]) -> (r: Result<Self>)
        ensures
            match spec_short(v@) {
                Ok(s) => r is Ok && r->Ok_0@ == s,
                Err(e) => r == Err::<Self, Error>(e),
            },
    {
        if short_to_registered(&v).is_some() {
            return Err(Error::NonCanonical);
        }
        Self::short_raw(v)
    }

    /// A full 16-byte selector that has no shorter canonical form.
    pub fn full(v: [u8; 16]) -> (r: Result<Self>)
        ensures
            match spec_full(v@) {
                Ok(s) => r is Ok && r->Ok_0@ == s,
                Err(e) => r == Err::<Self, Error>(e),
            },
    {
        if is_zero16(&v) {
            return Err(Error::InvalidField);
        }
        if tail_zero(&v) {
            let a = head4(&v);
            if valid_short(&a) {
                return Err(Error::NonCanonical);
            }
        }
        Ok(ServiceSelector(v))
    }

    /// The canonical wire form of this selector.
    pub fn canonical_wire(&self) -> (r: Result<CssWire>)
        ensures
            match spec_canonical_wire(self@) {
                Ok(w) => r is Ok && r->Ok_0@ == w,
                Err(e) => r == Err::<CssWire, Error>(e),
            },
    {
        if is_zero16(&self.0) {
            return Err(Error::InvalidField);
        }
        if tail_zero(&self.0) {
            let s = head4(&self.0);
            if valid_short(&s) {
                if let Some(c) = short_to_registered(&s) {
                    return Ok(CssWire::Registered(c));
                }
                return Ok(CssWire::Short(s));
            }
        }
        Ok(CssWire::Full(self.0))
    }

    /// Length of the canonical encoding.
    pub fn encoded_len(&self) -> (r: Result<usize>)
        ensures
            match spec_css_encode(self@) {
                Ok(b) => r == Ok::<usize, Error>(b.len() as usize),
                Err(e) => r == Err::<usize, Error>(e),
            },
    {
        match self.canonical_wire()? {
            CssWire::Registered(_) => Ok(2),
            CssWire::Short(_) => Ok(5),
            CssWire::Full(_) => Ok(17),
        }
    }

    /// Writes the canonical encoding at the start of `out`; returns its length.
    pub fn encode_into(&self, out: &mut [u8]) -> (r: Result<usize>)
        ensures
            match spec_css_encode(self@) {
                Ok(b) => if b.len() <= old(out)@.len() {
                    r == Ok::<usize, Error>(b.len() as usize) && final(out)@ == b + old(
                        out,
                    )@.subrange(b.len() as int, old(out)@.len() as int)
                } else {
                    r == Err::<usize, Error>(Error::BufferFull) && final(out)@ == old(out)@
                },
                Err(e) => r == Err::<usize, Error>(e) && final(out)@ == old(out)@,
            },
    {
        let wire = match self.canonical_wire() {
            Ok(w) => w,
            Err(e) => return Err(e),
        };
        let need: usize = match wire {
            CssWire::Registered(_) => 2,
            CssWire::Short(_) => 5,
            CssWire::Full(_) => 17,
        };
        if out.len() < need {
            return Err(Error::BufferFull);
        }
        match wire {
            CssWire::Registered(c) => {
                out[0] = 0;
                out[1] = c;
                assert(out@ =~= seq![0u8, c] + old(out)@.subrange(2, old(out)@.len() as int));
            },
            CssWire::Short(s) => {
                out[0] = 0x40;
                put_slice(out, 1, &s);
                assert(out@ =~= seq![0x40u8] + s@ + old(out)@.subrange(
                    5,
                    old(out)@.len() as int,
                ));
            },
            CssWire::Full(v) => {
                out[0] = 0x80;
                put_slice(out, 1, &v);
                assert(out@ =~= seq![0x80u8] + v@ + old(out)@.subrange(
                    17,
                    old(out)@.len() as int,
                ));
            },
        }
        Ok(need)
    }

    /// The canonical encoding as a new vector.
    pub fn encode(&self) -> (r: Result<Vec<u8>>)
        ensures
            match spec_css_encode(self@) {
                Ok(b) => r is Ok && r->Ok_0@ == b,
                Err(e) => r is Err && r->Err_0 == e,
            },
    {
        let wire = match self.canonical_wire() {
            Ok(w) => w,
            Err(e) => return Err(e),
        };
        let mut out: Vec<u8> = Vec::new();
        match wire {
            CssWire::Registered(c) => {
                out.push(0u8);
                out.push(c);
                assert(out@ =~= seq![0u8, c]);
            },
            CssWire::Short(s) => {
                out.push(0x40u8);
                push_slice(&mut out, &s);
            },
            CssWire::Full(v) => {
                out.push(0x80u8);
                push_slice(&mut out, &v);
            },
        }
        Ok(out)
    }

    /// Decodes the selector at the start of `buf`; returns it and the bytes consumed.
    pub fn decode(buf: &[u8]) -> (r: Result<(Self, usize)>)
        ensures
            match spec_css_decode(buf@) {
                Ok((s, n)) => r is Ok && r->Ok_0.0@ == s && r->Ok_0.1 == n,
                Err(e) => r is Err && r->Err_0 == e,
            },
    {
        if buf.len() == 0 {
            return Err(Error::InvalidLength);
        }
        if buf[0] % 64 != 0 {
            return Err(Error::InvalidField);
        }
        let tag = buf[0] / 64;
        if tag == 0 {
            if buf.len() < 2 {
                return Err(Error::InvalidLength);
            }
            let s = Self::registered(buf[1])?;
            Ok((s, 2))
        } else if tag == 1 {
            if buf.len() < 5 {
                return Err(Error::InvalidLength);
            }
            let s: [u8; 4] = [buf[1], buf[2], buf[3], buf[4]];
            assert(s@ =~= buf@.subrange(1, 5));
            if short_to_registered(&s).is_some() {
                return Err(Error::NonCanonical);
            }
            let sel = Self::short(s)?;
            Ok((sel, 5))
        } else if tag == 2 {
            if buf.len() < 17 {
                return Err(Error::InvalidLength);
            }
            let mut v = [0u8; 16];
            let mut i: usize = 0;
            while i < 16
                invariant
                    i <= 16,
                    buf@.len() >= 17,
                    forall|j: int| 0 <= j < i ==> v@[j] == buf@[j + 1],
                decreases 16 - i,
            {
                v[i] = buf[i + 1];
                i = i + 1;
            }
            assert(v@ =~= buf@.subrange(1, 17));
            let sel = Self::full(v)?;
            Ok((sel, 17))
        } else {
            Err(Error::InvalidField)
        }
    }
}

/// Decoding the canonical encoding of any encodable selector gives the selector back,
/// consuming exactly the encoded bytes.
pub proof fn law_css_roundtrip(sel: Seq<u8>)
    requires
        sel.len() == 16,
        spec_css_encode(sel) is Ok,
    ensures
        spec_css_decode(spec_css_encode(sel)->Ok_0) == Ok::<(Seq<u8>, nat), Error>(
            (sel, spec_css_encode(sel)->Ok_0.len()),
        ),
{
    let w = spec_canonical_wire(sel)->Ok_0;
    let b = spec_wire_bytes(w);
    let head = sel.subrange(0, 4);
    match w {
        CssWireView::Registered(c) => {
            assert(b[0] == 0u8);
            assert(b[1] == c);
            assert(spec_valid_short(head));
            if c == 1 {
                assert(head =~= file_name());
            } else {
                assert(head =~= grpc_name());
            }
            assert(short_selector(head) =~= sel);
        },
        CssWireView::Short(s) => {
            assert(b.subrange(1, 5) =~= s);
            assert(short_selector(head) =~= sel);
        },
        CssWireView::Full(v) => {
            assert(b.subrange(1, 17) =~= v);
            assert(b[0] / 64 == 2);
        },
    }
}

/// A decoded selector always re-encodes to the bytes it was decoded from.
pub proof fn law_css_decode_canonical(buf: Seq<u8>)
    requires
        spec_css_decode(buf) is Ok,
    ensures
        spec_css_encode(spec_css_decode(buf)->Ok_0.0) == Ok::<Seq<u8>, Error>(
            buf.subrange(0, spec_css_decode(buf)->Ok_0.1 as int),
        ),
{
    let (sel, n) = spec_css_decode(buf)->Ok_0;
    if buf[0] / 64 == 0 {
        let c = buf[1];
        let head = sel.subrange(0, 4);
        if c == 1 {
            assert(head =~= file_name());
        } else {
            assert(head =~= grpc_name());
        }
        assert(sel != zeros(16)) by {
            assert(sel[0] != 0);
        }
        assert(buf.subrange(0, 2) =~= seq![0u8, c]);
    } else if buf[0] / 64 == 1 {
        let s = buf.subrange(1, 5);
        assert(sel.subrange(0, 4) =~= s);
        assert(sel != zeros(16)) by {
            assert(is_short_char(s[0]));
            assert(sel[0] != 0);
        }
        assert(buf.subrange(0, 5) =~= seq![0x40u8] + s);
    } else {
        let v = buf.subrange(1, 17);
        assert(buf.subrange(0, 17) =~= seq![0x80u8] + v);
    }
}


/// A selector's encoding decodes the same with anything after it.
pub proof fn lemma_css_decode_prefix(e: Seq<u8>, t: Seq<u8>)
    requires
        spec_css_decode(e) is Ok,
        spec_css_decode(e)->Ok_0.1 == e.len(),
    ensures
        spec_css_decode(e + t) == spec_css_decode(e),
{
    let b = e + t;
    assert(b[0] == e[0]);
    if e[0] / 64 == 0 {
        assert(b[1] == e[1]);
    } else if e[0] / 64 == 1 {
        assert(b.subrange(1, 5) =~= e.subrange(1, 5));
    } else {
        assert(b.subrange(1, 17) =~= e.subrange(1, 17));
    }
}

} // verus!

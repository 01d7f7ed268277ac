use vstd::prelude::*;

verus! {

/// Big-endian value of the two bytes of `s` starting at `i`.
pub open spec fn be16(s: Seq<u8>, i: int) -> int {
    s[i] * 256 + s[i + 1]
}

/// Big-endian value of the four bytes of `s` starting at `i`.
pub open spec fn be32(s: Seq<u8>, i: int) -> int {
    s[i] * 16777216 + s[i + 1] * 65536 + s[i + 2] * 256 + s[i + 3]
}

/// Big-endian value of the eight bytes of `s` starting at `i`.
pub open spec fn be64(s: Seq<u8>, i: int) -> int {
    be32(s, i) * 4294967296 + be32(s, i + 4)
}

/// Big-endian encoding of a `u16`.
pub open spec fn u16_be(v: u16) -> Seq<u8> {
    seq![(v / 256) as u8, (v % 256) as u8]
}

/// Big-endian encoding of a `u32`.
pub open spec fn u32_be(v: u32) -> Seq<u8> {
    seq![
        (v / 16777216) as u8,
        ((v / 65536) % 256) as u8,
        ((v / 256) % 256) as u8,
        (v % 256) as u8,
    ]
}

/// Big-endian encoding of a `u64`.
pub open spec fn u64_be(v: u64) -> Seq<u8> {
    u32_be((v / 4294967296) as u32) + u32_be((v % 4294967296) as u32)
}

/// `n` zero bytes.
pub open spec fn zeros(n: nat) -> Seq<u8> {
    Seq::new(n, |_i: int| 0u8)
}

/// Every byte of `s` in `[lo, hi)` is zero.
pub open spec fn all_zero(s: Seq<u8>, lo: int, hi: int) -> bool {
    forall|i: int| lo <= i < hi ==> s[i] == 0
}

pub proof fn lemma_u16_roundtrip(v: u16)
    ensures
        be16(u16_be(v), 0) == v,
{
}

pub proof fn lemma_u32_roundtrip(v: u32)
    ensures
        be32(u32_be(v), 0) == v,
{
    assert(v == (v / 16777216) * 16777216 + ((v / 65536) % 256) * 65536 + ((v / 256) % 256) * 256
        + v % 256) by (nonlinear_arith);
}

pub proof fn lemma_u64_roundtrip(v: u64)
    ensures
        be64(u64_be(v), 0) == v,
{
    let hi = (v / 4294967296) as u32;
    let lo = (v % 4294967296) as u32;
    lemma_u32_roundtrip(hi);
    lemma_u32_roundtrip(lo);
    let s = u64_be(v);
    assert(s.subrange(0, 4) =~= u32_be(hi));
    assert(s.subrange(4, 8) =~= u32_be(lo));
    assert(be32(s, 0) == be32(u32_be(hi), 0));
    assert(be32(s, 4) == be32(u32_be(lo), 0));
    assert(v == (v / 4294967296) * 4294967296 + v % 4294967296) by (nonlinear_arith);
}

/// Reads a big-endian `u16` at `pos`.
pub fn read_u16(buf: &[u8], pos: usize) -> (r: u16)
    requires
        pos + 2 <= buf@.len(),
    ensures
        r == be16(buf@, pos as int),
{
    let b0 = buf[pos] as u16;
    let b1 = buf[pos + 1] as u16;
    b0 * 256 + b1
}

/// Reads a big-endian `u32` at `pos`.
pub fn read_u32(buf: &[u8], pos: usize) -> (r: u32)
    requires
        pos + 4 <= buf@.len(),
    ensures
        r == be32(buf@, pos as int),
{
    let b0 = buf[pos] as u32;
    let b1 = buf[pos + 1] as u32;
    let b2 = buf[pos + 2] as u32;
    let b3 = buf[pos + 3] as u32;
    b0 * 16777216 + b1 * 65536 + b2 * 256 + b3
}

/// Reads a big-endian `u64` at `pos`.
pub fn read_u64(buf: &[u8], pos: usize) -> (r: u64)
    requires
        pos + 8 <= buf@.len(),
    ensures
        r == be64(buf@, pos as int),
{
    let _n = buf.len();
    let hi = read_u32(buf, pos) as u64;
    let lo = read_u32(buf, pos + 4) as u64;
    assert(hi * 4294967296 + lo <= u64::MAX) by (nonlinear_arith)
        requires
            hi <= u32::MAX,
            lo <= u32::MAX,
    ;
    hi * 4294967296 + lo
}

/// Appends `v` in big-endian order.
pub fn push_u16(out: &mut Vec<u8>, v: u16)
    ensures
        final(out)@ == old(out)@ + u16_be(v),
{
    out.push((v / 256) as u8);
    out.push((v % 256) as u8);
    assert(final(out)@ =~= old(out)@ + u16_be(v));
}

/// Appends `v` in big-endian order.
pub fn push_u32(out: &mut Vec<u8>, v: u32)
    ensures
        final(out)@ == old(out)@ + u32_be(v),
{
    out.push((v / 16777216) as u8);
    out.push(((v / 65536) % 256) as u8);
    out.push(((v / 256) % 256) as u8);
    out.push((v % 256) as u8);
    assert(final(out)@ =~= old(out)@ + u32_be(v));
}

/// Appends `v` in big-endian order.
pub fn push_u64(out: &mut Vec<u8>, v: u64)
    ensures
        final(out)@ == old(out)@ + u64_be(v),
{
    push_u32(out, (v / 4294967296) as u32);
    push_u32(out, (v % 4294967296) as u32);
    assert(final(out)@ =~= old(out)@ + u64_be(v));
}

/// Appends `n` zero bytes.
pub fn push_zeros(out: &mut Vec<u8>, n: usize)
    ensures
        final(out)@ == old(out)@ + zeros(n as nat),
{
    let mut i: usize = 0;
    while i < n
        invariant
            i <= n,
            out@ == old(out)@ + zeros(i as nat),
        decreases n - i,
    {
        out.push(0u8);
        i = i + 1;
        assert(out@ =~= old(out)@ + zeros(i as nat));
    }
}

/// Appends every byte of `data`.
pub fn push_slice(out: &mut Vec<u8>, data: &[u8])
    ensures
        final(out)@ == old(out)@ + data@,
{
    let mut i: usize = 0;
    while i < data.len()
        invariant
            i <= data@.len(),
            out@ == old(out)@ + data@.subrange(0, i as int),
        decreases data@.len() - i,
    {
        out.push(data[i]);
        i = i + 1;
        assert(out@ =~= old(out)@ + data@.subrange(0, i as int));
    }
    assert(data@.subrange(0, data@.len() as int) =~= data@);
}

/// Copies `buf[lo..hi]` into a new vector.
pub fn copy_range(buf: &[u8], lo: usize, hi: usize) -> (r: Vec<u8>)
    requires
        lo <= hi <= buf@.len(),
    ensures
        r@ == buf@.subrange(lo as int, hi as int),
{
    let mut out: Vec<u8> = Vec::new();
    let mut i: usize = lo;
    while i < hi
        invariant
            lo <= i <= hi <= buf@.len(),
            out@ == buf@.subrange(lo as int, i as int),
        decreases hi - i,
    {
        out.push(buf[i]);
        i = i + 1;
        assert(out@ =~= buf@.subrange(lo as int, i as int));
    }
    out
}

/// Whether every byte of `buf[lo..hi]` is zero.
pub fn check_zero(buf: &[u8], lo: usize, hi: usize) -> (r: bool)
    requires
        lo <= hi <= buf@.len(),
    ensures
        r == all_zero(buf@, lo as int, hi as int),
{
    let mut i: usize = lo;
    while i < hi
        invariant
            lo <= i <= hi <= buf@.len(),
            all_zero(buf@, lo as int, i as int),
        decreases hi - i,
    {
        if buf[i] != 0 {
            return false;
        }
        i = i + 1;
    }
    true
}

/// Whether two byte slices hold the same bytes.
pub fn bytes_equal(a: &[u8], b: &[u8]) -> (r: bool)
    ensures
        r == (a@ == b@),
{
    if a.len() != b.len() {
        return false;
    }
    let mut i: usize = 0;
    while i < a.len()
        invariant
            a@.len() == b@.len(),
            i <= a@.len(),
            forall|j: int| 0 <= j < i ==> a@[j] == b@[j],
        decreases a@.len() - i,
    {
        if a[i] != b[i] {
            return false;
        }
        i = i + 1;
    }
    assert(a@ =~= b@);
    true
}

} // verus!

verus! {

/// Writes `data` into `out` at `pos`, leaving the other bytes unchanged.
pub fn put_slice(out: &mut [u8], pos: usize, data: &[u8])
    requires
        pos + data@.len() <= old(out)@.len(),
    ensures
        final(out)@ == old(out)@.subrange(0, pos as int) + data@ + old(out)@.subrange(
            pos + data@.len(),
            old(out)@.len() as int,
        ),
{
    let _n = out.len();
    let mut i: usize = 0;
    while i < data.len()
        invariant
            i <= data@.len(),
            out@.len() <= usize::MAX,
            pos + data@.len() <= out@.len(),
            out@.len() == old(out)@.len(),
            out@ == old(out)@.subrange(0, pos as int) + data@.subrange(0, i as int)
                + old(out)@.subrange(pos + i, old(out)@.len() as int),
        decreases data@.len() - i,
    {
        out[pos + i] = data[i];
        i = i + 1;
        assert(out@ =~= old(out)@.subrange(0, pos as int) + data@.subrange(0, i as int)
            + old(out)@.subrange(pos + i, old(out)@.len() as int));
    }
    assert(data@.subrange(0, data@.len() as int) =~= data@);
}


/// A big-endian `u16` written at `i` reads back.
pub proof fn lemma_be16_at(s: Seq<u8>, i: int, v: u16)
    requires
        0 <= i,
        i + 2 <= s.len(),
        s.subrange(i, i + 2) == u16_be(v),
    ensures
        be16(s, i) == v,
{
    lemma_u16_roundtrip(v);
    assert(s[i] == s.subrange(i, i + 2)[0]);
    assert(s[i + 1] == s.subrange(i, i + 2)[1]);
}

/// A big-endian `u32` written at `i` reads back.
pub proof fn lemma_be32_at(s: Seq<u8>, i: int, v: u32)
    requires
        0 <= i,
        i + 4 <= s.len(),
        s.subrange(i, i + 4) == u32_be(v),
    ensures
        be32(s, i) == v,
{
    lemma_u32_roundtrip(v);
    let t = s.subrange(i, i + 4);
    assert(s[i] == t[0] && s[i + 1] == t[1] && s[i + 2] == t[2] && s[i + 3] == t[3]);
}


/// A big-endian `u64` written at `i` reads back.
pub proof fn lemma_be64_at(s: Seq<u8>, i: int, v: u64)
    requires
        0 <= i,
        i + 8 <= s.len(),
        s.subrange(i, i + 8) == u64_be(v),
    ensures
        be64(s, i) == v,
{
    lemma_u64_roundtrip(v);
    let t = s.subrange(i, i + 8);
    assert(s[i] == t[0] && s[i + 1] == t[1] && s[i + 2] == t[2] && s[i + 3] == t[3]);
    assert(s[i + 4] == t[4] && s[i + 5] == t[5] && s[i + 6] == t[6] && s[i + 7] == t[7]);
}

} // verus!

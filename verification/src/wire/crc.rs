use vstd::prelude::*;

verus! {

/// The `n` low bits of `value`, most significant first.
pub open spec fn bits_of(value: u64, n: nat) -> Seq<bool> {
    Seq::new(n, |j: int| ((value >> ((n - 1 - j) as u64)) & 1) != 0)
}

/// The bits of `bytes`, each byte most significant bit first.
pub open spec fn bytes_bits(bytes: Seq<u8>) -> Seq<bool>
    decreases bytes.len(),
{
    if bytes.len() == 0 {
        Seq::empty()
    } else {
        bytes_bits(bytes.drop_last()) + bits_of(bytes.last() as u64, 8)
    }
}

/// One step of the CRC-8 shift register with generator polynomial 0x07.
pub open spec fn crc8_step(c: u8, bit: bool) -> u8 {
    if ((c & 0x80u8) != 0) != bit {
        (c << 1u8) ^ 0x07u8
    } else {
        c << 1u8
    }
}

/// One step of the CRC-32 shift register with generator polynomial 0x04C11DB7.
pub open spec fn crc32_step(c: u32, bit: bool) -> u32 {
    if ((c & 0x8000_0000u32) != 0) != bit {
        (c << 1u32) ^ 0x04c1_1db7u32
    } else {
        c << 1u32
    }
}

/// CRC-8 register after shifting in `bits` from `init`.
pub open spec fn crc8_bits(init: u8, bits: Seq<bool>) -> u8
    decreases bits.len(),
{
    if bits.len() == 0 {
        init
    } else {
        crc8_step(crc8_bits(init, bits.drop_last()), bits.last())
    }
}

/// CRC-32 register after shifting in `bits` from `init`.
pub open spec fn crc32_bits(init: u32, bits: Seq<bool>) -> u32
    decreases bits.len(),
{
    if bits.len() == 0 {
        init
    } else {
        crc32_step(crc32_bits(init, bits.drop_last()), bits.last())
    }
}

/// CRC-8-GNET of a byte string (initial value zero, no final xor).
pub open spec fn spec_crc8(bytes: Seq<u8>) -> u8 {
    crc8_bits(0, bytes_bits(bytes))
}

/// CRC-32-GNET of a bit string (initial value all ones, final xor with all ones).
pub open spec fn spec_crc32_of_bits(bits: Seq<bool>) -> u32 {
    crc32_bits(0xffff_ffffu32, bits) ^ 0xffff_ffffu32
}

/// CRC-32-GNET of a byte string.
pub open spec fn spec_crc32(bytes: Seq<u8>) -> u32 {
    spec_crc32_of_bits(bytes_bits(bytes))
}

/// Shifting in `a + b` is shifting in `a`, then `b`.
pub proof fn lemma_crc8_append(init: u8, a: Seq<bool>, b: Seq<bool>)
    ensures
        crc8_bits(init, a + b) == crc8_bits(crc8_bits(init, a), b),
    decreases b.len(),
{
    if b.len() > 0 {
        lemma_crc8_append(init, a, b.drop_last());
        assert((a + b).drop_last() =~= a + b.drop_last());
    } else {
        assert(a + b =~= a);
    }
}

/// Shifting in `a + b` is shifting in `a`, then `b`.
pub proof fn lemma_crc32_append(init: u32, a: Seq<bool>, b: Seq<bool>)
    ensures
        crc32_bits(init, a + b) == crc32_bits(crc32_bits(init, a), b),
    decreases b.len(),
{
    if b.len() > 0 {
        lemma_crc32_append(init, a, b.drop_last());
        assert((a + b).drop_last() =~= a + b.drop_last());
    } else {
        assert(a + b =~= a);
    }
}

/// The bits of a concatenation are the concatenation of the bits.
pub proof fn lemma_bytes_bits_append(a: Seq<u8>, b: Seq<u8>)
    ensures
        bytes_bits(a + b) == bytes_bits(a) + bytes_bits(b),
    decreases b.len(),
{
    if b.len() == 0 {
        assert(a + b =~= a);
        assert(bytes_bits(a) + bytes_bits(b) =~= bytes_bits(a));
    } else {
        lemma_bytes_bits_append(a, b.drop_last());
        assert((a + b).drop_last() =~= a + b.drop_last());
        assert(bytes_bits(a) + bytes_bits(b) =~= bytes_bits(a) + bytes_bits(b.drop_last())
            + bits_of(b.last() as u64, 8));
    }
}

/// Bit-serial CRC-8-GNET accumulator.
#[derive(Debug, Clone, Copy)]
pub struct Crc8 {
    value: u8,
}

impl Crc8 {
    /// Current register contents.
    pub closed spec fn reg(self) -> u8 {
        self.value
    }

    pub fn new() -> (r: Self)
        ensures
            r.reg() == 0,
    {
        Crc8 { value: 0 }
    }

    pub fn update_bit(&mut self, bit: bool)
        ensures
            final(self).reg() == crc8_step(old(self).reg(), bit),
    {
        let top = (self.value & 0x80) != 0;
        self.value = self.value << 1u8;
        if top != bit {
            self.value = self.value ^ 0x07;
        }
    }

    /// Shifts in the `bits` low bits of `value`, most significant first.
    pub fn update_bits(&mut self, value: u64, bits: usize)
        requires
            bits <= 64,
        ensures
            final(self).reg() == crc8_bits(old(self).reg(), bits_of(value, bits as nat)),
    {
        let ghost init = self.reg();
        let ghost all = bits_of(value, bits as nat);
        let mut i: usize = bits;
        while i > 0
            invariant
                i <= bits <= 64,
                all == bits_of(value, bits as nat),
                self.reg() == crc8_bits(init, all.subrange(0, (bits - i) as int)),
            decreases i,
        {
            i = i - 1;
            let b = ((value >> (i as u64)) & 1) != 0;
            self.update_bit(b);
            assert(all.subrange(0, (bits - i) as int).drop_last() =~= all.subrange(
                0,
                (bits - i - 1) as int,
            ));
        }
        assert(all.subrange(0, bits as int) =~= all);
    }

    pub fn update_bytes(&mut self, bytes: &[u8])
        ensures
            final(self).reg() == crc8_bits(old(self).reg(), bytes_bits(bytes@)),
    {
        let ghost init = self.reg();
        let mut i: usize = 0;
        while i < bytes.len()
            invariant
                i <= bytes@.len(),
                self.reg() == crc8_bits(init, bytes_bits(bytes@.subrange(0, i as int))),
            decreases bytes@.len() - i,
        {
            let ghost before = bytes_bits(bytes@.subrange(0, i as int));
            self.update_bits(bytes[i] as u64, 8);
            proof {
                assert(bytes@.subrange(0, i + 1).drop_last() =~= bytes@.subrange(0, i as int));
                lemma_crc8_append(init, before, bits_of(bytes@[i as int] as u64, 8));
            }
            i = i + 1;
        }
        assert(bytes@.subrange(0, bytes@.len() as int) =~= bytes@);
    }

    pub fn finalize(self) -> (r: u8)
        ensures
            r == self.reg(),
    {
        self.value
    }
}

/// Bit-serial CRC-32-GNET accumulator.
#[derive(Debug, Clone, Copy)]
pub struct Crc32 {
    value: u32,
}

impl Crc32 {
    /// Current register contents (before the final inversion).
    pub closed spec fn reg(self) -> u32 {
        self.value
    }

    pub fn new() -> (r: Self)
        ensures
            r.reg() == 0xffff_ffffu32,
    {
        Crc32 { value: 0xffff_ffff }
    }

    pub fn update_bit(&mut self, bit: bool)
        ensures
            final(self).reg() == crc32_step(old(self).reg(), bit),
    {
        let top = (self.value & 0x8000_0000) != 0;
        self.value = self.value << 1u32;
        if top != bit {
            self.value = self.value ^ 0x04c1_1db7;
        }
    }

    /// Shifts in the `bits` low bits of `value`, most significant first.
    pub fn update_bits(&mut self, value: u64, bits: usize)
        requires
            bits <= 64,
        ensures
            final(self).reg() == crc32_bits(old(self).reg(), bits_of(value, bits as nat)),
    {
        let ghost init = self.reg();
        let ghost all = bits_of(value, bits as nat);
        let mut i: usize = bits;
        while i > 0
            invariant
                i <= bits <= 64,
                all == bits_of(value, bits as nat),
                self.reg() == crc32_bits(init, all.subrange(0, (bits - i) as int)),
            decreases i,
        {
            i = i - 1;
            let b = ((value >> (i as u64)) & 1) != 0;
            self.update_bit(b);
            assert(all.subrange(0, (bits - i) as int).drop_last() =~= all.subrange(
                0,
                (bits - i - 1) as int,
            ));
        }
        assert(all.subrange(0, bits as int) =~= all);
    }

    pub fn update_bytes(&mut self, bytes: &[u8])
        ensures
            final(self).reg() == crc32_bits(old(self).reg(), bytes_bits(bytes@)),
    {
        let ghost init = self.reg();
        let mut i: usize = 0;
        while i < bytes.len()
            invariant
                i <= bytes@.len(),
                self.reg() == crc32_bits(init, bytes_bits(bytes@.subrange(0, i as int))),
            decreases bytes@.len() - i,
        {
            let ghost before = bytes_bits(bytes@.subrange(0, i as int));
            self.update_bits(bytes[i] as u64, 8);
            proof {
                assert(bytes@.subrange(0, i + 1).drop_last() =~= bytes@.subrange(0, i as int));
                lemma_crc32_append(init, before, bits_of(bytes@[i as int] as u64, 8));
            }
            i = i + 1;
        }
        assert(bytes@.subrange(0, bytes@.len() as int) =~= bytes@);
    }

    /// Final CRC value (register inverted).
    pub fn finalize(self) -> (r: u32)
        ensures
            r == self.reg() ^ 0xffff_ffffu32,
    {
        self.value ^ 0xffff_ffff
    }
}

/// CRC-8-GNET of `bytes`.
pub fn crc8_gnet(bytes: &[u8]) -> (r: u8)
    ensures
        r == spec_crc8(bytes@),
{
    let mut c = Crc8::new();
    c.update_bytes(bytes);
    c.finalize()
}

/// CRC-32-GNET of `bytes`.
pub fn crc32_gnet(bytes: &[u8]) -> (r: u32)
    ensures
        r == spec_crc32(bytes@),
{
    let mut c = Crc32::new();
    c.update_bytes(bytes);
    c.finalize()
}

/// CRC-8 accumulation is incremental: feeding `a` then `b` gives the CRC of `a + b`.
pub proof fn law_crc8_incremental(a: Seq<u8>, b: Seq<u8>)
    ensures
        crc8_bits(spec_crc8(a), bytes_bits(b)) == spec_crc8(a + b),
{
    lemma_bytes_bits_append(a, b);
    lemma_crc8_append(0, bytes_bits(a), bytes_bits(b));
}

/// CRC-32 accumulation is incremental over the register.
pub proof fn law_crc32_incremental(a: Seq<u8>, b: Seq<u8>)
    ensures
        crc32_bits(crc32_bits(0xffff_ffffu32, bytes_bits(a)), bytes_bits(b))
            == crc32_bits(0xffff_ffffu32, bytes_bits(a + b)),
{
    lemma_bytes_bits_append(a, b);
    lemma_crc32_append(0xffff_ffffu32, bytes_bits(a), bytes_bits(b));
}

proof fn lemma_crc32_step_separates(c1: u32, c2: u32, b1: bool, b2: bool)
    ensures
        c1 == c2 && b1 != b2 ==> crc32_step(c1, b1) != crc32_step(c2, b2),
        c1 != c2 && b1 == b2 ==> crc32_step(c1, b1) != crc32_step(c2, b2),
{
    assert(c1 == c2 && b1 != b2 ==> crc32_step(c1, b1) != crc32_step(c2, b2)) by (bit_vector);
    assert(c1 != c2 && b1 == b2 ==> crc32_step(c1, b1) != crc32_step(c2, b2)) by (bit_vector);
}

/// Two bit strings that differ in exactly one position leave different
/// CRC-32 registers.
proof fn lemma_crc32_one_bit(init: u32, s: Seq<bool>, t: Seq<bool>, i: int)
    requires
        s.len() == t.len(),
        0 <= i < s.len(),
        s[i] != t[i],
        forall|j: int| 0 <= j < s.len() && j != i ==> s[j] == t[j],
    ensures
        crc32_bits(init, s) != crc32_bits(init, t),
    decreases s.len(),
{
    let n = s.len() - 1;
    if n == i {
        assert(s.drop_last() =~= t.drop_last());
        lemma_crc32_step_separates(crc32_bits(init, s.drop_last()), crc32_bits(init, t.drop_last()), s.last(), t.last());
    } else {
        lemma_crc32_one_bit(init, s.drop_last(), t.drop_last(), i);
        lemma_crc32_step_separates(crc32_bits(init, s.drop_last()), crc32_bits(init, t.drop_last()), s.last(), t.last());
    }
}

proof fn lemma_flip_bit(x: u8, m: u8, j: u64)
    requires
        m < 8,
        j < 8,
    ensures
        (((x as u64 >> j) & 1) != 0) != (((((x ^ (1u8 << m)) as u8) as u64 >> j) & 1) != 0) <==> j == m as u64,
{
    assert((((x as u64 >> j) & 1) != 0) != (((((x ^ (1u8 << m)) as u8) as u64 >> j) & 1) != 0) <==> j == m as u64)
        by (bit_vector)
        requires
            m < 8,
            j < 8,
    ;
}

/// CRC-32 detects every single-bit error behind any prefix of bits:
/// flipping bit `m` of byte `k` of `a` changes the checksum of `pre`
/// followed by the bits of `a`.
pub proof fn law_crc32_detects_bit_flip_after(pre: Seq<bool>, a: Seq<u8>, k: int, m: u8)
    requires
        0 <= k < a.len(),
        m < 8,
    ensures
        spec_crc32_of_bits(pre + bytes_bits(a.update(k, (a[k] ^ (1u8 << m)) as u8)))
            != spec_crc32_of_bits(pre + bytes_bits(a)),
{
    let x = a[k];
    let y = (x ^ (1u8 << m)) as u8;
    let b = a.update(k, y);
    let p = a.subrange(0, k);
    let q = a.subrange(k + 1, a.len() as int);
    assert(a =~= p + seq![x] + q);
    assert(b =~= p + seq![y] + q);
    lemma_bytes_bits_append(p + seq![x], q);
    lemma_bytes_bits_append(p, seq![x]);
    lemma_bytes_bits_append(p + seq![y], q);
    lemma_bytes_bits_append(p, seq![y]);
    assert(seq![x].drop_last() =~= Seq::<u8>::empty());
    assert(seq![y].drop_last() =~= Seq::<u8>::empty());
    let bx = bits_of(x as u64, 8);
    let by = bits_of(y as u64, 8);
    assert(bytes_bits(Seq::<u8>::empty()) =~= Seq::<bool>::empty());
    assert(seq![x].last() == x && seq![y].last() == y);
    assert(bytes_bits(seq![x]) =~= bytes_bits(Seq::<u8>::empty()) + bx);
    assert(bytes_bits(seq![y]) =~= bytes_bits(Seq::<u8>::empty()) + by);
    assert(bytes_bits(seq![x]) =~= bx);
    assert(bytes_bits(seq![y]) =~= by);
    let s = pre + bytes_bits(p) + bx + bytes_bits(q);
    let t = pre + bytes_bits(p) + by + bytes_bits(q);
    assert(pre + bytes_bits(a) =~= s);
    assert(pre + bytes_bits(b) =~= t);
    let o = pre.len() + bytes_bits(p).len();
    let i = o + (7 - m);
    assert forall|j: int| 0 <= j < 8 implies (bx[j] != by[j] <==> j == 7 - m) by {
        lemma_flip_bit(x, m, (7 - j) as u64);
    }
    assert forall|j: int| 0 <= j < s.len() && j != i implies s[j] == t[j] by {
        if o <= j < o + 8 {
            assert(bx[j - o] == by[j - o]);
        }
    }
    assert(bx[7 - m] != by[7 - m]);
    lemma_crc32_one_bit(0xffff_ffffu32, s, t, i);
    let c1 = crc32_bits(0xffff_ffffu32, t);
    let c2 = crc32_bits(0xffff_ffffu32, s);
    assert(c1 != c2 ==> c1 ^ 0xffff_ffffu32 != c2 ^ 0xffff_ffffu32) by (bit_vector);
}

/// CRC-32 detects every single-bit error: flipping bit `m` of byte `k`
/// changes the checksum.
pub proof fn law_crc32_detects_bit_flip(a: Seq<u8>, k: int, m: u8)
    requires
        0 <= k < a.len(),
        m < 8,
    ensures
        spec_crc32(a.update(k, (a[k] ^ (1u8 << m)) as u8)) != spec_crc32(a),
{
    law_crc32_detects_bit_flip_after(Seq::empty(), a, k, m);
    assert(Seq::<bool>::empty() + bytes_bits(a) =~= bytes_bits(a));
    assert(Seq::<bool>::empty() + bytes_bits(a.update(k, (a[k] ^ (1u8 << m)) as u8)) =~= bytes_bits(
        a.update(k, (a[k] ^ (1u8 << m)) as u8),
    ));
}

} // verus!

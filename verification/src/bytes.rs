//! Little- and big-endian integer fields and in-place byte updates.
use vstd::prelude::*;

verus! {

/// `bytes` written over `s` at `off` (length preserved when it fits).
pub open spec fn splice(s: Seq<u8>, off: int, bytes: Seq<u8>) -> Seq<u8> {
    s.take(off) + bytes + s.skip(off + bytes.len())
}

/// What a splice keeps and what it replaces.
pub proof fn lemma_splice(s: Seq<u8>, off: int, b: Seq<u8>)
    requires
        0 <= off,
        off + b.len() <= s.len(),
    ensures
        splice(s, off, b).len() == s.len(),
        forall|i: int| off <= i < off + b.len() ==> #[trigger] splice(s, off, b)[i] == b[i - off],
        forall|i: int|
            0 <= i < s.len() && !(off <= i < off + b.len()) ==> #[trigger] splice(s, off, b)[i]
                == s[i],
{
}

/// Four little-endian bytes of `v`.
pub open spec fn le32_bytes(v: u32) -> Seq<u8> {
    seq![(v % 256) as u8, ((v / 256) % 256) as u8, ((v / 65536) % 256) as u8, (v / 16777216) as u8]
}

/// Four big-endian bytes of `v`.
pub open spec fn be32_bytes(v: u32) -> Seq<u8> {
    seq![(v / 16777216) as u8, ((v / 65536) % 256) as u8, ((v / 256) % 256) as u8, (v % 256) as u8]
}

/// Three little-endian bytes of the low 24 bits of `v`.
pub open spec fn le24_bytes(v: u32) -> Seq<u8> {
    seq![(v % 256) as u8, ((v / 256) % 256) as u8, ((v / 65536) % 256) as u8]
}

/// The little-endian value of the four bytes of `s` at `off`.
pub open spec fn le32_at(s: Seq<u8>, off: int) -> u32 {
    (s[off] + s[off + 1] * 256 + s[off + 2] * 65536 + s[off + 3] * 16777216) as u32
}

/// The little-endian value of the three bytes of `s` at `off`.
pub open spec fn le24_at(s: Seq<u8>, off: int) -> u32 {
    (s[off] + s[off + 1] * 256 + s[off + 2] * 65536) as u32
}

/// Reading back four written bytes gives the value.
pub proof fn lemma_le32_roundtrip(v: u32)
    ensures
        le32_at(le32_bytes(v), 0) == v,
        le32_bytes(v).len() == 4,
{
    let b = le32_bytes(v);
    assert(b[0] + b[1] * 256 + b[2] * 65536 + b[3] * 16777216 == v) by (nonlinear_arith)
        requires
            b[0] == v % 256,
            b[1] == (v / 256) % 256,
            b[2] == (v / 65536) % 256,
            b[3] == v / 16777216,
            0 <= v < 0x1_0000_0000,
    {
    }
}

/// Reading back three written bytes gives the low 24 bits.
pub proof fn lemma_le24_roundtrip(v: u32)
    ensures
        le24_at(le24_bytes(v), 0) == v % 16777216,
        le24_bytes(v).len() == 3,
{
    let b = le24_bytes(v);
    assert(b[0] + b[1] * 256 + b[2] * 65536 == v % 16777216) by (nonlinear_arith)
        requires
            b[0] == v % 256,
            b[1] == (v / 256) % 256,
            b[2] == (v / 65536) % 256,
            0 <= v < 0x1_0000_0000,
    {
    }
}

/// Reads a little-endian `u32` at `off`.
pub fn read_u32_le(buf: &[u8], off: usize) -> (v: u32)
    requires
        off + 4 <= buf@.len(),
    ensures
        v == le32_at(buf@, off as int),
{
    let a = buf[off] as u32;
    let b = buf[off + 1] as u32;
    let c = buf[off + 2] as u32;
    let d = buf[off + 3] as u32;
    a + b * 256 + c * 65536 + d * 16777216
}

/// Reads a little-endian 24-bit value at `off`.
pub fn read_u24_le(buf: &[u8], off: usize) -> (v: u32)
    requires
        off + 3 <= buf@.len(),
    ensures
        v == le24_at(buf@, off as int),
{
    let a = buf[off] as u32;
    let b = buf[off + 1] as u32;
    let c = buf[off + 2] as u32;
    a + b * 256 + c * 65536
}

/// Writes `bytes` over `buf` at `off`.
pub fn write_bytes_at<const N: usize>(buf: &mut [u8; N], off: usize, bytes: &[u8])
    requires
        off + bytes@.len() <= N,
    ensures
        final(buf)@ == splice(old(buf)@, off as int, bytes@),
{
    let ghost orig = buf@;
    let mut i: usize = 0;
    while i < bytes.len()
        invariant
            i <= bytes@.len(),
            off + bytes@.len() <= N,
            buf@.len() == N,
            orig.len() == N,
            buf@ =~= splice(orig, off as int, bytes@.take(i as int)),
        decreases bytes@.len() - i,
    {
        buf[off + i] = bytes[i];
        assert(buf@ =~= splice(orig, off as int, bytes@.take(i + 1)));
        i = i + 1;
    }
    assert(bytes@.take(bytes@.len() as int) =~= bytes@);
}

/// Writes `v` little-endian at `off`.
pub fn write_u32_le<const N: usize>(buf: &mut [u8; N], off: usize, v: u32)
    requires
        off + 4 <= N,
    ensures
        final(buf)@ == splice(old(buf)@, off as int, le32_bytes(v)),
{
    let ghost orig = buf@;
    buf[off] = (v % 256) as u8;
    buf[off + 1] = ((v / 256) % 256) as u8;
    buf[off + 2] = ((v / 65536) % 256) as u8;
    buf[off + 3] = (v / 16777216) as u8;
    assert(buf@ =~= splice(orig, off as int, le32_bytes(v)));
}

/// Writes the low 24 bits of `v` little-endian at `off`.
pub fn write_u24_le(buf: &mut [u8], off: usize, v: u32)
    requires
        off + 3 <= old(buf)@.len(),
    ensures
        final(buf)@ == splice(old(buf)@, off as int, le24_bytes(v)),
{
    let ghost orig = buf@;
    let _len = buf.len();
    buf[off] = (v % 256) as u8;
    buf[off + 1] = ((v / 256) % 256) as u8;
    buf[off + 2] = ((v / 65536) % 256) as u8;
    assert(buf@ =~= splice(orig, off as int, le24_bytes(v)));
}

} // verus!

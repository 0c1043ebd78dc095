//! Fixed-length, NUL-padded string fields of the on-device records.
use vstd::prelude::*;
use crate::bytes::{splice, write_bytes_at};
use crate::packets::{zeros, slice_take};
use vstd::utf8::{encode_utf8, decode_utf8, valid_utf8, encode_utf8_valid_utf8, encode_utf8_decode_utf8};

verus! {

/// Number of leading non-zero bytes of `b`.
pub open spec fn nul_pos(b: Seq<u8>) -> nat
    decreases b.len(),
{
    if b.len() == 0 || b[0] == 0 {
        0
    } else {
        1 + nul_pos(b.drop_first())
    }
}

/// The bytes of `b` before its first zero byte (all of `b` if none).
pub open spec fn until_nul(b: Seq<u8>) -> Seq<u8> {
    b.take(nul_pos(b) as int)
}

/// The field written for `s`: its UTF-8 bytes cut to `max` bytes, then zero
/// padding up to `max`.
pub open spec fn field_bytes(s: Seq<char>, max: nat) -> Seq<u8> {
    let e = encode_utf8(s);
    let n = if e.len() < max { e.len() } else { max };
    e.take(n as int) + zeros((max - n) as nat)
}

/// `s` fits a field of `max` bytes unchanged: its UTF-8 encoding has at
/// most `max` bytes and no zero byte (no NUL character).
pub open spec fn text_fits(s: Seq<char>, max: nat) -> bool {
    encode_utf8(s).len() <= max && forall|i: int|
        0 <= i < encode_utf8(s).len() ==> #[trigger] encode_utf8(s)[i] != 0
}

/// A field written for a fitting text reads back as its UTF-8 bytes, which
/// decode to the text.
pub proof fn lemma_field_text(s: Seq<char>, max: nat)
    requires
        text_fits(s, max),
    ensures
        field_bytes(s, max).len() == max,
        until_nul(field_bytes(s, max)) == encode_utf8(s),
        valid_utf8(encode_utf8(s)),
        decode_utf8(encode_utf8(s)) == s,
{
    let e = encode_utf8(s);
    let f = field_bytes(s, max);
    assert(f.len() == max);
    assert forall|k: int| 0 <= k < e.len() implies f[k] != 0 by {
        assert(f[k] == e[k]);
    }
    lemma_nul_pos(f, e.len() as int);
    assert(f.take(e.len() as int) =~= e);
    encode_utf8_valid_utf8(s);
    encode_utf8_decode_utf8(s);
}

/// `nul_pos` is the first index holding zero (or the length).
pub proof fn lemma_nul_pos(b: Seq<u8>, i: int)
    requires
        0 <= i <= b.len(),
        forall|k: int| 0 <= k < i ==> b[k] != 0,
        i == b.len() || b[i] == 0,
    ensures
        nul_pos(b) == i,
    decreases i,
{
    if i > 0 {
        lemma_nul_pos(b.drop_first(), i - 1);
    }
}

/// Bounds of `nul_pos`.
pub proof fn lemma_nul_pos_facts(b: Seq<u8>)
    ensures
        nul_pos(b) <= b.len(),
        forall|k: int| 0 <= k < nul_pos(b) ==> b[k] != 0,
        nul_pos(b) == b.len() || b[nul_pos(b) as int] == 0,
    decreases b.len(),
{
    if b.len() > 0 && b[0] != 0 {
        lemma_nul_pos_facts(b.drop_first());
        assert forall|k: int| 0 <= k < nul_pos(b) implies b[k] != 0 by {
            if k > 0 {
                assert(b[k] == b.drop_first()[k - 1]);
            }
        }
    }
}

/// The bytes of the field of length `max` at `off`, up to its first zero byte.
pub fn field_until_nul(buf: &[u8], off: usize, max: usize) -> (r: &[u8])
    requires
        off + max <= buf@.len(),
    ensures
        r@ == until_nul(buf@.subrange(off as int, off + max)),
{
    let ghost f = buf@.subrange(off as int, off + max);
    let len = buf.len();
    let mut i: usize = 0;
    while i < max && buf[off + i] != 0
        invariant
            i <= max,
            off + max <= buf@.len(),
            len == buf@.len(),
            f == buf@.subrange(off as int, off + max),
            forall|k: int| 0 <= k < i ==> f[k] != 0,
        decreases max - i,
    {
        i = i + 1;
    }
    proof {
        lemma_nul_pos(f, i as int);
    }
    let r = vstd::slice::slice_subrange(buf, off, off + i);
    assert(r@ =~= until_nul(f));
    r
}

/// Zeroes the field of length `max` at `off`, then writes the UTF-8 bytes of
/// `value`, cut to `max` bytes.
pub fn write_fixed_string<const N: usize>(buf: &mut [u8; N], off: usize, max: usize, value: &str)
    requires
        off + max <= N,
    ensures
        final(buf)@ == splice(old(buf)@, off as int, field_bytes(value@, max as nat)),
{
    let bytes = value.as_bytes();
    let n: usize = if bytes.len() < max { bytes.len() } else { max };
    let ghost orig = buf@;
    write_bytes_at(buf, off, slice_take(bytes, n));
    let mut i: usize = n;
    while i < max
        invariant
            n <= i <= max,
            off + max <= N,
            buf@.len() == N,
            orig.len() == N,
            bytes@ == encode_utf8(value@),
            n == (if bytes@.len() < max { bytes@.len() } else { max as nat }),
            buf@ =~= splice(orig, off as int, bytes@.take(n as int) + zeros((i - n) as nat)),
        decreases max - i,
    {
        buf[off + i] = 0;
        assert(buf@ =~= splice(orig, off as int, bytes@.take(n as int) + zeros((i + 1 - n) as nat)));
        i = i + 1;
    }
}

} // verus!

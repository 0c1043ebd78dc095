//! Strict UTF-8 decoding into characters, against the UTF-8 specification of
//! vstd.
use vstd::prelude::*;
use vstd::utf8::{
    valid_utf8, decode_utf8, valid_first_scalar, decode_first_scalar, length_of_first_scalar,
    pop_first_scalar, is_scalar, is_leading_byte_width_1, is_leading_byte_width_2,
    is_leading_byte_width_3, is_leading_byte_width_4, is_continuation_byte, decode_first_codepoint,
    length_of_first_codepoint, valid_leading_and_continuation_bytes_first_codepoint,
    not_overlong_encoding, not_surrogate, codepoint_width_1, codepoint_width_2, codepoint_width_3,
    codepoint_width_4, leading_bits_width_1, leading_bits_width_2, leading_bits_width_3,
    leading_bits_width_4, continuation_bits, has_width_1_encoding, has_width_2_encoding,
    has_width_3_encoding, has_width_4_encoding,
};

verus! {

broadcast use vstd::utf8::group_utf8_lib;

/// The character of a Unicode scalar value (`char::from_u32` of std, which
/// returns `Some` exactly for scalar values).
#[verifier::external_body]
pub(crate) fn char_from_scalar(v: u32) -> (c: char)
    requires
        is_scalar(v),
    ensures
        c as u32 == v,
{
    char::from_u32(v).unwrap()
}

/// The first scalar of `b` from `i` on, with its encoded length, when the
/// bytes there start with a well-formed encoding.
fn first_scalar(b: &[u8], i: usize) -> (r: Option<(u32, usize)>)
    requires
        i < b@.len(),
    ensures
        r is Some <==> valid_first_scalar(b@.skip(i as int)),
        r matches Some((cp, len)) ==> cp == decode_first_scalar(b@.skip(i as int)) && len
            == length_of_first_scalar(b@.skip(i as int)) && is_scalar(cp),
{
    let ghost t = b@.skip(i as int);
    let n = b.len() - i;
    let b0 = b[i];
    if b0 <= 0x7f {
        let cp = (b0 & 0x7F) as u32;
        assert(cp < 0x80) by (bit_vector) requires cp == (b0 & 0x7F) as u32;
        return Some((cp, 1));
    }
    if 0xc0 <= b0 && b0 <= 0xdf {
        if n < 2 {
            return None;
        }
        let b1 = b[i + 1];
        if !(0x80 <= b1 && b1 <= 0xbf) {
            return None;
        }
        let cp = (((b0 & 0x1F) as u32) << 6) | ((b1 & 0x3f) as u32);
        assert(cp == codepoint_width_2(t[0], t[1]));
        assert(cp <= 0x7ff) by (bit_vector) requires cp == (((b0 & 0x1F) as u32) << 6) | ((b1 & 0x3f) as u32);
        if cp < 0x80 {
            return None;
        }
        return Some((cp, 2));
    }
    if 0xe0 <= b0 && b0 <= 0xef {
        if n < 3 {
            return None;
        }
        let b1 = b[i + 1];
        let b2 = b[i + 2];
        if !(0x80 <= b1 && b1 <= 0xbf) || !(0x80 <= b2 && b2 <= 0xbf) {
            return None;
        }
        let cp = (((b0 & 0x0F) as u32) << 12) | (((b1 & 0x3f) as u32) << 6) | ((b2 & 0x3f) as u32);
        assert(cp == codepoint_width_3(t[0], t[1], t[2]));
        assert(cp <= 0xffff) by (bit_vector) requires cp == (((b0 & 0x0F) as u32) << 12) | (((b1 & 0x3f) as u32) << 6) | ((b2 & 0x3f) as u32);
        if cp < 0x800 || (0xD800 <= cp && cp <= 0xDFFF) {
            return None;
        }
        return Some((cp, 3));
    }
    if 0xf0 <= b0 && b0 <= 0xf7 {
        if n < 4 {
            return None;
        }
        let b1 = b[i + 1];
        let b2 = b[i + 2];
        let b3 = b[i + 3];
        if !(0x80 <= b1 && b1 <= 0xbf) || !(0x80 <= b2 && b2 <= 0xbf) || !(0x80 <= b3 && b3 <= 0xbf) {
            return None;
        }
        let cp = (((b0 & 0x07) as u32) << 18) | (((b1 & 0x3f) as u32) << 12) | (((b2 & 0x3f) as u32) << 6) | ((b3 & 0x3f) as u32);
        assert(cp == codepoint_width_4(t[0], t[1], t[2], t[3]));
        if cp < 0x10000 || cp > 0x10ffff {
            return None;
        }
        return Some((cp, 4));
    }
    None
}

/// Decodes `b` as UTF-8: `Some` of its characters exactly when `b` is valid
/// UTF-8.
pub fn decode_utf8_strict(b: &[u8]) -> (r: Option<Vec<char>>)
    ensures
        r is Some <==> valid_utf8(b@),
        r matches Some(v) ==> v@ == decode_utf8(b@),
{
    let mut out: Vec<char> = Vec::new();
    let mut i: usize = 0;
    assert(b@.skip(0) =~= b@);
    while i < b.len()
        invariant
            i <= b@.len(),
            valid_utf8(b@) == valid_utf8(b@.skip(i as int)),
            valid_utf8(b@) ==> decode_utf8(b@) == out@ + decode_utf8(b@.skip(i as int)),
        decreases b@.len() - i,
    {
        let ghost t = b@.skip(i as int);
        match first_scalar(b, i) {
            None => {
                return None;
            },
            Some((cp, len)) => {
                let c = char_from_scalar(cp);
                assert(pop_first_scalar(t) =~= b@.skip(i + len));
                assert(c == cp as char);
                out.push(c);
                i = i + len;
            },
        }
    }
    assert(b@.skip(b@.len() as int) =~= Seq::<u8>::empty());
    assert(out@ + Seq::<char>::empty() =~= out@);
    Some(out)
}

} // verus!

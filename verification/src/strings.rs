//! Helpers that build `String`s from character sequences and format numbers
//! in decimal and hexadecimal.
use vstd::prelude::*;
use vstd::utf8::{valid_utf8, decode_utf8};

verus! {

/// The characters of `s`.
pub fn str_chars(s: &str) -> (v: Vec<char>)
    ensures
        v@ == s@,
{
    let mut v: Vec<char> = Vec::new();
    for c in it: s.chars()
        invariant
            v@ == it.seq().take(it.index() as int),
    {
        v.push(c);
    }
    v
}

/// Collects characters into a `String` (`FromIterator<char>` of std).
#[verifier::external_body]
pub(crate) fn string_from_chars(v: &[char]) -> (s: String)
    ensures
        s@ == v@,
{
    v.iter().collect()
}

/// Appends the characters of `s` to `out`.
pub fn push_str(out: &mut Vec<char>, s: &str)
    ensures
        final(out)@ == old(out)@ + s@,
{
    let cs = str_chars(s);
    let mut i: usize = 0;
    while i < cs.len()
        invariant
            i <= cs@.len(),
            cs@ == s@,
            out@ == old(out)@ + cs@.take(i as int),
        decreases cs@.len() - i,
    {
        assert(cs@.take(i + 1) =~= cs@.take(i as int).push(cs@[i as int]));
        out.push(cs[i]);
        i = i + 1;
    }
    assert(cs@.take(cs@.len() as int) =~= cs@);
}

/// Appends all of `s` to `out`.
pub fn push_chars(out: &mut Vec<char>, s: &[char])
    ensures
        final(out)@ == old(out)@ + s@,
{
    let mut i: usize = 0;
    while i < s.len()
        invariant
            i <= s@.len(),
            out@ == old(out)@ + s@.take(i as int),
        decreases s@.len() - i,
    {
        assert(s@.take(i + 1) =~= s@.take(i as int).push(s@[i as int]));
        out.push(s[i]);
        i = i + 1;
    }
    assert(s@.take(s@.len() as int) =~= s@);
}

/// Whether `a` and `b` hold the same characters.
pub fn chars_eq(a: &[char], b: &[char]) -> (r: bool)
    ensures
        r == (a@ == b@),
{
    if a.len() != b.len() {
        return false;
    }
    let mut i: usize = 0;
    while i < a.len()
        invariant
            a@.len() == b@.len(),
            i <= a@.len(),
            forall|k: int| 0 <= k < i ==> a@[k] == b@[k],
        decreases a@.len() - i,
    {
        if a[i] != b[i] {
            return false;
        }
        i = i + 1;
    }
    assert(a@ =~= b@);
    true
}

/// A copy of `v[from..to]`.
pub fn copy_range(v: &[char], from: usize, to: usize) -> (r: Vec<char>)
    requires
        from <= to <= v@.len(),
    ensures
        r@ == v@.subrange(from as int, to as int),
{
    let mut r: Vec<char> = Vec::new();
    let mut i: usize = from;
    while i < to
        invariant
            from <= i <= to <= v@.len(),
            r@ == v@.subrange(from as int, i as int),
        decreases to - i,
    {
        r.push(v[i]);
        i = i + 1;
        assert(r@ =~= v@.subrange(from as int, i as int));
    }
    r
}

/// The decimal digit character of `d` (0..=9).
pub open spec fn digit_char(d: nat) -> char {
    (d + 48) as char
}

/// The lower-case hexadecimal digit character of `d` (0..=15).
pub open spec fn hex_char(d: nat) -> char {
    if d < 10 {
        (d + 48) as char
    } else {
        (d + 87) as char
    }
}

/// Decimal notation of `n` without leading zeros ("0" for zero).
pub open spec fn dec_digits(n: nat) -> Seq<char>
    decreases n,
{
    if n < 10 {
        seq![digit_char(n)]
    } else {
        dec_digits(n / 10).push(digit_char(n % 10))
    }
}

/// Lower-case hexadecimal notation of `n` without leading zeros ("0" for zero).
pub open spec fn hex_digits(n: nat) -> Seq<char>
    decreases n,
{
    if n < 16 {
        seq![hex_char(n)]
    } else {
        hex_digits(n / 16).push(hex_char(n % 16))
    }
}

/// Two lower-case hexadecimal digits of a byte.
pub open spec fn hex2(b: u8) -> Seq<char> {
    seq![hex_char((b / 16) as nat), hex_char((b % 16) as nat)]
}

/// Appends the decimal notation of `n`.
pub fn push_decimal(out: &mut Vec<char>, n: u64)
    ensures
        final(out)@ == old(out)@ + dec_digits(n as nat),
    decreases n,
{
    if n >= 10 {
        push_decimal(out, n / 10);
    }
    let d: u8 = (n % 10) as u8;
    out.push((d + 48) as char);
}

/// Appends the lower-case hexadecimal notation of `n`.
pub fn push_hex(out: &mut Vec<char>, n: u64)
    ensures
        final(out)@ == old(out)@ + hex_digits(n as nat),
    decreases n,
{
    if n >= 16 {
        push_hex(out, n / 16);
    }
    let d: u8 = (n % 16) as u8;
    out.push(if d < 10 { (d + 48) as char } else { (d + 87) as char });
}

/// Appends two hexadecimal digits of `b`.
pub fn push_hex2(out: &mut Vec<char>, b: u8)
    ensures
        final(out)@ == old(out)@ + hex2(b),
{
    let hi: u8 = b / 16;
    let lo: u8 = b % 16;
    out.push(if hi < 10 { (hi + 48) as char } else { (hi + 87) as char });
    out.push(if lo < 10 { (lo + 48) as char } else { (lo + 87) as char });
}

/// Decimal notation of `n` as a `String`.
pub fn decimal_string(n: u64) -> (s: String)
    ensures
        s@ == dec_digits(n as nat),
{
    let mut v: Vec<char> = Vec::new();
    push_decimal(&mut v, n);
    string_from_chars(v.as_slice())
}

/// The characters that `String::from_utf8_lossy` of std decodes from `bytes`
/// (each invalid sequence becomes U+FFFD).
pub uninterp spec fn utf8_lossy(bytes: Seq<u8>) -> Seq<char>;

/// Text decoded from `bytes`: the UTF-8 decoding when valid, otherwise what
/// the lossy decoding of std gives.
pub open spec fn lossy_text(bytes: Seq<u8>) -> Seq<char> {
    if valid_utf8(bytes) {
        decode_utf8(bytes)
    } else {
        utf8_lossy(bytes)
    }
}

/// Decodes `bytes` as UTF-8, replacing invalid sequences
/// (`String::from_utf8_lossy` of std). Claimed: the result is named
/// `utf8_lossy` of the bytes, and for valid UTF-8 it is the decoded text, as
/// std documents (the input is returned unchanged).
#[verifier::external_body]
pub(crate) fn lossy_utf8(bytes: &[u8]) -> (s: String)
    ensures
        s@ == utf8_lossy(bytes@),
        valid_utf8(bytes@) ==> s@ == decode_utf8(bytes@),
        s@ == lossy_text(bytes@),
{
    String::from_utf8_lossy(bytes).into_owned()
}

} // verus!

//! Character classes and case mapping of std, which the text rules rely on:
//! whitespace is stated here, the others are std's.
use vstd::prelude::*;

verus! {

/// Whether `c` has the Unicode White_Space property, which std's
/// `char::is_whitespace` tests: U+0009 to U+000D, U+0020, U+0085, U+00A0,
/// U+1680, U+2000 to U+200A, U+2028, U+2029, U+202F, U+205F and U+3000.
pub open spec fn white_space(c: char) -> bool {
    let v = c as u32;
    ||| 0x09 <= v <= 0x0D
    ||| v == 0x20 || v == 0x85 || v == 0xA0 || v == 0x1680
    ||| 0x2000 <= v <= 0x200A
    ||| v == 0x2028 || v == 0x2029 || v == 0x202F || v == 0x205F || v == 0x3000
}

/// Whether std's `char::is_alphanumeric` holds of `c` (Alphabetic or Numeric).
pub uninterp spec fn alphanumeric(c: char) -> bool;

/// The characters that std's `char::to_uppercase` yields for `c`.
pub uninterp spec fn uppercase(c: char) -> Seq<char>;

/// Whether `c` is whitespace, as std's `char::is_whitespace` decides (see
/// `white_space`).
pub(crate) fn char_is_whitespace(c: char) -> (b: bool)
    ensures
        b == white_space(c),
        (c == ' ' || c == '\t' || c == '\n' || c == '\r' || c == '\u{3000}') ==> b,
{
    let v = c as u32;
    (0x09 <= v && v <= 0x0D) || v == 0x20 || v == 0x85 || v == 0xA0 || v == 0x1680
        || (0x2000 <= v && v <= 0x200A) || v == 0x2028 || v == 0x2029 || v == 0x202F || v == 0x205F
        || v == 0x3000
}

/// `char::is_alphanumeric` of std. Claimed: the result is named
/// `alphanumeric` of `c`.
#[verifier::external_body]
pub(crate) fn char_is_alphanumeric(c: char) -> (b: bool)
    ensures
        b == alphanumeric(c),
{
    c.is_alphanumeric()
}

/// `char::to_uppercase` of std, collected into a `String`. Claimed: the
/// characters are named `uppercase` of `c`, and there is at least one (std
/// documents "one or more chars").
#[verifier::external_body]
pub(crate) fn char_to_uppercase(c: char) -> (s: String)
    ensures
        s@ == uppercase(c),
        s@.len() >= 1,
{
    c.to_uppercase().collect()
}

} // verus!

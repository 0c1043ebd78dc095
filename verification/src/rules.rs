//! The built-in stop words: tags often found in titles of songs taken from
//! video sites, meaningless on the player's small screen.
use vstd::prelude::*;
use crate::strings::{str_chars, chars_eq};

verus! {

/// Built-in stop words: audio quality tags (Hi-Res, lossless, FLAC, ...),
/// video specs (4K, 1080P, HDR, 60FPS, ...), kinds of work (original, remix,
/// cover, MV, PV), sources (bilibili) and one user's example. Matching is
/// case-sensitive, so spelling variants are listed one by one.
pub const BUILTIN_STOP_WORDS: &'static [&'static str; 43] = &[
    "Hi-Res",
    "Hi-res",
    "HiRes",
    "Hires",
    "hires",
    "无损",
    "FLAC",
    "flac",
    "APE",
    "ape",
    "SQ",
    "HQ",
    "Lossless",
    "lossless",
    "4K",
    "8K",
    "2K",
    "1080P",
    "1080p",
    "720P",
    "720p",
    "高清",
    "HDR",
    "hdr",
    "60FPS",
    "60fps",
    "30FPS",
    "30fps",
    "原创",
    "remix",
    "Remix",
    "REMIX",
    "cover",
    "Cover",
    "COVER",
    "MV",
    "PV",
    "mv",
    "pv",
    "bilibili",
    "B站",
    "哔哩哔哩",
    "在百万级播音室大声听",
];

/// Whether `w` is one of the built-in stop words.
pub open spec fn spec_is_builtin_stop_word(w: Seq<char>) -> bool {
    exists|i: int| 0 <= i < BUILTIN_STOP_WORDS@.len() && (#[trigger] BUILTIN_STOP_WORDS@[i])@ == w
}

/// Whether `word` is a built-in stop word (case-sensitive).
pub fn is_builtin_stop_word(word: &str) -> (b: bool)
    ensures
        b == spec_is_builtin_stop_word(word@),
{
    let w = str_chars(word);
    let mut i: usize = 0;
    while i < BUILTIN_STOP_WORDS.len()
        invariant
            i <= BUILTIN_STOP_WORDS@.len(),
            w@ == word@,
            forall|k: int| 0 <= k < i ==> (#[trigger] BUILTIN_STOP_WORDS@[k])@ != word@,
        decreases BUILTIN_STOP_WORDS@.len() - i,
    {
        let cand = str_chars(BUILTIN_STOP_WORDS[i]);
        if chars_eq(cand.as_slice(), w.as_slice()) {
            return true;
        }
        i = i + 1;
    }
    false
}

} // verus!

//! Title slugs: Chinese characters become pinyin and kana become romaji, so
//! that titles are readable on the player's limited character set.
use vstd::prelude::*;
use pinyin::ToPinyin;
use crate::strings::{str_chars, string_from_chars, push_str, push_chars};
use crate::chars::{white_space, alphanumeric, uppercase, char_is_whitespace, char_is_alphanumeric, char_to_uppercase};
use crate::kana::{spec_is_kana, spec_kana_syllables, spec_kana_to_romaji, is_kana, kana_syllables, kana_to_romaji, string_views};

verus! {

/// The plain (toneless) pinyin that the `pinyin` crate gives `c`, `None` for
/// a character it has no reading for.
pub uninterp spec fn pinyin_plain(c: char) -> Option<Seq<char>>;

/// `ToPinyin::to_pinyin` of the `pinyin` crate on a `char`, then
/// `Pinyin::plain` (which reads the plain spelling out of the entry found).
/// Claimed: the result is named `pinyin_plain` of `c`.
#[verifier::external_body]
fn char_pinyin(c: char) -> (r: Option<&'static str>)
    ensures
        match r {
            Some(s) => pinyin_plain(c) == Some(s@),
            None => pinyin_plain(c) is None,
        },
{
    match c.to_pinyin() {
        Some(p) => Some(p.plain()),
        None => None,
    }
}

/// Options of `to_slug`.
#[derive(Debug, Clone)]
pub struct SlugOptions {
    /// Keep punctuation; when false, only letters, digits and whitespace stay.
    pub keep_punctuation: bool,
    /// The separator between the words of a Chinese or kana run.
    pub separator: char,
    /// Upper-case the first letter of each word.
    pub capitalize: bool,
}

impl Default for SlugOptions {
    fn default() -> (r: Self)
        ensures
            r.keep_punctuation,
            r.separator == '-',
            r.capitalize,
    {
        SlugOptions { keep_punctuation: true, separator: '-', capitalize: true }
    }
}

/// A character that `to_slug` converts: one with a pinyin reading, or a kana.
pub open spec fn is_cjk(c: char) -> bool {
    pinyin_plain(c) is Some || spec_is_kana(c)
}

/// The parts joined with `sep` between each two.
pub open spec fn join(parts: Seq<Seq<char>>, sep: char) -> Seq<char>
    decreases parts.len(),
{
    if parts.len() == 0 {
        Seq::empty()
    } else if parts.len() == 1 {
        parts[0]
    } else {
        join(parts.drop_last(), sep).push(sep) + parts.last()
    }
}

/// `s` with its first character upper-cased when `cap` holds.
pub open spec fn capitalize(s: Seq<char>, cap: bool) -> Seq<char> {
    if cap && s.len() > 0 {
        uppercase(s[0]) + s.drop_first()
    } else {
        s
    }
}

/// The pinyin of each character of `s` that has one, in order.
pub open spec fn pinyin_words(s: Seq<char>, cap: bool) -> Seq<Seq<char>>
    decreases s.len(),
{
    if s.len() == 0 {
        Seq::empty()
    } else {
        let w = pinyin_words(s.drop_last(), cap);
        match pinyin_plain(s.last()) {
            Some(p) => w.push(capitalize(p, cap)),
            None => w,
        }
    }
}

/// A run of Chinese characters as pinyin words joined by the separator.
pub open spec fn chinese_part(s: Seq<char>, o: SlugOptions) -> Seq<char> {
    join(pinyin_words(s, o.capitalize), o.separator)
}

/// A run of kana as the romaji of each syllable joined by the separator.
pub open spec fn kana_part(s: Seq<char>, o: SlugOptions) -> Seq<char> {
    join(
        spec_kana_syllables(s).map_values(|y: Seq<char>| capitalize(spec_kana_to_romaji(y), o.capitalize)),
        o.separator,
    )
}

/// `parts` with the pending runs of Chinese (`cb`) and kana (`kb`) added.
pub open spec fn close_runs(parts: Seq<Seq<char>>, cb: Seq<char>, kb: Seq<char>, o: SlugOptions) -> Seq<Seq<char>> {
    let p1 = if cb.len() > 0 { parts.push(chinese_part(cb, o)) } else { parts };
    if kb.len() > 0 { p1.push(kana_part(kb, o)) } else { p1 }
}

/// The parts of `s[i..]`: each maximal run of Chinese characters or of kana
/// is one part, any other character a part of its own.
pub open spec fn cjk_parts_from(
    s: Seq<char>,
    i: int,
    parts: Seq<Seq<char>>,
    cb: Seq<char>,
    kb: Seq<char>,
    o: SlugOptions,
) -> Seq<Seq<char>>
    decreases s.len() - i,
{
    if i < 0 || i >= s.len() {
        close_runs(parts, cb, kb, o)
    } else {
        let ch = s[i];
        if pinyin_plain(ch) is Some {
            let p = if kb.len() > 0 { parts.push(kana_part(kb, o)) } else { parts };
            cjk_parts_from(s, i + 1, p, cb.push(ch), Seq::empty(), o)
        } else if spec_is_kana(ch) {
            let p = if cb.len() > 0 { parts.push(chinese_part(cb, o)) } else { parts };
            cjk_parts_from(s, i + 1, p, Seq::empty(), kb.push(ch), o)
        } else {
            cjk_parts_from(s, i + 1, close_runs(parts, cb, kb, o).push(seq![ch]), Seq::empty(), Seq::empty(), o)
        }
    }
}

/// The opening brackets after which no space is put before a converted run.
pub open spec fn is_opening_bracket(c: char) -> bool {
    c == '【' || c == '[' || c == '(' || c == '（' || c == '「' || c == '『' || c == '<' || c == '〈'
        || c == '〔' || c == '〖'
}

/// A converted run gets a space before it, unless the text so far is empty
/// or ends in a space or an opening bracket.
pub open spec fn needs_space(res: Seq<char>) -> bool {
    res.len() > 0 && res.last() != ' ' && !is_opening_bracket(res.last())
}

/// `res` with the run `cjk` converted and appended.
pub open spec fn flush_output(res: Seq<char>, cjk: Seq<char>, o: SlugOptions) -> Seq<char> {
    let r1 = if needs_space(res) { res.push(' ') } else { res };
    r1 + join(cjk_parts_from(cjk, 0, Seq::empty(), Seq::empty(), Seq::empty(), o), o.separator)
}

/// Full-width ASCII (U+FF01 to U+FF5E) becomes ASCII, the ideographic space a
/// space; other characters stay.
pub open spec fn halfwidth(c: char) -> char {
    if c == '\u{3000}' {
        ' '
    } else if 0xFF01 <= (c as u32) <= 0xFF5E {
        ((c as u32) - 0xFEE0) as char
    } else {
        c
    }
}

/// Whether a character that is not converted is kept.
pub open spec fn kept(c: char, o: SlugOptions) -> bool {
    o.keep_punctuation || alphanumeric(c) || white_space(c)
}

/// The slug of `cs[i..]` appended to `res`, with `buf` the pending run of
/// characters to convert.
pub open spec fn slug_from(cs: Seq<char>, i: int, res: Seq<char>, buf: Seq<char>, o: SlugOptions) -> Seq<char>
    decreases cs.len() - i,
{
    if i < 0 || i >= cs.len() {
        if buf.len() > 0 { flush_output(res, buf, o) } else { res }
    } else {
        let ch = cs[i];
        if is_cjk(ch) {
            slug_from(cs, i + 1, res, buf.push(ch), o)
        } else {
            let r1 = if buf.len() > 0 { flush_output(res, buf, o) } else { res };
            let h = halfwidth(ch);
            slug_from(cs, i + 1, if kept(h, o) { r1.push(h) } else { r1 }, Seq::empty(), o)
        }
    }
}

/// The slug of a text.
pub open spec fn spec_to_slug(cs: Seq<char>, o: SlugOptions) -> Seq<char> {
    slug_from(cs, 0, Seq::empty(), Seq::empty(), o)
}

/// Appends the parts joined by `sep`.
fn push_joined(out: &mut Vec<char>, parts: &Vec<Vec<char>>, sep: char)
    ensures
        final(out)@ == old(out)@ + join(parts@.map_values(|v: Vec<char>| v@), sep),
{
    let ghost ps = parts@.map_values(|v: Vec<char>| v@);
    let mut k: usize = 0;
    while k < parts.len()
        invariant
            k <= parts@.len(),
            ps == parts@.map_values(|v: Vec<char>| v@),
            out@ == old(out)@ + join(ps.take(k as int), sep),
        decreases parts@.len() - k,
    {
        let ghost before = out@;
        assert(ps.take(k + 1).drop_last() =~= ps.take(k as int));
        if k > 0 {
            out.push(sep);
        }
        push_chars(out, parts[k].as_slice());
        if k == 0 {
            assert(ps.take(1) =~= seq![ps[0]]);
            assert(out@ =~= old(out)@ + join(ps.take(1), sep));
        } else {
            assert(out@ =~= old(out)@ + join(ps.take(k + 1), sep));
        }
        k = k + 1;
    }
    assert(ps.take(parts@.len() as int) =~= ps);
}

/// `s` with its first character upper-cased when `cap` holds.
fn capitalize_first(s: &[char], cap: bool) -> (r: Vec<char>)
    ensures
        r@ == capitalize(s@, cap),
{
    let mut r: Vec<char> = Vec::new();
    if cap && s.len() > 0 {
        let up = char_to_uppercase(s[0]);
        push_str(&mut r, up.as_str());
        let mut i: usize = 1;
        while i < s.len()
            invariant
                1 <= i <= s@.len(),
                r@ == uppercase(s@[0]) + s@.subrange(1, i as int),
            decreases s@.len() - i,
        {
            r.push(s[i]);
            i = i + 1;
            assert(r@ =~= uppercase(s@[0]) + s@.subrange(1, i as int));
        }
        assert(s@.subrange(1, s@.len() as int) =~= s@.drop_first());
    } else {
        push_chars(&mut r, s);
    }
    r
}

fn convert_chinese_part(cb: &Vec<char>, o: &SlugOptions) -> (r: Vec<char>)
    ensures
        r@ == chinese_part(cb@, *o),
{
    let mut words: Vec<Vec<char>> = Vec::new();
    let mut i: usize = 0;
    while i < cb.len()
        invariant
            i <= cb@.len(),
            words@.map_values(|v: Vec<char>| v@) == pinyin_words(cb@.take(i as int), o.capitalize),
        decreases cb@.len() - i,
    {
        let ghost before = words@.map_values(|v: Vec<char>| v@);
        assert(cb@.take(i + 1).drop_last() =~= cb@.take(i as int));
        match char_pinyin(cb[i]) {
            Some(p) => {
                let pc = str_chars(p);
                let w = capitalize_first(pc.as_slice(), o.capitalize);
                words.push(w);
                assert(words@.map_values(|v: Vec<char>| v@) =~= before.push(capitalize(p@, o.capitalize)));
            },
            None => {},
        }
        i = i + 1;
    }
    assert(cb@.take(cb@.len() as int) =~= cb@);
    let mut r: Vec<char> = Vec::new();
    push_joined(&mut r, &words, o.separator);
    assert(r@ =~= chinese_part(cb@, *o));
    r
}

fn convert_kana_part(kb: &Vec<char>, o: &SlugOptions) -> (r: Vec<char>)
    ensures
        r@ == kana_part(kb@, *o),
{
    let s = string_from_chars(kb.as_slice());
    let syls = kana_syllables(s.as_str());
    let ghost target = spec_kana_syllables(kb@).map_values(
        |y: Seq<char>| capitalize(spec_kana_to_romaji(y), o.capitalize),
    );
    let mut words: Vec<Vec<char>> = Vec::new();
    let mut k: usize = 0;
    while k < syls.len()
        invariant
            k <= syls@.len(),
            string_views(syls@) == spec_kana_syllables(kb@),
            target == spec_kana_syllables(kb@).map_values(
                |y: Seq<char>| capitalize(spec_kana_to_romaji(y), o.capitalize),
            ),
            words@.len() == k,
            forall|j: int| 0 <= j < k ==> (#[trigger] words@[j])@ == target[j],
        decreases syls@.len() - k,
    {
        let romaji = kana_to_romaji(syls[k].as_str());
        let rc = str_chars(romaji.as_str());
        let w = capitalize_first(rc.as_slice(), o.capitalize);
        assert(syls@[k as int]@ == string_views(syls@)[k as int]);
        words.push(w);
        k = k + 1;
    }
    assert(words@.map_values(|v: Vec<char>| v@) =~= target);
    let mut r: Vec<char> = Vec::new();
    push_joined(&mut r, &words, o.separator);
    r
}

fn needs_space_before(res: &Vec<char>) -> (b: bool)
    ensures
        b == needs_space(res@),
{
    if res.len() == 0 {
        return false;
    }
    let c = res[res.len() - 1];
    if c == ' ' {
        return false;
    }
    !(c == '【' || c == '[' || c == '(' || c == '（' || c == '「' || c == '『' || c == '<' || c == '〈'
        || c == '〔' || c == '〖')
}

fn flush_cjk(result: &mut Vec<char>, cjk: &Vec<char>, o: &SlugOptions)
    ensures
        final(result)@ == flush_output(old(result)@, cjk@, *o),
{
    if needs_space_before(result) {
        result.push(' ');
    }
    let mut parts: Vec<Vec<char>> = Vec::new();
    let mut cb: Vec<char> = Vec::new();
    let mut kb: Vec<char> = Vec::new();
    let mut i: usize = 0;
    assert(parts@.map_values(|v: Vec<char>| v@) =~= Seq::<Seq<char>>::empty());
    while i < cjk.len()
        invariant
            i <= cjk@.len(),
            cjk_parts_from(cjk@, 0, Seq::empty(), Seq::empty(), Seq::empty(), *o) == cjk_parts_from(
                cjk@,
                i as int,
                parts@.map_values(|v: Vec<char>| v@),
                cb@,
                kb@,
                *o,
            ),
        decreases cjk@.len() - i,
    {
        let ghost before = parts@.map_values(|v: Vec<char>| v@);
        let ch = cjk[i];
        if char_pinyin(ch).is_some() {
            if kb.len() > 0 {
                let part = convert_kana_part(&kb, o);
                parts.push(part);
                assert(parts@.map_values(|v: Vec<char>| v@) =~= before.push(kana_part(kb@, *o)));
                kb = Vec::new();
            }
            assert(kb@ =~= Seq::<char>::empty());
            cb.push(ch);
        } else if is_kana(ch) {
            if cb.len() > 0 {
                let part = convert_chinese_part(&cb, o);
                parts.push(part);
                assert(parts@.map_values(|v: Vec<char>| v@) =~= before.push(chinese_part(cb@, *o)));
                cb = Vec::new();
            }
            assert(cb@ =~= Seq::<char>::empty());
            kb.push(ch);
        } else {
            let ghost b1 = if cb@.len() > 0 { before.push(chinese_part(cb@, *o)) } else { before };
            if cb.len() > 0 {
                let part = convert_chinese_part(&cb, o);
                parts.push(part);
                cb = Vec::new();
            }
            assert(parts@.map_values(|v: Vec<char>| v@) =~= b1);
            let ghost b2 = if kb@.len() > 0 { b1.push(kana_part(kb@, *o)) } else { b1 };
            if kb.len() > 0 {
                let part = convert_kana_part(&kb, o);
                parts.push(part);
                kb = Vec::new();
            }
            assert(parts@.map_values(|v: Vec<char>| v@) =~= b2);
            let mut one: Vec<char> = Vec::new();
            one.push(ch);
            parts.push(one);
            assert(parts@.map_values(|v: Vec<char>| v@) =~= b2.push(seq![ch]));
            assert(cb@ =~= Seq::<char>::empty());
            assert(kb@ =~= Seq::<char>::empty());
        }
        i = i + 1;
    }
    let ghost before = parts@.map_values(|v: Vec<char>| v@);
    let ghost b1 = if cb@.len() > 0 { before.push(chinese_part(cb@, *o)) } else { before };
    if cb.len() > 0 {
        let part = convert_chinese_part(&cb, o);
        parts.push(part);
    }
    assert(parts@.map_values(|v: Vec<char>| v@) =~= b1);
    let ghost b2 = if kb@.len() > 0 { b1.push(kana_part(kb@, *o)) } else { b1 };
    if kb.len() > 0 {
        let part = convert_kana_part(&kb, o);
        parts.push(part);
    }
    assert(parts@.map_values(|v: Vec<char>| v@) =~= b2);
    push_joined(result, &parts, o.separator);
}

/// Full-width ASCII to ASCII and the ideographic space to a space.
fn fullwidth_to_halfwidth(c: char) -> (r: char)
    ensures
        r == halfwidth(c),
{
    if c == '\u{3000}' {
        return ' ';
    }
    let v: u32 = c as u32;
    if 0xFF01 <= v && v <= 0xFF5E {
        let b: u8 = (v - 0xFEE0) as u8;
        return b as char;
    }
    c
}

/// Converts the Chinese characters of `input` to pinyin and its kana to
/// romaji. A run of converted characters becomes its words joined by the
/// separator (each capitalized if asked), with a space before it unless it
/// follows a space, an opening bracket or nothing. Full-width ASCII becomes
/// ASCII; other characters are kept, or, without `keep_punctuation`, only
/// letters, digits and whitespace.
pub fn to_slug(input: &str, opts: &SlugOptions) -> (s: String)
    ensures
        s@ == spec_to_slug(input@, *opts),
{
    let cs = str_chars(input);
    let mut result: Vec<char> = Vec::new();
    let mut buf: Vec<char> = Vec::new();
    let mut i: usize = 0;
    while i < cs.len()
        invariant
            cs@ == input@,
            i <= cs@.len(),
            spec_to_slug(cs@, *opts) == slug_from(cs@, i as int, result@, buf@, *opts),
        decreases cs@.len() - i,
    {
        let ch = cs[i];
        if char_pinyin(ch).is_some() || is_kana(ch) {
            buf.push(ch);
        } else {
            if buf.len() > 0 {
                flush_cjk(&mut result, &buf, opts);
                buf = Vec::new();
            }
            assert(buf@ =~= Seq::<char>::empty());
            let h = fullwidth_to_halfwidth(ch);
            if opts.keep_punctuation || char_is_alphanumeric(h) || char_is_whitespace(h) {
                result.push(h);
            }
        }
        i = i + 1;
    }
    if buf.len() > 0 {
        flush_cjk(&mut result, &buf, opts);
    }
    string_from_chars(result.as_slice())
}

proof fn lemma_slug_plain_from(cs: Seq<char>, i: int, o: SlugOptions)
    requires
        0 <= i <= cs.len(),
        o.keep_punctuation,
        forall|k: int| 0 <= k < cs.len() ==> !is_cjk(#[trigger] cs[k]) && halfwidth(cs[k]) == cs[k],
    ensures
        slug_from(cs, i, cs.take(i), Seq::empty(), o) == cs,
    decreases cs.len() - i,
{
    if i < cs.len() {
        assert(!is_cjk(cs[i]) && halfwidth(cs[i]) == cs[i]);
        assert(cs.take(i).push(cs[i]) =~= cs.take(i + 1));
        lemma_slug_plain_from(cs, i + 1, o);
    } else {
        assert(cs.take(i) =~= cs);
    }
}

/// Text without Chinese characters, kana, full-width ASCII or ideographic
/// spaces comes out unchanged when punctuation is kept.
pub proof fn law_slug_keeps_plain_text(cs: Seq<char>, o: SlugOptions)
    requires
        o.keep_punctuation,
        forall|k: int| 0 <= k < cs.len() ==> !is_cjk(#[trigger] cs[k]) && halfwidth(cs[k]) == cs[k],
    ensures
        spec_to_slug(cs, o) == cs,
{
    assert(cs.take(0) =~= Seq::<char>::empty());
    lemma_slug_plain_from(cs, 0, o);
}

} // verus!

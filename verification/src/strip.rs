//! Removal of noise from song titles: bracketed and quoted asides, quality
//! and source tags, and surplus whitespace. Rule-based: brackets first, then
//! quotes, then stop words, then whitespace is collapsed.
use vstd::prelude::*;
use vstd::utf8::encode_utf8;
use crate::strings::{str_chars, string_from_chars, copy_range, push_chars};
use crate::chars::{white_space, char_is_whitespace};
use crate::textops::{trim, contains_seq, replace_all, trim_chars, contains_chars, replace_chars};
use crate::rules::BUILTIN_STOP_WORDS;
use crate::kana::string_views;

verus! {

/// Options of `strip_noise`.
#[derive(Debug, Clone)]
pub struct StripOptions {
    /// Stop words removed besides the built-in ones.
    pub custom_stop_words: Vec<String>,
    /// Remove bracketed asides, brackets included.
    pub strip_parentheses: bool,
    /// Remove quoted asides, quotes included.
    pub strip_quotes: bool,
    /// Remove the built-in stop words (quality, format and source tags).
    pub strip_quality_tags: bool,
}

impl Default for StripOptions {
    fn default() -> (r: Self)
        ensures
            r.custom_stop_words@.len() == 0,
            r.strip_parentheses,
            r.strip_quotes,
            r.strip_quality_tags,
    {
        StripOptions {
            custom_stop_words: Vec::new(),
            strip_parentheses: true,
            strip_quotes: true,
            strip_quality_tags: true,
        }
    }
}

/// What `strip_noise` returns.
#[derive(Debug, Clone, PartialEq, Eq)]
pub struct StripResult {
    /// The cleaned title.
    pub cleaned: String,
    /// The pieces removed, in the order they were removed.
    pub removed: Vec<String>,
}

/// The brackets that open an aside.
pub open spec fn is_open_bracket(c: char) -> bool {
    c == '(' || c == '（' || c == '[' || c == '【' || c == '{' || c == '「' || c == '『' || c == '〈'
        || c == '〔' || c == '〖'
}

/// The brackets that close an aside.
pub open spec fn is_close_bracket(c: char) -> bool {
    c == ')' || c == '）' || c == ']' || c == '】' || c == '}' || c == '」' || c == '』' || c == '〉'
        || c == '〕' || c == '〗'
}

/// The quotes that open a quotation.
pub open spec fn is_open_quote(c: char) -> bool {
    c == '"' || c == '\u{201C}' || c == '\'' || c == '\u{2018}' || c == '「' || c == '『'
}

/// Whether `c` closes a quotation opened by `opening`.
pub open spec fn closes_quote(c: char, opening: char) -> bool {
    if opening == '"' {
        c == '"'
    } else if opening == '\u{201C}' {
        c == '\u{201D}'
    } else if opening == '\'' {
        c == '\''
    } else if opening == '\u{2018}' {
        c == '\u{2019}'
    } else if opening == '「' {
        c == '」'
    } else if opening == '『' {
        c == '』'
    } else {
        false
    }
}

/// `rem` with `c` added when it is not empty.
pub open spec fn push_nonempty(rem: Seq<Seq<char>>, c: Seq<char>) -> Seq<Seq<char>> {
    if c.len() > 0 {
        rem.push(c)
    } else {
        rem
    }
}

/// Bracket removal over `cs[i..]`. `res` is the text kept so far, `pend`
/// the text since the outermost open bracket (brackets included) and `stack`
/// the position in `pend` of each open bracket. A closing bracket drops the
/// innermost open aside and records its trimmed content; a closing bracket
/// with nothing open is kept; an aside left open is kept.
pub open spec fn parens_from(
    cs: Seq<char>,
    i: int,
    res: Seq<char>,
    rem: Seq<Seq<char>>,
    pend: Seq<char>,
    stack: Seq<usize>,
) -> (Seq<char>, Seq<Seq<char>>)
    decreases cs.len() - i,
{
    if i < 0 || i >= cs.len() {
        (res + pend, rem)
    } else {
        let ch = cs[i];
        let (pend1, stack1, rem1) = if is_open_bracket(ch) {
            (pend.push(ch), stack.push(pend.len() as usize), rem)
        } else if is_close_bracket(ch) && stack.len() > 0 {
            let p = stack.last() as int;
            (pend.take(p), stack.drop_last(), push_nonempty(rem, trim(pend.skip(p + 1))))
        } else {
            (pend.push(ch), stack, rem)
        };
        if stack1.len() == 0 && pend1.len() > 0 {
            parens_from(cs, i + 1, res + pend1, rem1, Seq::empty(), stack1)
        } else {
            parens_from(cs, i + 1, res, rem1, pend1, stack1)
        }
    }
}

/// The bracket stage: the text kept and the asides removed.
pub open spec fn strip_parens(cs: Seq<char>) -> (Seq<char>, Seq<Seq<char>>) {
    parens_from(cs, 0, Seq::empty(), Seq::empty(), Seq::empty(), Seq::empty())
}

/// Quote removal over `cs[i..]`; `inq` is the open quote, `buf` the text
/// after it. A closed quotation is dropped and its trimmed content recorded;
/// the text of one left open is kept (without its opening quote).
pub open spec fn quotes_from(
    cs: Seq<char>,
    i: int,
    res: Seq<char>,
    rem: Seq<Seq<char>>,
    buf: Seq<char>,
    inq: Option<char>,
) -> (Seq<char>, Seq<Seq<char>>)
    decreases cs.len() - i,
{
    if i < 0 || i >= cs.len() {
        (if inq is Some { res + buf } else { res }, rem)
    } else {
        let ch = cs[i];
        match inq {
            Some(op) => if closes_quote(ch, op) {
                quotes_from(cs, i + 1, res, push_nonempty(rem, trim(buf)), Seq::empty(), None)
            } else {
                quotes_from(cs, i + 1, res, rem, buf.push(ch), inq)
            },
            None => if is_open_quote(ch) {
                quotes_from(cs, i + 1, res, rem, Seq::empty(), Some(ch))
            } else {
                quotes_from(cs, i + 1, res.push(ch), rem, buf, None)
            },
        }
    }
}

/// The quote stage: the text kept and the quotations removed.
pub open spec fn strip_quotes(cs: Seq<char>) -> (Seq<char>, Seq<Seq<char>>) {
    quotes_from(cs, 0, Seq::empty(), Seq::empty(), Seq::empty(), None)
}

/// The length in UTF-8 bytes of a word (what `str::len` gives).
pub open spec fn byte_key(w: Seq<char>) -> usize {
    encode_utf8(w).len() as usize
}

/// `x` inserted into `s` before the first entry with a smaller key.
pub open spec fn insert_desc(x: (usize, Seq<char>), s: Seq<(usize, Seq<char>)>) -> Seq<(usize, Seq<char>)>
    decreases s.len(),
{
    if s.len() == 0 {
        seq![x]
    } else if s[0].0 >= x.0 {
        seq![s[0]] + insert_desc(x, s.drop_first())
    } else {
        seq![x] + s
    }
}

/// `s` stably sorted by key, largest first.
pub open spec fn sort_desc(s: Seq<(usize, Seq<char>)>) -> Seq<(usize, Seq<char>)>
    decreases s.len(),
{
    if s.len() == 0 {
        Seq::empty()
    } else {
        insert_desc(s.last(), sort_desc(s.drop_last()))
    }
}

/// The words stably sorted by UTF-8 length, longest first.
pub open spec fn by_length_desc(ws: Seq<Seq<char>>) -> Seq<Seq<char>> {
    sort_desc(ws.map_values(|w: Seq<char>| (byte_key(w), w))).map_values(|p: (usize, Seq<char>)| p.1)
}

/// Removal of each word of `ws`, in order, from `t`: a non-empty word that
/// occurs is recorded and each occurrence becomes a space.
pub open spec fn strip_words(t: Seq<char>, ws: Seq<Seq<char>>, rem: Seq<Seq<char>>) -> (Seq<char>, Seq<Seq<char>>)
    decreases ws.len(),
{
    if ws.len() == 0 {
        (t, rem)
    } else {
        let w = ws[0];
        if w.len() > 0 && contains_seq(t, w) {
            strip_words(replace_all(t, w, seq![' ']), ws.drop_first(), rem.push(w))
        } else {
            strip_words(t, ws.drop_first(), rem)
        }
    }
}

/// The built-in stop words.
pub open spec fn builtin_words() -> Seq<Seq<char>> {
    BUILTIN_STOP_WORDS@.map_values(|w: &'static str| w@)
}

/// The stop-word stage: the built-in words (when asked), then the custom
/// ones, each set longest first.
pub open spec fn strip_stop_words(t: Seq<char>, tags: bool, custom: Seq<Seq<char>>) -> (Seq<char>, Seq<Seq<char>>) {
    let builtin = if tags { by_length_desc(builtin_words()) } else { Seq::empty() };
    let (t1, r1) = strip_words(t, builtin, Seq::empty());
    strip_words(t1, by_length_desc(custom), r1)
}

/// Whitespace collapse over `cs[i..]`: each run of whitespace becomes one
/// space, none at the start; `prev` tells that the last output was such a space.
pub open spec fn collapse_from(cs: Seq<char>, i: int, out: Seq<char>, prev: bool) -> Seq<char>
    decreases cs.len() - i,
{
    if i < 0 || i >= cs.len() {
        if out.len() > 0 && out.last() == ' ' {
            out.drop_last()
        } else {
            out
        }
    } else if white_space(cs[i]) {
        if !prev && out.len() > 0 {
            collapse_from(cs, i + 1, out.push(' '), true)
        } else {
            collapse_from(cs, i + 1, out, prev)
        }
    } else {
        collapse_from(cs, i + 1, out.push(cs[i]), false)
    }
}

/// `cs` with whitespace runs collapsed and no whitespace at either end.
pub open spec fn collapse(cs: Seq<char>) -> Seq<char> {
    collapse_from(cs, 0, Seq::empty(), false)
}

/// The cleaned title and the removed pieces for the given options.
pub open spec fn spec_strip_noise(
    cs: Seq<char>,
    parens: bool,
    quotes: bool,
    tags: bool,
    custom: Seq<Seq<char>>,
) -> (Seq<char>, Seq<Seq<char>>) {
    let (s1, r1) = if parens { strip_parens(cs) } else { (cs, Seq::empty()) };
    let (s2, r2) = if quotes { strip_quotes(s1) } else { (s1, Seq::empty()) };
    let (s3, r3) = if tags || custom.len() > 0 {
        strip_stop_words(s2, tags, custom)
    } else {
        (s2, Seq::empty())
    };
    (collapse(s3), r1 + r2 + r3)
}

/// The views of a sequence of character vectors.
pub open spec fn vec_views(v: Seq<Vec<char>>) -> Seq<Seq<char>> {
    v.map_values(|x: Vec<char>| x@)
}

/// The views of keyed words.
pub open spec fn keyed_views(v: Seq<(usize, Vec<char>)>) -> Seq<(usize, Seq<char>)> {
    v.map_values(|x: (usize, Vec<char>)| (x.0, x.1@))
}

fn is_open_bracket_char(c: char) -> (b: bool)
    ensures
        b == is_open_bracket(c),
{
    c == '(' || c == '（' || c == '[' || c == '【' || c == '{' || c == '「' || c == '『' || c == '〈'
        || c == '〔' || c == '〖'
}

fn is_close_bracket_char(c: char) -> (b: bool)
    ensures
        b == is_close_bracket(c),
{
    c == ')' || c == '）' || c == ']' || c == '】' || c == '}' || c == '」' || c == '』' || c == '〉'
        || c == '〕' || c == '〗'
}

fn is_open_quote_char(c: char) -> (b: bool)
    ensures
        b == is_open_quote(c),
{
    c == '"' || c == '\u{201C}' || c == '\'' || c == '\u{2018}' || c == '「' || c == '『'
}

fn closes_quote_char(c: char, opening: char) -> (b: bool)
    ensures
        b == closes_quote(c, opening),
{
    if opening == '"' {
        c == '"'
    } else if opening == '\u{201C}' {
        c == '\u{201D}'
    } else if opening == '\'' {
        c == '\''
    } else if opening == '\u{2018}' {
        c == '\u{2019}'
    } else if opening == '「' {
        c == '」'
    } else if opening == '『' {
        c == '』'
    } else {
        false
    }
}

fn strip_parentheses_content(cs: &Vec<char>) -> (r: (Vec<char>, Vec<Vec<char>>))
    ensures
        r.0@ == strip_parens(cs@).0,
        vec_views(r.1@) == strip_parens(cs@).1,
{
    let mut result: Vec<char> = Vec::new();
    let mut removed: Vec<Vec<char>> = Vec::new();
    let mut pending: Vec<char> = Vec::new();
    let mut stack: Vec<usize> = Vec::new();
    let mut i: usize = 0;
    assert(vec_views(removed@) =~= Seq::<Seq<char>>::empty());
    while i < cs.len()
        invariant
            i <= cs@.len(),
            strip_parens(cs@) == parens_from(cs@, i as int, result@, vec_views(removed@), pending@, stack@),
            forall|k: int| 0 <= k < stack@.len() ==> stack@[k] < pending@.len(),
            forall|a: int, b: int| 0 <= a < b < stack@.len() ==> stack@[a] < stack@[b],
        decreases cs@.len() - i,
    {
        let ghost rem0 = vec_views(removed@);
        let ch = cs[i];
        if is_open_bracket_char(ch) {
            let n = pending.len();
            stack.push(n);
            pending.push(ch);
        } else if is_close_bracket_char(ch) && stack.len() > 0 {
            let open_pos = stack.pop().unwrap();
            assert(open_pos < pending.len());
            let content = copy_range(pending.as_slice(), open_pos + 1, pending.len());
            assert(content@ =~= pending@.skip(open_pos + 1));
            let t = trim_chars(content.as_slice());
            if t.len() > 0 {
                removed.push(t);
                assert(vec_views(removed@) =~= rem0.push(t@));
            }
            pending.truncate(open_pos);
        } else {
            pending.push(ch);
        }
        if stack.len() == 0 && pending.len() > 0 {
            push_chars(&mut result, pending.as_slice());
            pending = Vec::new();
        }
        i = i + 1;
    }
    push_chars(&mut result, pending.as_slice());
    (result, removed)
}

fn strip_quoted_content(cs: &Vec<char>) -> (r: (Vec<char>, Vec<Vec<char>>))
    ensures
        r.0@ == strip_quotes(cs@).0,
        vec_views(r.1@) == strip_quotes(cs@).1,
{
    let mut result: Vec<char> = Vec::new();
    let mut removed: Vec<Vec<char>> = Vec::new();
    let mut buf: Vec<char> = Vec::new();
    let mut in_quote: Option<char> = None;
    let mut i: usize = 0;
    assert(vec_views(removed@) =~= Seq::<Seq<char>>::empty());
    while i < cs.len()
        invariant
            i <= cs@.len(),
            strip_quotes(cs@) == quotes_from(cs@, i as int, result@, vec_views(removed@), buf@, in_quote),
        decreases cs@.len() - i,
    {
        let ghost rem0 = vec_views(removed@);
        let ch = cs[i];
        match in_quote {
            Some(opening) => {
                if closes_quote_char(ch, opening) {
                    let t = trim_chars(buf.as_slice());
                    if t.len() > 0 {
                        removed.push(t);
                        assert(vec_views(removed@) =~= rem0.push(t@));
                    }
                    buf = Vec::new();
                    in_quote = None;
                } else {
                    buf.push(ch);
                }
            },
            None => {
                if is_open_quote_char(ch) {
                    in_quote = Some(ch);
                    buf = Vec::new();
                } else {
                    result.push(ch);
                }
            },
        }
        i = i + 1;
    }
    if in_quote.is_some() {
        push_chars(&mut result, buf.as_slice());
    }
    (result, removed)
}

proof fn lemma_insert_desc_at(x: (usize, Seq<char>), s: Seq<(usize, Seq<char>)>, p: int)
    requires
        0 <= p <= s.len(),
        forall|k: int| 0 <= k < p ==> (#[trigger] s[k]).0 >= x.0,
        p == s.len() || s[p].0 < x.0,
    ensures
        insert_desc(x, s) == s.insert(p, x),
    decreases p,
{
    if p == 0 {
        if s.len() == 0 {
            assert(s.insert(0, x) =~= seq![x]);
        } else {
            assert(s.insert(0, x) =~= seq![x] + s);
        }
    } else {
        assert forall|k: int| 0 <= k < p - 1 implies (#[trigger] s.drop_first()[k]).0 >= x.0 by {
            assert(s.drop_first()[k] == s[k + 1]);
        }
        lemma_insert_desc_at(x, s.drop_first(), p - 1);
        assert(s[0].0 >= x.0);
        assert(seq![s[0]] + s.drop_first().insert(p - 1, x) =~= s.insert(p, x));
    }
}

/// Stable sort by key, largest first.
fn sort_keyed_desc(items: &Vec<(usize, Vec<char>)>) -> (r: Vec<(usize, Vec<char>)>)
    ensures
        keyed_views(r@) == sort_desc(keyed_views(items@)),
{
    let ghost all = keyed_views(items@);
    let mut sorted: Vec<(usize, Vec<char>)> = Vec::new();
    let mut k: usize = 0;
    assert(keyed_views(sorted@) =~= sort_desc(all.take(0)));
    while k < items.len()
        invariant
            k <= items@.len(),
            all == keyed_views(items@),
            keyed_views(sorted@) == sort_desc(all.take(k as int)),
        decreases items@.len() - k,
    {
        let ghost s0 = keyed_views(sorted@);
        let key = items[k].0;
        let word = copy_range(items[k].1.as_slice(), 0, items[k].1.len());
        assert(word@ =~= items@[k as int].1@);
        let mut p: usize = 0;
        while p < sorted.len() && sorted[p].0 >= key
            invariant
                p <= sorted@.len(),
                s0 == keyed_views(sorted@),
                forall|j: int| 0 <= j < p ==> (#[trigger] s0[j]).0 >= key,
            decreases sorted@.len() - p,
        {
            p = p + 1;
        }
        proof {
            lemma_insert_desc_at((key, word@), s0, p as int);
            assert(all.take(k + 1).drop_last() =~= all.take(k as int));
            assert(all.take(k + 1).last() == (key, word@));
        }
        sorted.insert(p, (key, word));
        assert(keyed_views(sorted@) =~= s0.insert(p as int, (key, word@)));
        k = k + 1;
    }
    assert(all.take(items@.len() as int) =~= all);
    sorted
}

/// The words of `ws` stably sorted by UTF-8 length, longest first.
fn words_by_length(ws: &Vec<(usize, Vec<char>)>) -> (r: Vec<Vec<char>>)
    requires
        forall|k: int| 0 <= k < ws@.len() ==> (#[trigger] ws@[k]).0 == byte_key(ws@[k].1@),
    ensures
        vec_views(r@) == by_length_desc(vec_views(ws@.map_values(|x: (usize, Vec<char>)| x.1))),
{
    let sorted = sort_keyed_desc(ws);
    assert(keyed_views(ws@) =~= vec_views(ws@.map_values(|x: (usize, Vec<char>)| x.1)).map_values(
        |w: Seq<char>| (byte_key(w), w),
    ));
    let mut r: Vec<Vec<char>> = Vec::new();
    let mut k: usize = 0;
    while k < sorted.len()
        invariant
            k <= sorted@.len(),
            r@.len() == k,
            forall|j: int| 0 <= j < k ==> (#[trigger] r@[j])@ == sorted@[j].1@,
        decreases sorted@.len() - k,
    {
        let w = copy_range(sorted[k].1.as_slice(), 0, sorted[k].1.len());
        assert(w@ =~= sorted@[k as int].1@);
        r.push(w);
        k = k + 1;
    }
    assert(vec_views(r@) =~= keyed_views(sorted@).map_values(|p: (usize, Seq<char>)| p.1));
    r
}

/// Removes each word of `ws` in order (see `strip_words`).
fn strip_words_exec(t: Vec<char>, ws: &Vec<Vec<char>>, removed: &mut Vec<Vec<char>>) -> (r: Vec<char>)
    ensures
        (r@, vec_views(final(removed)@)) == strip_words(t@, vec_views(ws@), vec_views(old(removed)@)),
{
    let mut cur = t;
    let mut k: usize = 0;
    let ghost all = vec_views(ws@);
    assert(all.skip(0) =~= all);
    while k < ws.len()
        invariant
            k <= ws@.len(),
            all == vec_views(ws@),
            strip_words(t@, all, vec_views(old(removed)@)) == strip_words(cur@, all.skip(k as int), vec_views(removed@)),
        decreases ws@.len() - k,
    {
        let ghost rem0 = vec_views(removed@);
        assert(all.skip(k as int)[0] == ws@[k as int]@);
        assert(all.skip(k as int).drop_first() =~= all.skip(k + 1));
        let w = &ws[k];
        if w.len() > 0 && contains_chars(cur.as_slice(), w.as_slice()) {
            let mut sp: Vec<char> = Vec::new();
            sp.push(' ');
            let next = replace_chars(cur.as_slice(), w.as_slice(), sp.as_slice());
            let wc = copy_range(w.as_slice(), 0, w.len());
            assert(wc@ =~= w@);
            removed.push(wc);
            assert(vec_views(removed@) =~= rem0.push(w@));
            assert(sp@ =~= seq![' ']);
            cur = next;
        }
        k = k + 1;
    }
    assert(all.skip(ws@.len() as int) =~= Seq::<Seq<char>>::empty());
    cur
}

fn collapse_whitespace(cs: &Vec<char>) -> (r: Vec<char>)
    ensures
        r@ == collapse(cs@),
{
    let mut out: Vec<char> = Vec::new();
    let mut prev: bool = false;
    let mut i: usize = 0;
    while i < cs.len()
        invariant
            i <= cs@.len(),
            collapse(cs@) == collapse_from(cs@, i as int, out@, prev),
        decreases cs@.len() - i,
    {
        let ch = cs[i];
        if char_is_whitespace(ch) {
            if !prev && out.len() > 0 {
                out.push(' ');
                prev = true;
            }
        } else {
            out.push(ch);
            prev = false;
        }
        i = i + 1;
    }
    if out.len() > 0 && out[out.len() - 1] == ' ' {
        out.pop();
    }
    out
}

fn builtin_keyed() -> (r: Vec<(usize, Vec<char>)>)
    ensures
        forall|k: int| 0 <= k < r@.len() ==> (#[trigger] r@[k]).0 == byte_key(r@[k].1@),
        vec_views(r@.map_values(|x: (usize, Vec<char>)| x.1)) == builtin_words(),
{
    let mut r: Vec<(usize, Vec<char>)> = Vec::new();
    let mut k: usize = 0;
    while k < BUILTIN_STOP_WORDS.len()
        invariant
            k <= BUILTIN_STOP_WORDS@.len(),
            r@.len() == k,
            forall|j: int| 0 <= j < k ==> (#[trigger] r@[j]).0 == byte_key(r@[j].1@),
            forall|j: int| 0 <= j < k ==> (#[trigger] r@[j]).1@ == BUILTIN_STOP_WORDS@[j]@,
        decreases BUILTIN_STOP_WORDS@.len() - k,
    {
        let w = BUILTIN_STOP_WORDS[k];
        r.push((w.len(), str_chars(w)));
        k = k + 1;
    }
    assert(vec_views(r@.map_values(|x: (usize, Vec<char>)| x.1)) =~= builtin_words());
    r
}

fn custom_keyed(custom: &Vec<String>) -> (r: Vec<(usize, Vec<char>)>)
    ensures
        forall|k: int| 0 <= k < r@.len() ==> (#[trigger] r@[k]).0 == byte_key(r@[k].1@),
        vec_views(r@.map_values(|x: (usize, Vec<char>)| x.1)) == string_views(custom@),
{
    let mut r: Vec<(usize, Vec<char>)> = Vec::new();
    let mut k: usize = 0;
    while k < custom.len()
        invariant
            k <= custom@.len(),
            r@.len() == k,
            forall|j: int| 0 <= j < k ==> (#[trigger] r@[j]).0 == byte_key(r@[j].1@),
            forall|j: int| 0 <= j < k ==> (#[trigger] r@[j]).1@ == custom@[j]@,
        decreases custom@.len() - k,
    {
        let w = custom[k].as_str();
        r.push((w.len(), str_chars(w)));
        k = k + 1;
    }
    assert(vec_views(r@.map_values(|x: (usize, Vec<char>)| x.1)) =~= string_views(custom@));
    r
}

fn strings_of(v: &Vec<Vec<char>>) -> (r: Vec<String>)
    ensures
        string_views(r@) == vec_views(v@),
{
    let mut r: Vec<String> = Vec::new();
    let mut k: usize = 0;
    while k < v.len()
        invariant
            k <= v@.len(),
            r@.len() == k,
            forall|j: int| 0 <= j < k ==> (#[trigger] r@[j])@ == v@[j]@,
        decreases v@.len() - k,
    {
        r.push(string_from_chars(v[k].as_slice()));
        k = k + 1;
    }
    assert(string_views(r@) =~= vec_views(v@));
    r
}

/// Cleans a song title: removes bracketed asides (an aside left open is
/// kept), quoted asides, the built-in and custom stop words (longest first,
/// each occurrence replaced by a space), then collapses whitespace. The
/// removed pieces are returned in the order they were removed.
pub fn strip_noise(input: &str, opts: &StripOptions) -> (r: StripResult)
    ensures
        (r.cleaned@, string_views(r.removed@)) == spec_strip_noise(
            input@,
            opts.strip_parentheses,
            opts.strip_quotes,
            opts.strip_quality_tags,
            string_views(opts.custom_stop_words@),
        ),
{
    let mut current = str_chars(input);
    let mut removed: Vec<Vec<char>> = Vec::new();
    let ghost cs = input@;
    let ghost custom = string_views(opts.custom_stop_words@);
    let ghost (s1, r1) = if opts.strip_parentheses { strip_parens(cs) } else { (cs, Seq::<Seq<char>>::empty()) };
    let ghost (s2, r2) = if opts.strip_quotes { strip_quotes(s1) } else { (s1, Seq::<Seq<char>>::empty()) };
    let ghost (s3, r3) = if opts.strip_quality_tags || custom.len() > 0 {
        strip_stop_words(s2, opts.strip_quality_tags, custom)
    } else {
        (s2, Seq::<Seq<char>>::empty())
    };
    assert(vec_views(removed@) =~= Seq::<Seq<char>>::empty());
    if opts.strip_parentheses {
        let (s, r) = strip_parentheses_content(&current);
        current = s;
        removed = r;
    }
    assert(current@ == s1 && vec_views(removed@) == r1);
    if opts.strip_quotes {
        let ghost before = vec_views(removed@);
        let (s, r) = strip_quoted_content(&current);
        current = s;
        let mut r2v = r;
        let ghost add = vec_views(r2v@);
        removed.append(&mut r2v);
        assert(vec_views(removed@) =~= before + add);
    }
    assert(current@ == s2 && vec_views(removed@) =~= r1 + r2);
    if opts.strip_quality_tags || opts.custom_stop_words.len() > 0 {
        let ghost before = vec_views(removed@);
        let mut stop_removed: Vec<Vec<char>> = Vec::new();
        let builtin: Vec<Vec<char>> = if opts.strip_quality_tags {
            let keyed = builtin_keyed();
            words_by_length(&keyed)
        } else {
            Vec::new()
        };
        assert(vec_views(builtin@) == (if opts.strip_quality_tags { by_length_desc(builtin_words()) } else { Seq::<Seq<char>>::empty() }));
        assert(vec_views(stop_removed@) =~= Seq::<Seq<char>>::empty());
        let t1 = strip_words_exec(current, &builtin, &mut stop_removed);
        let ckeyed = custom_keyed(&opts.custom_stop_words);
        let custom_sorted = words_by_length(&ckeyed);
        let t2 = strip_words_exec(t1, &custom_sorted, &mut stop_removed);
        current = t2;
        let ghost add = vec_views(stop_removed@);
        removed.append(&mut stop_removed);
        assert(vec_views(removed@) =~= before + add);
    } else {
        assert(r1 + r2 + r3 =~= r1 + r2);
    }
    assert(current@ == s3 && vec_views(removed@) =~= r1 + r2 + r3);
    let cleaned = collapse_whitespace(&current);
    StripResult { cleaned: string_from_chars(cleaned.as_slice()), removed: strings_of(&removed) }
}

/// No whitespace at either end, never two whitespace characters in a row,
/// and every whitespace character a plain space.
pub open spec fn is_collapsed(s: Seq<char>) -> bool {
    &&& (s.len() > 0 ==> !white_space(s[0]) && !white_space(s.last()))
    &&& forall|k: int| 0 <= k < s.len() - 1 ==> !(white_space(#[trigger] s[k]) && white_space(s[k + 1]))
    &&& forall|k: int| 0 <= k < s.len() ==> #[trigger] s[k] == ' ' || !white_space(s[k])
}

spec fn collapse_inv(out: Seq<char>, prev: bool) -> bool {
    &&& (out.len() > 0 ==> !white_space(out[0]))
    &&& forall|k: int| 0 <= k < out.len() - 1 ==> !(white_space(#[trigger] out[k]) && white_space(out[k + 1]))
    &&& forall|k: int| 0 <= k < out.len() ==> #[trigger] out[k] == ' ' || !white_space(out[k])
    &&& prev ==> out.len() >= 2 && out.last() == ' ' && !white_space(out[out.len() - 2])
    &&& !prev ==> out.len() == 0 || !white_space(out.last())
}

proof fn lemma_collapse_from(cs: Seq<char>, i: int, out: Seq<char>, prev: bool)
    requires
        0 <= i <= cs.len(),
        collapse_inv(out, prev),
    ensures
        is_collapsed(collapse_from(cs, i, out, prev)),
    decreases cs.len() - i,
{
    if i < cs.len() {
        let c = cs[i];
        if white_space(c) {
            if !prev && out.len() > 0 {
                let o2 = out.push(' ');
                assert forall|k: int| 0 <= k < o2.len() - 1 implies !(white_space(#[trigger] o2[k]) && white_space(o2[k + 1])) by {
                    if k < out.len() - 1 {
                        assert(o2[k] == out[k] && o2[k + 1] == out[k + 1]);
                    }
                }
                assert forall|k: int| 0 <= k < o2.len() implies #[trigger] o2[k] == ' ' || !white_space(o2[k]) by {
                    if k < out.len() {
                        assert(o2[k] == out[k]);
                    }
                }
                lemma_collapse_from(cs, i + 1, o2, true);
            } else {
                lemma_collapse_from(cs, i + 1, out, prev);
            }
        } else {
            let o2 = out.push(c);
            assert forall|k: int| 0 <= k < o2.len() - 1 implies !(white_space(#[trigger] o2[k]) && white_space(o2[k + 1])) by {
                if k < out.len() - 1 {
                    assert(o2[k] == out[k] && o2[k + 1] == out[k + 1]);
                }
            }
            assert forall|k: int| 0 <= k < o2.len() implies #[trigger] o2[k] == ' ' || !white_space(o2[k]) by {
                if k < out.len() {
                    assert(o2[k] == out[k]);
                }
            }
            lemma_collapse_from(cs, i + 1, o2, false);
        }
    } else {
        if out.len() > 0 && out.last() == ' ' {
            let o2 = out.drop_last();
            if white_space(' ') {
                assert(prev);
                assert(o2.last() == out[out.len() - 2]);
            } else {
                assert forall|k: int| 0 <= k < o2.len() implies !white_space(#[trigger] o2[k]) by {
                    assert(o2[k] == out[k]);
                }
            }
            assert forall|k: int| 0 <= k < o2.len() - 1 implies !(white_space(#[trigger] o2[k]) && white_space(o2[k + 1])) by {
                assert(o2[k] == out[k] && o2[k + 1] == out[k + 1]);
            }
            assert forall|k: int| 0 <= k < o2.len() implies #[trigger] o2[k] == ' ' || !white_space(o2[k]) by {
                assert(o2[k] == out[k]);
            }
        }
    }
}

/// The cleaned title has no whitespace at either end, never two whitespace
/// characters in a row, and no whitespace but plain spaces, whatever the
/// options.
pub proof fn law_cleaned_is_collapsed(
    cs: Seq<char>,
    parens: bool,
    quotes: bool,
    tags: bool,
    custom: Seq<Seq<char>>,
)
    ensures
        is_collapsed(spec_strip_noise(cs, parens, quotes, tags, custom).0),
{
    let (s1, r1) = if parens { strip_parens(cs) } else { (cs, Seq::<Seq<char>>::empty()) };
    let (s2, r2) = if quotes { strip_quotes(s1) } else { (s1, Seq::<Seq<char>>::empty()) };
    let (s3, r3) = if tags || custom.len() > 0 {
        strip_stop_words(s2, tags, custom)
    } else {
        (s2, Seq::<Seq<char>>::empty())
    };
    lemma_collapse_from(s3, 0, Seq::empty(), false);
}

proof fn lemma_parens_no_close(cs: Seq<char>, i: int, res: Seq<char>, pend: Seq<char>, stack: Seq<usize>)
    requires
        0 <= i <= cs.len(),
        forall|k: int| 0 <= k < cs.len() ==> !is_close_bracket(#[trigger] cs[k]),
        res + pend == cs.take(i),
    ensures
        parens_from(cs, i, res, Seq::empty(), pend, stack) == (cs, Seq::<Seq<char>>::empty()),
    decreases cs.len() - i,
{
    if i < cs.len() {
        let ch = cs[i];
        assert(!is_close_bracket(ch));
        assert(cs.take(i + 1) =~= cs.take(i).push(ch));
        let stack1 = if is_open_bracket(ch) { stack.push(pend.len() as usize) } else { stack };
        let pend1 = pend.push(ch);
        if stack1.len() == 0 && pend1.len() > 0 {
            assert(res + pend1 + Seq::<char>::empty() =~= cs.take(i + 1));
            lemma_parens_no_close(cs, i + 1, res + pend1, Seq::empty(), stack1);
        } else {
            assert(res + pend1 =~= cs.take(i + 1));
            lemma_parens_no_close(cs, i + 1, res, pend1, stack1);
        }
    } else {
        assert(cs.take(i) =~= cs);
    }
}

/// Brackets are removed only with what they enclose and only when closed:
/// a text without closing brackets passes the bracket stage unchanged, with
/// nothing removed.
pub proof fn law_unclosed_brackets_kept(cs: Seq<char>)
    requires
        forall|k: int| 0 <= k < cs.len() ==> !is_close_bracket(#[trigger] cs[k]),
    ensures
        strip_parens(cs) == (cs, Seq::<Seq<char>>::empty()),
{
    assert(Seq::<char>::empty() + Seq::<char>::empty() =~= cs.take(0));
    lemma_parens_no_close(cs, 0, Seq::empty(), Seq::empty(), Seq::empty());
}

/// Neither an opening nor a closing bracket occurs in `s`.
pub open spec fn bracket_free(s: Seq<char>) -> bool {
    forall|k: int| 0 <= k < s.len() ==> !is_open_bracket(#[trigger] s[k]) && !is_close_bracket(s[k])
}

proof fn lemma_parens_plain(cs: Seq<char>, i: int, j: int, res: Seq<char>, rem: Seq<Seq<char>>)
    requires
        0 <= i <= j <= cs.len(),
        forall|k: int| i <= k < j ==> !is_open_bracket(#[trigger] cs[k]) && !is_close_bracket(cs[k]),
    ensures
        parens_from(cs, i, res, rem, Seq::empty(), Seq::empty())
            == parens_from(cs, j, res + cs.subrange(i, j), rem, Seq::empty(), Seq::empty()),
    decreases j - i,
{
    if i < j {
        let ch = cs[i];
        lemma_parens_plain(cs, i + 1, j, res + Seq::<char>::empty().push(ch), rem);
        assert(res + Seq::<char>::empty().push(ch) + cs.subrange(i + 1, j) =~= res + cs.subrange(i, j));
    } else {
        assert(res + cs.subrange(i, j) =~= res);
    }
}

proof fn lemma_parens_inside(cs: Seq<char>, i: int, j: int, res: Seq<char>, rem: Seq<Seq<char>>, pend: Seq<char>, stack: Seq<usize>)
    requires
        0 <= i <= j <= cs.len(),
        stack.len() > 0,
        forall|k: int| i <= k < j ==> !is_open_bracket(#[trigger] cs[k]) && !is_close_bracket(cs[k]),
    ensures
        parens_from(cs, i, res, rem, pend, stack) == parens_from(cs, j, res, rem, pend + cs.subrange(i, j), stack),
    decreases j - i,
{
    if i < j {
        let ch = cs[i];
        lemma_parens_inside(cs, i + 1, j, res, rem, pend.push(ch), stack);
        assert(pend.push(ch) + cs.subrange(i + 1, j) =~= pend + cs.subrange(i, j));
    } else {
        assert(pend + cs.subrange(i, j) =~= pend);
    }
}

/// A bracketed aside is removed with its brackets and its trimmed content
/// recorded: any of the opening brackets ( （ [ 【 { 「 『 〈 〔 〖 opens an
/// aside, and any closing bracket ) ） ] 】 } 」 』 〉 〕 〗 closes it.
pub proof fn law_bracket_aside_removed(t: Seq<char>, o: char, a: Seq<char>, c: char)
    requires
        o == '(' || o == '（' || o == '[' || o == '【' || o == '{' || o == '「' || o == '『' || o == '〈'
            || o == '〔' || o == '〖',
        c == ')' || c == '）' || c == ']' || c == '】' || c == '}' || c == '」' || c == '』' || c == '〉'
            || c == '〕' || c == '〗',
        bracket_free(t),
        bracket_free(a),
    ensures
        strip_parens(t + seq![o] + a + seq![c]) == (t, if trim(a).len() > 0 {
            seq![trim(a)]
        } else {
            Seq::<Seq<char>>::empty()
        }),
{
    let cs = t + seq![o] + a + seq![c];
    let n = t.len() as int;
    let m = a.len() as int;
    assert forall|k: int| 0 <= k < n implies !is_open_bracket(#[trigger] cs[k]) && !is_close_bracket(cs[k]) by {
        assert(cs[k] == t[k]);
    }
    lemma_parens_plain(cs, 0, n, Seq::empty(), Seq::empty());
    assert(Seq::<char>::empty() + cs.subrange(0, n) =~= t);
    assert(cs[n] == o);
    let pend = Seq::<char>::empty().push(o);
    let stack = Seq::<usize>::empty().push(0usize);
    assert forall|k: int| n + 1 <= k < n + 1 + m implies !is_open_bracket(#[trigger] cs[k]) && !is_close_bracket(cs[k]) by {
        assert(cs[k] == a[k - n - 1]);
    }
    lemma_parens_inside(cs, n + 1, n + 1 + m, t, Seq::empty(), pend, stack);
    let pend2 = pend + cs.subrange(n + 1, n + 1 + m);
    assert(cs.subrange(n + 1, n + 1 + m) =~= a);
    assert(cs[n + 1 + m] == c);
    assert(pend2.skip(1) =~= a);
    assert(pend2.take(0) =~= Seq::<char>::empty());
    let rem = push_nonempty(Seq::empty(), trim(a));
    assert(cs.len() == n + 2 + m);
    assert(is_open_bracket(o));
    assert(!is_open_bracket(c) && is_close_bracket(c));
    assert(parens_from(cs, n, t, Seq::empty(), Seq::empty(), Seq::empty())
        == parens_from(cs, n + 1, t, Seq::empty(), pend, stack));
    assert(stack.drop_last() =~= Seq::<usize>::empty());
    assert(parens_from(cs, n + 1 + m, t, Seq::empty(), pend2, stack)
        == parens_from(cs, n + 2 + m, t, rem, Seq::empty(), Seq::empty()));
    assert(parens_from(cs, n + 2 + m, t, rem, Seq::empty(), Seq::empty()) == (t + Seq::<char>::empty(), rem));
    assert(t + Seq::<char>::empty() =~= t);
    if trim(a).len() > 0 {
        assert(rem =~= seq![trim(a)]);
    }
}

/// With only bracket removal on, a title followed by a space and a
/// bracketed aside cleans to the title alone (whitespace collapsed), the
/// aside's trimmed content being what was removed.
pub proof fn law_strip_noise_drops_bracket_aside(t: Seq<char>, o: char, a: Seq<char>, c: char)
    requires
        o == '(' || o == '（' || o == '[' || o == '【' || o == '{' || o == '「' || o == '『' || o == '〈'
            || o == '〔' || o == '〖',
        c == ')' || c == '）' || c == ']' || c == '】' || c == '}' || c == '」' || c == '』' || c == '〉'
            || c == '〕' || c == '〗',
        bracket_free(t),
        bracket_free(a),
    ensures
        spec_strip_noise(t + seq![' ', o] + a + seq![c], true, false, false, Seq::empty()) == (
            collapse(t + seq![' ']),
            if trim(a).len() > 0 { seq![trim(a)] } else { Seq::<Seq<char>>::empty() },
        ),
{
    let t2 = t + seq![' '];
    assert(bracket_free(t2)) by {
        assert forall|k: int| 0 <= k < t2.len() implies !is_open_bracket(#[trigger] t2[k]) && !is_close_bracket(t2[k]) by {
            if k < t.len() {
                assert(t2[k] == t[k]);
            }
        }
    }
    assert(t + seq![' ', o] + a + seq![c] =~= t2 + seq![o] + a + seq![c]);
    law_bracket_aside_removed(t2, o, a, c);
    let r1 = if trim(a).len() > 0 { seq![trim(a)] } else { Seq::<Seq<char>>::empty() };
    assert(r1 + Seq::<Seq<char>>::empty() + Seq::<Seq<char>>::empty() =~= r1);
}

proof fn lemma_quotes_plain(cs: Seq<char>, i: int, j: int, res: Seq<char>, rem: Seq<Seq<char>>)
    requires
        0 <= i <= j <= cs.len(),
        forall|k: int| i <= k < j ==> !is_open_quote(#[trigger] cs[k]),
    ensures
        quotes_from(cs, i, res, rem, Seq::empty(), None)
            == quotes_from(cs, j, res + cs.subrange(i, j), rem, Seq::empty(), None),
    decreases j - i,
{
    if i < j {
        lemma_quotes_plain(cs, i + 1, j, res.push(cs[i]), rem);
        assert(res.push(cs[i]) + cs.subrange(i + 1, j) =~= res + cs.subrange(i, j));
    } else {
        assert(res + cs.subrange(i, j) =~= res);
    }
}

proof fn lemma_quotes_inside(cs: Seq<char>, i: int, j: int, res: Seq<char>, rem: Seq<Seq<char>>, buf: Seq<char>, q: char)
    requires
        0 <= i <= j <= cs.len(),
        forall|k: int| i <= k < j ==> !closes_quote(#[trigger] cs[k], q),
    ensures
        quotes_from(cs, i, res, rem, buf, Some(q)) == quotes_from(cs, j, res, rem, buf + cs.subrange(i, j), Some(q)),
    decreases j - i,
{
    if i < j {
        lemma_quotes_inside(cs, i + 1, j, res, rem, buf.push(cs[i]), q);
        assert(buf.push(cs[i]) + cs.subrange(i + 1, j) =~= buf + cs.subrange(i, j));
    } else {
        assert(buf + cs.subrange(i, j) =~= buf);
    }
}

/// A quoted aside is removed with its quotes and its trimmed content
/// recorded, for each pair of quotes: "…", “…”, '…', ‘…’, 「…」 and 『…』.
pub proof fn law_quote_aside_removed(t: Seq<char>, q: char, a: Seq<char>, e: char)
    requires
        (q == '"' && e == '"') || (q == '\u{201C}' && e == '\u{201D}') || (q == '\'' && e == '\'')
            || (q == '\u{2018}' && e == '\u{2019}') || (q == '「' && e == '」') || (q == '『' && e == '』'),
        forall|k: int| 0 <= k < t.len() ==> !is_open_quote(#[trigger] t[k]),
        forall|k: int| 0 <= k < a.len() ==> !closes_quote(#[trigger] a[k], q),
    ensures
        strip_quotes(t + seq![q] + a + seq![e]) == (t, if trim(a).len() > 0 {
            seq![trim(a)]
        } else {
            Seq::<Seq<char>>::empty()
        }),
{
    let cs = t + seq![q] + a + seq![e];
    let n = t.len() as int;
    let m = a.len() as int;
    assert forall|k: int| 0 <= k < n implies !is_open_quote(#[trigger] cs[k]) by {
        assert(cs[k] == t[k]);
    }
    lemma_quotes_plain(cs, 0, n, Seq::empty(), Seq::empty());
    assert(Seq::<char>::empty() + cs.subrange(0, n) =~= t);
    assert(cs[n] == q);
    assert(is_open_quote(q));
    assert forall|k: int| n + 1 <= k < n + 1 + m implies !closes_quote(#[trigger] cs[k], q) by {
        assert(cs[k] == a[k - n - 1]);
    }
    lemma_quotes_inside(cs, n + 1, n + 1 + m, t, Seq::empty(), Seq::empty(), q);
    assert(Seq::<char>::empty() + cs.subrange(n + 1, n + 1 + m) =~= a);
    assert(cs[n + 1 + m] == e);
    assert(closes_quote(e, q));
    let rem = push_nonempty(Seq::empty(), trim(a));
    assert(cs.len() == n + 2 + m);
    assert(quotes_from(cs, n, t, Seq::empty(), Seq::empty(), None)
        == quotes_from(cs, n + 1, t, Seq::empty(), Seq::empty(), Some(q)));
    assert(quotes_from(cs, n + 1 + m, t, Seq::empty(), a, Some(q))
        == quotes_from(cs, n + 2 + m, t, rem, Seq::empty(), None));
    if trim(a).len() > 0 {
        assert(rem =~= seq![trim(a)]);
    }
}

} // verus!

//! Japanese kana (hiragana and katakana) to romaji, so that titles stay
//! readable on the player's limited character set.
use vstd::prelude::*;
use crate::strings::{str_chars, string_from_chars, push_str, copy_range};

verus! {

/// Romaji of the plain hiragana.
pub const HIRAGANA_BASE: &'static [(char, &'static str); 82] = &[
    ('あ', "a"), ('い', "i"), ('う', "u"), ('え', "e"), ('お', "o"),
    ('か', "ka"), ('き', "ki"), ('く', "ku"), ('け', "ke"), ('こ', "ko"),
    ('さ', "sa"), ('し', "shi"), ('す', "su"), ('せ', "se"), ('そ', "so"),
    ('た', "ta"), ('ち', "chi"), ('つ', "tsu"), ('て', "te"), ('と', "to"),
    ('な', "na"), ('に', "ni"), ('ぬ', "nu"), ('ね', "ne"), ('の', "no"),
    ('は', "ha"), ('ひ', "hi"), ('ふ', "fu"), ('へ', "he"), ('ほ', "ho"),
    ('ま', "ma"), ('み', "mi"), ('む', "mu"), ('め', "me"), ('も', "mo"),
    ('や', "ya"), ('ゆ', "yu"), ('よ', "yo"), ('ら', "ra"), ('り', "ri"),
    ('る', "ru"), ('れ', "re"), ('ろ', "ro"), ('わ', "wa"), ('を', "wo"),
    ('ん', "n"), ('が', "ga"), ('ぎ', "gi"), ('ぐ', "gu"), ('げ', "ge"),
    ('ご', "go"), ('ざ', "za"), ('じ', "ji"), ('ず', "zu"), ('ぜ', "ze"),
    ('ぞ', "zo"), ('だ', "da"), ('ぢ', "di"), ('づ', "du"), ('で', "de"),
    ('ど', "do"), ('ば', "ba"), ('び', "bi"), ('ぶ', "bu"), ('べ', "be"),
    ('ぼ', "bo"), ('ぱ', "pa"), ('ぴ', "pi"), ('ぷ', "pu"), ('ぺ', "pe"),
    ('ぽ', "po"), ('ぁ', "a"), ('ぃ', "i"), ('ぅ', "u"), ('ぇ', "e"),
    ('ぉ', "o"), ('ゃ', "ya"), ('ゅ', "yu"), ('ょ', "yo"), ('ゎ', "wa"),
    ('ゐ', "wi"), ('ゑ', "we"),
];

/// Romaji of the plain katakana.
pub const KATAKANA_BASE: &'static [(char, &'static str); 83] = &[
    ('ア', "a"), ('イ', "i"), ('ウ', "u"), ('エ', "e"), ('オ', "o"),
    ('カ', "ka"), ('キ', "ki"), ('ク', "ku"), ('ケ', "ke"), ('コ', "ko"),
    ('サ', "sa"), ('シ', "shi"), ('ス', "su"), ('セ', "se"), ('ソ', "so"),
    ('タ', "ta"), ('チ', "chi"), ('ツ', "tsu"), ('テ', "te"), ('ト', "to"),
    ('ナ', "na"), ('ニ', "ni"), ('ヌ', "nu"), ('ネ', "ne"), ('ノ', "no"),
    ('ハ', "ha"), ('ヒ', "hi"), ('フ', "fu"), ('ヘ', "he"), ('ホ', "ho"),
    ('マ', "ma"), ('ミ', "mi"), ('ム', "mu"), ('メ', "me"), ('モ', "mo"),
    ('ヤ', "ya"), ('ユ', "yu"), ('ヨ', "yo"), ('ラ', "ra"), ('リ', "ri"),
    ('ル', "ru"), ('レ', "re"), ('ロ', "ro"), ('ワ', "wa"), ('ヲ', "wo"),
    ('ン', "n"), ('ガ', "ga"), ('ギ', "gi"), ('グ', "gu"), ('ゲ', "ge"),
    ('ゴ', "go"), ('ザ', "za"), ('ジ', "ji"), ('ズ', "zu"), ('ゼ', "ze"),
    ('ゾ', "zo"), ('ダ', "da"), ('ヂ', "di"), ('ヅ', "du"), ('デ', "de"),
    ('ド', "do"), ('バ', "ba"), ('ビ', "bi"), ('ブ', "bu"), ('ベ', "be"),
    ('ボ', "bo"), ('パ', "pa"), ('ピ', "pi"), ('プ', "pu"), ('ペ', "pe"),
    ('ポ', "po"), ('ァ', "a"), ('ィ', "i"), ('ゥ', "u"), ('ェ', "e"),
    ('ォ', "o"), ('ャ', "ya"), ('ュ', "yu"), ('ョ', "yo"), ('ヮ', "wa"),
    ('ヴ', "vu"), ('ヵ', "ka"), ('ヶ', "ke"),
];

/// Contracted sounds with a small "ya" after the base kana.
pub const YOON_YA: &'static [(char, &'static str); 23] = &[
    ('き', "kya"), ('ぎ', "gya"), ('し', "sha"), ('じ', "ja"), ('ち', "cha"),
    ('ぢ', "dya"), ('に', "nya"), ('ひ', "hya"), ('び', "bya"), ('ぴ', "pya"),
    ('み', "mya"), ('り', "rya"), ('キ', "kya"), ('ギ', "gya"), ('シ', "sha"),
    ('ジ', "ja"), ('チ', "cha"), ('ニ', "nya"), ('ヒ', "hya"), ('ビ', "bya"),
    ('ピ', "pya"), ('ミ', "mya"), ('リ', "rya"),
];

/// Contracted sounds with a small "yu" after the base kana.
pub const YOON_YU: &'static [(char, &'static str); 23] = &[
    ('き', "kyu"), ('ぎ', "gyu"), ('し', "shu"), ('じ', "ju"), ('ち', "chu"),
    ('ぢ', "dyu"), ('に', "nyu"), ('ひ', "hyu"), ('び', "byu"), ('ぴ', "pyu"),
    ('み', "myu"), ('り', "ryu"), ('キ', "kyu"), ('ギ', "gyu"), ('シ', "shu"),
    ('ジ', "ju"), ('チ', "chu"), ('ニ', "nyu"), ('ヒ', "hyu"), ('ビ', "byu"),
    ('ピ', "pyu"), ('ミ', "myu"), ('リ', "ryu"),
];

/// Contracted sounds with a small "yo" after the base kana.
pub const YOON_YO: &'static [(char, &'static str); 23] = &[
    ('き', "kyo"), ('ぎ', "gyo"), ('し', "sho"), ('じ', "jo"), ('ち', "cho"),
    ('ぢ', "dyo"), ('に', "nyo"), ('ひ', "hyo"), ('び', "byo"), ('ぴ', "pyo"),
    ('み', "myo"), ('り', "ryo"), ('キ', "kyo"), ('ギ', "gyo"), ('シ', "sho"),
    ('ジ', "jo"), ('チ', "cho"), ('ニ', "nyo"), ('ヒ', "hyo"), ('ビ', "byo"),
    ('ピ', "pyo"), ('ミ', "myo"), ('リ', "ryo"),
];

/// The romaji of the first entry of `table` whose kana is `ch`.
pub open spec fn table_find(table: Seq<(char, &'static str)>, ch: char) -> Option<Seq<char>>
    decreases table.len(),
{
    if table.len() == 0 {
        None
    } else if table[0].0 == ch {
        Some(table[0].1@)
    } else {
        table_find(table.drop_first(), ch)
    }
}

/// Looks `ch` up in `table` (first match).
fn table_lookup(table: &[(char, &'static str)], ch: char) -> (r: Option<&'static str>)
    ensures
        match r {
            Some(s) => table_find(table@, ch) == Some(s@),
            None => table_find(table@, ch) is None,
        },
{
    let mut i: usize = 0;
    assert(table@.subrange(0, table@.len() as int) =~= table@);
    while i < table.len()
        invariant
            i <= table@.len(),
            table_find(table@, ch) == table_find(table@.subrange(i as int, table@.len() as int), ch),
        decreases table@.len() - i,
    {
        let ghost rest = table@.subrange(i as int, table@.len() as int);
        assert(rest.drop_first() =~= table@.subrange(i + 1, table@.len() as int));
        if table[i].0 == ch {
            return Some(table[i].1);
        }
        i = i + 1;
    }
    None
}

/// True for the hiragana and katakana blocks (U+3040 to U+30FF).
pub open spec fn spec_is_kana(ch: char) -> bool {
    0x3040 <= (ch as u32) <= 0x30FF
}

/// The small tsu (gemination mark) of either script.
pub open spec fn is_sokuon(ch: char) -> bool {
    ch == 'っ' || ch == 'ッ'
}

/// The long-vowel mark.
pub open spec fn is_prolonged(ch: char) -> bool {
    ch == 'ー'
}

/// 0, 1 or 2 for a small ya, yu or yo of either script.
pub open spec fn small_yoon(ch: char) -> Option<int> {
    if ch == 'ゃ' || ch == 'ャ' {
        Some(0)
    } else if ch == 'ゅ' || ch == 'ュ' {
        Some(1)
    } else if ch == 'ょ' || ch == 'ョ' {
        Some(2)
    } else {
        None
    }
}

/// Romaji of a single kana: the hiragana table first, then the katakana one.
pub open spec fn kana_base(ch: char) -> Option<Seq<char>> {
    match table_find(HIRAGANA_BASE@, ch) {
        Some(r) => Some(r),
        None => table_find(KATAKANA_BASE@, ch),
    }
}

/// The table of contracted sounds for small ya (0), yu (1) or yo (2).
pub open spec fn yoon_table(idx: int) -> Seq<(char, &'static str)> {
    if idx == 0 {
        YOON_YA@
    } else if idx == 1 {
        YOON_YU@
    } else {
        YOON_YO@
    }
}

/// Romaji of `base` followed by the small ya/yu/yo numbered `idx`.
pub open spec fn yoon(base: char, idx: int) -> Option<Seq<char>> {
    table_find(yoon_table(idx), base)
}

/// The first character of `r`, if any.
pub open spec fn first_of(r: Seq<char>) -> Option<char> {
    if r.len() > 0 {
        Some(r[0])
    } else {
        None
    }
}

/// The last character of `r`, if any.
pub open spec fn last_of(r: Seq<char>) -> Option<char> {
    if r.len() > 0 {
        Some(r.last())
    } else {
        None
    }
}

/// The consonant that a small tsu at `i` doubles, appended to `out`: the first
/// letter of the next kana's romaji, unless it is `n` or `out` ends in `n`.
pub open spec fn sokuon_output(cs: Seq<char>, i: int, out: Seq<char>) -> Seq<char> {
    if i + 1 < cs.len() {
        match kana_base(cs[i + 1]) {
            Some(r) => match first_of(r) {
                Some(f) => if f != 'n' && last_of(out) != Some('n') {
                    out.push(f)
                } else {
                    out
                },
                None => out,
            },
            None => out,
        }
    } else {
        out
    }
}

/// A syllabic n at `i` is read `m` before a kana whose romaji starts with b, p or m.
pub open spec fn n_before_labial(cs: Seq<char>, i: int) -> bool {
    &&& (cs[i] == 'ん' || cs[i] == 'ン')
    &&& i + 1 < cs.len()
    &&& kana_base(cs[i + 1]) matches Some(r)
    &&& first_of(r) matches Some(f)
    &&& (f == 'b' || f == 'p' || f == 'm')
}

/// Whether the kana at `i` and a small ya/yu/yo after it form a known contracted sound.
pub open spec fn yoon_at(cs: Seq<char>, i: int) -> bool {
    &&& i + 1 < cs.len()
    &&& small_yoon(cs[i + 1]) matches Some(k)
    &&& yoon(cs[i], k) is Some
}

/// Romaji of `cs[i..]` appended to `out`, where `last` is the vowel that a
/// long-vowel mark repeats.
pub open spec fn romaji_from(cs: Seq<char>, i: int, out: Seq<char>, last: Option<char>) -> Seq<char>
    decreases cs.len() - i,
{
    if i < 0 || i >= cs.len() {
        out
    } else {
        let ch = cs[i];
        if is_sokuon(ch) {
            romaji_from(cs, i + 1, sokuon_output(cs, i, out), last)
        } else if is_prolonged(ch) {
            romaji_from(
                cs,
                i + 1,
                match last {
                    Some(v) => out.push(v),
                    None => out,
                },
                last,
            )
        } else {
            match kana_base(ch) {
                Some(r) => if yoon_at(cs, i) {
                    let c = yoon(ch, small_yoon(cs[i + 1])->0)->0;
                    romaji_from(cs, i + 2, out + c, last_of(c))
                } else if n_before_labial(cs, i) {
                    romaji_from(cs, i + 1, out.push('m'), Some('n'))
                } else {
                    romaji_from(cs, i + 1, out + r, last_of(r))
                },
                None => romaji_from(cs, i + 1, out.push(ch), last),
            }
        }
    }
}

/// Romaji of a whole text: kana are converted, everything else is kept.
pub open spec fn spec_kana_to_romaji(cs: Seq<char>) -> Seq<char> {
    romaji_from(cs, 0, Seq::empty(), None)
}

/// Length of the syllable that starts with a small tsu at `i`: the next kana
/// (not another small tsu) joins it, and a small ya/yu/yo after that.
pub open spec fn sokuon_syllable_len(cs: Seq<char>, i: int) -> int {
    if i + 1 < cs.len() && spec_is_kana(cs[i + 1]) && !is_sokuon(cs[i + 1]) {
        if i + 2 < cs.len() && small_yoon(cs[i + 2]) is Some {
            3
        } else {
            2
        }
    } else {
        1
    }
}

/// Length of the syllable that starts with a kana at `i`: a small ya/yu/yo
/// may follow, then a long-vowel mark.
pub open spec fn kana_syllable_len(cs: Seq<char>, i: int) -> int {
    let j = if i + 1 < cs.len() && small_yoon(cs[i + 1]) is Some {
        i + 2
    } else {
        i + 1
    };
    if j < cs.len() && is_prolonged(cs[j]) {
        j + 1 - i
    } else {
        j - i
    }
}

/// The syllables of `cs[i..]` appended to `acc`; a long-vowel mark joins the
/// syllable before it.
pub open spec fn syllables_from(cs: Seq<char>, i: int, acc: Seq<Seq<char>>) -> Seq<Seq<char>>
    decreases cs.len() - i,
{
    if i < 0 || i >= cs.len() {
        acc
    } else {
        let ch = cs[i];
        if is_sokuon(ch) {
            let n = sokuon_syllable_len(cs, i);
            syllables_from(cs, i + n, acc.push(cs.subrange(i, i + n)))
        } else if is_prolonged(ch) {
            if acc.len() > 0 {
                syllables_from(cs, i + 1, acc.drop_last().push(acc.last().push(ch)))
            } else {
                syllables_from(cs, i + 1, acc.push(seq![ch]))
            }
        } else if spec_is_kana(ch) {
            let n = kana_syllable_len(cs, i);
            syllables_from(cs, i + n, acc.push(cs.subrange(i, i + n)))
        } else {
            syllables_from(cs, i + 1, acc.push(seq![ch]))
        }
    }
}

/// The syllables of a text.
pub open spec fn spec_kana_syllables(cs: Seq<char>) -> Seq<Seq<char>> {
    syllables_from(cs, 0, Seq::empty())
}

/// The views of a sequence of strings.
pub open spec fn string_views(v: Seq<String>) -> Seq<Seq<char>> {
    v.map_values(|s: String| s@)
}

/// The view of an optional string slice.
pub open spec fn opt_str_view(r: Option<&'static str>) -> Option<Seq<char>> {
    match r {
        Some(s) => Some(s@),
        None => None,
    }
}

/// Whether `ch` is a hiragana or katakana character.
pub fn is_kana(ch: char) -> (b: bool)
    ensures
        b == spec_is_kana(ch),
{
    let c: u32 = ch as u32;
    0x3040 <= c && c <= 0x30FF
}

fn is_sokuon_char(ch: char) -> (b: bool)
    ensures
        b == is_sokuon(ch),
{
    ch == 'っ' || ch == 'ッ'
}

fn is_prolonged_char(ch: char) -> (b: bool)
    ensures
        b == is_prolonged(ch),
{
    ch == 'ー'
}

fn is_small_yoon(ch: char) -> (r: Option<usize>)
    ensures
        match r {
            Some(k) => small_yoon(ch) == Some(k as int),
            None => small_yoon(ch) is None,
        },
{
    if ch == 'ゃ' || ch == 'ャ' {
        Some(0)
    } else if ch == 'ゅ' || ch == 'ュ' {
        Some(1)
    } else if ch == 'ょ' || ch == 'ョ' {
        Some(2)
    } else {
        None
    }
}

fn lookup_kana(ch: char) -> (r: Option<&'static str>)
    ensures
        opt_str_view(r) == kana_base(ch),
{
    match table_lookup(HIRAGANA_BASE, ch) {
        Some(s) => Some(s),
        None => table_lookup(KATAKANA_BASE, ch),
    }
}

fn lookup_yoon(base: char, idx: usize) -> (r: Option<&'static str>)
    requires
        idx < 3,
    ensures
        opt_str_view(r) == yoon(base, idx as int),
{
    if idx == 0 {
        table_lookup(YOON_YA, base)
    } else if idx == 1 {
        table_lookup(YOON_YU, base)
    } else {
        table_lookup(YOON_YO, base)
    }
}

/// Whether `s` holds at least one kana.
pub fn contains_kana(s: &str) -> (b: bool)
    ensures
        b == exists|i: int| 0 <= i < s@.len() && #[trigger] spec_is_kana(s@[i]),
{
    let cs = str_chars(s);
    let mut i: usize = 0;
    while i < cs.len()
        invariant
            cs@ == s@,
            i <= cs@.len(),
            forall|k: int| 0 <= k < i ==> !#[trigger] spec_is_kana(cs@[k]),
        decreases cs@.len() - i,
    {
        if is_kana(cs[i]) {
            return true;
        }
        i = i + 1;
    }
    false
}

/// Converts the kana of `input` to romaji and keeps every other character.
/// A small tsu doubles the next consonant, a long-vowel mark repeats the
/// previous vowel, a kana with a small ya/yu/yo forms one sound, and a
/// syllabic n before b, p or m is written `m`.
pub fn kana_to_romaji(input: &str) -> (s: String)
    ensures
        s@ == spec_kana_to_romaji(input@),
{
    let chars = str_chars(input);
    let mut result: Vec<char> = Vec::new();
    let mut i: usize = 0;
    let mut last_vowel: Option<char> = None;
    while i < chars.len()
        invariant
            chars@ == input@,
            i <= chars@.len(),
            spec_kana_to_romaji(chars@) == romaji_from(chars@, i as int, result@, last_vowel),
        decreases chars@.len() - i,
    {
        let ch = chars[i];
        if is_sokuon_char(ch) {
            if i + 1 < chars.len() {
                if let Some(next) = lookup_kana(chars[i + 1]) {
                    let nc = str_chars(next);
                    if nc.len() > 0 {
                        let f = nc[0];
                        let ends_n = result.len() > 0 && result[result.len() - 1] == 'n';
                        if f != 'n' && !ends_n {
                            result.push(f);
                        }
                    }
                }
            }
            i = i + 1;
            continue;
        }
        if is_prolonged_char(ch) {
            if let Some(v) = last_vowel {
                result.push(v);
            }
            i = i + 1;
            continue;
        }
        match lookup_kana(ch) {
            Some(romaji) => {
                if i + 1 < chars.len() {
                    if let Some(k) = is_small_yoon(chars[i + 1]) {
                        if let Some(combined) = lookup_yoon(ch, k) {
                            let cc = str_chars(combined);
                            push_str(&mut result, combined);
                            last_vowel = if cc.len() > 0 {
                                Some(cc[cc.len() - 1])
                            } else {
                                None
                            };
                            i = i + 2;
                            continue;
                        }
                    }
                }
                if ch == 'ん' || ch == 'ン' {
                    if i + 1 < chars.len() {
                        if let Some(next) = lookup_kana(chars[i + 1]) {
                            let nc = str_chars(next);
                            if nc.len() > 0 && (nc[0] == 'b' || nc[0] == 'p' || nc[0] == 'm') {
                                result.push('m');
                                last_vowel = Some('n');
                                i = i + 1;
                                continue;
                            }
                        }
                    }
                }
                let rc = str_chars(romaji);
                push_str(&mut result, romaji);
                last_vowel = if rc.len() > 0 {
                    Some(rc[rc.len() - 1])
                } else {
                    None
                };
                i = i + 1;
            },
            None => {
                result.push(ch);
                i = i + 1;
            },
        }
    }
    string_from_chars(result.as_slice())
}

fn sokuon_len(cs: &Vec<char>, i: usize) -> (n: usize)
    requires
        i < cs.len(),
    ensures
        n as int == sokuon_syllable_len(cs@, i as int),
{
    if i + 1 < cs.len() && is_kana(cs[i + 1]) && !is_sokuon_char(cs[i + 1]) {
        if i + 2 < cs.len() && is_small_yoon(cs[i + 2]).is_some() {
            3
        } else {
            2
        }
    } else {
        1
    }
}

fn kana_len(cs: &Vec<char>, i: usize) -> (n: usize)
    requires
        i < cs.len(),
    ensures
        n as int == kana_syllable_len(cs@, i as int),
{
    let j: usize = if i + 1 < cs.len() && is_small_yoon(cs[i + 1]).is_some() {
        i + 2
    } else {
        i + 1
    };
    if j < cs.len() && is_prolonged_char(cs[j]) {
        j + 1 - i
    } else {
        j - i
    }
}

/// Splits `input` into syllables, each of which `kana_to_romaji` can convert
/// on its own: a kana with the small ya/yu/yo and long-vowel mark after it, a
/// small tsu with the kana (and small ya/yu/yo) after it, or any other single
/// character. A long-vowel mark joins the syllable before it.
pub fn kana_syllables(input: &str) -> (r: Vec<String>)
    ensures
        string_views(r@) == spec_kana_syllables(input@),
{
    let chars = str_chars(input);
    let mut syl: Vec<Vec<char>> = Vec::new();
    let mut i: usize = 0;
    assert(syl@.map_values(|v: Vec<char>| v@) =~= Seq::<Seq<char>>::empty());
    while i < chars.len()
        invariant
            chars@ == input@,
            i <= chars@.len(),
            spec_kana_syllables(chars@) == syllables_from(
                chars@,
                i as int,
                syl@.map_values(|v: Vec<char>| v@),
            ),
        decreases chars@.len() - i,
    {
        let ghost before = syl@.map_values(|v: Vec<char>| v@);
        let ch = chars[i];
        if is_sokuon_char(ch) {
            let n = sokuon_len(&chars, i);
            let piece = copy_range(chars.as_slice(), i, i + n);
            syl.push(piece);
            assert(syl@.map_values(|v: Vec<char>| v@) =~= before.push(chars@.subrange(i as int, i + n)));
            i = i + n;
        } else if is_prolonged_char(ch) {
            if syl.len() > 0 {
                let mut lastv = syl.pop().unwrap();
                lastv.push(ch);
                syl.push(lastv);
                assert(syl@.map_values(|v: Vec<char>| v@) =~= before.drop_last().push(before.last().push(ch)));
            } else {
                let mut one: Vec<char> = Vec::new();
                one.push(ch);
                syl.push(one);
                assert(syl@.map_values(|v: Vec<char>| v@) =~= before.push(seq![ch]));
            }
            i = i + 1;
        } else if is_kana(ch) {
            let n = kana_len(&chars, i);
            let piece = copy_range(chars.as_slice(), i, i + n);
            syl.push(piece);
            assert(syl@.map_values(|v: Vec<char>| v@) =~= before.push(chars@.subrange(i as int, i + n)));
            i = i + n;
        } else {
            let mut one: Vec<char> = Vec::new();
            one.push(ch);
            syl.push(one);
            assert(syl@.map_values(|v: Vec<char>| v@) =~= before.push(seq![ch]));
            i = i + 1;
        }
    }
    let mut out: Vec<String> = Vec::new();
    let mut k: usize = 0;
    while k < syl.len()
        invariant
            k <= syl@.len(),
            out@.len() == k,
            forall|j: int| 0 <= j < k ==> #[trigger] out@[j]@ == syl@[j]@,
        decreases syl@.len() - k,
    {
        out.push(string_from_chars(syl[k].as_slice()));
        k = k + 1;
    }
    assert(string_views(out@) =~= syl@.map_values(|v: Vec<char>| v@));
    out
}

proof fn lemma_syllables_flatten(cs: Seq<char>, i: int, acc: Seq<Seq<char>>)
    requires
        0 <= i <= cs.len(),
    ensures
        syllables_from(cs, i, acc).flatten() == acc.flatten() + cs.subrange(i, cs.len() as int),
    decreases cs.len() - i,
{
    broadcast use Seq::lemma_flatten_push;
    if i < cs.len() {
        let ch = cs[i];
        if is_sokuon(ch) {
            let n = sokuon_syllable_len(cs, i);
            lemma_syllables_flatten(cs, i + n, acc.push(cs.subrange(i, i + n)));
            assert(cs.subrange(i, i + n) + cs.subrange(i + n, cs.len() as int) =~= cs.subrange(i, cs.len() as int));
            assert(acc.flatten() + cs.subrange(i, i + n) + cs.subrange(i + n, cs.len() as int)
                =~= acc.flatten() + cs.subrange(i, cs.len() as int));
        } else if is_prolonged(ch) {
            if acc.len() > 0 {
                let acc2 = acc.drop_last().push(acc.last().push(ch));
                lemma_syllables_flatten(cs, i + 1, acc2);
                assert(acc.drop_last().push(acc.last()) =~= acc);
                assert(acc2.flatten() =~= acc.flatten().push(ch));
            } else {
                lemma_syllables_flatten(cs, i + 1, acc.push(seq![ch]));
            }
            assert(seq![ch] + cs.subrange(i + 1, cs.len() as int) =~= cs.subrange(i, cs.len() as int));
            assert(acc.flatten().push(ch) + cs.subrange(i + 1, cs.len() as int)
                =~= acc.flatten() + cs.subrange(i, cs.len() as int));
        } else if spec_is_kana(ch) {
            let n = kana_syllable_len(cs, i);
            lemma_syllables_flatten(cs, i + n, acc.push(cs.subrange(i, i + n)));
            assert(acc.flatten() + cs.subrange(i, i + n) + cs.subrange(i + n, cs.len() as int)
                =~= acc.flatten() + cs.subrange(i, cs.len() as int));
        } else {
            lemma_syllables_flatten(cs, i + 1, acc.push(seq![ch]));
            assert(acc.flatten() + seq![ch] + cs.subrange(i + 1, cs.len() as int)
                =~= acc.flatten() + cs.subrange(i, cs.len() as int));
        }
    } else {
        assert(cs.subrange(i, cs.len() as int) =~= Seq::<char>::empty());
        assert(acc.flatten() + Seq::<char>::empty() =~= acc.flatten());
    }
}

/// Splitting into syllables loses and adds nothing: the syllables, joined in
/// order, give back the text.
pub proof fn law_syllables_partition(cs: Seq<char>)
    ensures
        spec_kana_syllables(cs).flatten() == cs,
{
    lemma_syllables_flatten(cs, 0, Seq::empty());
    assert(Seq::<Seq<char>>::empty().flatten() =~= Seq::<char>::empty());
    assert(cs.subrange(0, cs.len() as int) =~= cs);
    assert(Seq::<char>::empty() + cs =~= cs);
}

proof fn lemma_table_find_key(table: Seq<(char, &'static str)>, ch: char)
    requires
        forall|k: int| 0 <= k < table.len() ==> spec_is_kana(#[trigger] table[k].0),
        !spec_is_kana(ch),
    ensures
        table_find(table, ch) is None,
    decreases table.len(),
{
    if table.len() > 0 {
        assert(spec_is_kana(table[0].0));
        assert forall|k: int| 0 <= k < table.drop_first().len() implies spec_is_kana(#[trigger] table.drop_first()[k].0) by {
            assert(table.drop_first()[k] == table[k + 1]);
        }
        lemma_table_find_key(table.drop_first(), ch);
    }
}

proof fn lemma_no_kana_base(ch: char)
    requires
        !spec_is_kana(ch),
    ensures
        kana_base(ch) is None,
{
    assert forall|k: int| 0 <= k < HIRAGANA_BASE@.len() implies spec_is_kana(#[trigger] HIRAGANA_BASE@[k].0) by {
        assert(0 <= k < 82);
    }
    assert forall|k: int| 0 <= k < KATAKANA_BASE@.len() implies spec_is_kana(#[trigger] KATAKANA_BASE@[k].0) by {
        assert(0 <= k < 83);
    }
    lemma_table_find_key(HIRAGANA_BASE@, ch);
    lemma_table_find_key(KATAKANA_BASE@, ch);
}

proof fn lemma_romaji_passthrough(cs: Seq<char>, i: int, out: Seq<char>, last: Option<char>)
    requires
        0 <= i <= cs.len(),
        forall|k: int| 0 <= k < cs.len() ==> !spec_is_kana(#[trigger] cs[k]),
    ensures
        romaji_from(cs, i, out, last) == out + cs.skip(i),
    decreases cs.len() - i,
{
    if i < cs.len() {
        let ch = cs[i];
        assert(!spec_is_kana(ch));
        lemma_no_kana_base(ch);
        lemma_romaji_passthrough(cs, i + 1, out.push(ch), last);
        assert(out.push(ch) + cs.skip(i + 1) =~= out + cs.skip(i));
    } else {
        assert(out + cs.skip(i) =~= out);
    }
}

/// Text without kana comes out of the romaji conversion unchanged.
pub proof fn law_romaji_keeps_text_without_kana(cs: Seq<char>)
    requires
        forall|k: int| 0 <= k < cs.len() ==> !spec_is_kana(#[trigger] cs[k]),
    ensures
        spec_kana_to_romaji(cs) == cs,
{
    lemma_romaji_passthrough(cs, 0, Seq::empty(), None);
    assert(Seq::<char>::empty() + cs.skip(0) =~= cs);
}

/// No long-vowel mark occurs in `cs`.
pub open spec fn no_prolonged(cs: Seq<char>) -> bool {
    forall|k: int| 0 <= k < cs.len() ==> !is_prolonged(#[trigger] cs[k])
}

/// Every syllable is non-empty, and at most 3 characters long when the text
/// has no long-vowel mark.
pub open spec fn syllables_shaped(cs: Seq<char>, acc: Seq<Seq<char>>) -> bool {
    forall|k: int| 0 <= k < acc.len() ==> (#[trigger] acc[k]).len() >= 1 && (no_prolonged(cs) ==> acc[k].len() <= 3)
}

proof fn lemma_syllables_shape(cs: Seq<char>, i: int, acc: Seq<Seq<char>>)
    requires
        0 <= i <= cs.len(),
        syllables_shaped(cs, acc),
    ensures
        syllables_shaped(cs, syllables_from(cs, i, acc)),
    decreases cs.len() - i,
{
    if i < cs.len() {
        let ch = cs[i];
        if is_sokuon(ch) {
            let n = sokuon_syllable_len(cs, i);
            let acc2 = acc.push(cs.subrange(i, i + n));
            assert(syllables_shaped(cs, acc2)) by {
                assert(acc2[acc.len() as int].len() == n);
            }
            lemma_syllables_shape(cs, i + n, acc2);
        } else if is_prolonged(ch) {
            assert(!no_prolonged(cs));
            if acc.len() > 0 {
                let acc2 = acc.drop_last().push(acc.last().push(ch));
                assert(syllables_shaped(cs, acc2)) by {
                    assert forall|k: int| 0 <= k < acc2.len() implies (#[trigger] acc2[k]).len() >= 1 by {
                        if k < acc.len() - 1 {
                            assert(acc2[k] == acc[k]);
                        }
                    }
                }
                lemma_syllables_shape(cs, i + 1, acc2);
            } else {
                lemma_syllables_shape(cs, i + 1, acc.push(seq![ch]));
            }
        } else if spec_is_kana(ch) {
            let n = kana_syllable_len(cs, i);
            let j = if i + 1 < cs.len() && small_yoon(cs[i + 1]) is Some { i + 2 } else { i + 1 };
            assert(no_prolonged(cs) ==> n <= 2) by {
                if no_prolonged(cs) && j < cs.len() {
                    assert(!is_prolonged(cs[j]));
                }
            }
            let acc2 = acc.push(cs.subrange(i, i + n));
            assert(syllables_shaped(cs, acc2)) by {
                assert(acc2[acc.len() as int].len() == n);
            }
            lemma_syllables_shape(cs, i + n, acc2);
        } else {
            lemma_syllables_shape(cs, i + 1, acc.push(seq![ch]));
        }
    }
}

/// No syllable is empty, and without long-vowel marks none is longer than
/// three characters.
pub proof fn law_syllables_are_short(cs: Seq<char>)
    ensures
        forall|k: int| 0 <= k < spec_kana_syllables(cs).len() ==> (#[trigger] spec_kana_syllables(cs)[k]).len() >= 1,
        no_prolonged(cs) ==> forall|k: int| 0 <= k < spec_kana_syllables(cs).len()
            ==> (#[trigger] spec_kana_syllables(cs)[k]).len() <= 3,
{
    lemma_syllables_shape(cs, 0, Seq::empty());
}

} // verus!

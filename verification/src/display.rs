//! What the song and playlist lists show: titles with their fallbacks,
//! durations, and the lists filtered by a search and sorted.
use vstd::prelude::*;
use crate::rio_file::RioFile;
use crate::types::Song;
use crate::constants::TYPE_MP3;
use crate::sync::{basename, path_basename};
use crate::strings::{str_chars, string_from_chars, copy_range, push_decimal, push_str, dec_digits, digit_char};
use crate::rename::PreviewResult;
use crate::app_state::SongEntry;
use crate::textops::{trim, trim_chars, contains_seq, contains_chars};

verus! {

/// Where the extension of a file name starts: at its last '.', if any.
pub open spec fn last_dot(s: Seq<char>) -> Option<int>
    decreases s.len(),
{
    if s.len() == 0 {
        None
    } else if s.last() == '.' {
        Some(s.len() - 1)
    } else {
        last_dot(s.drop_last())
    }
}

/// A file name without its extension (the text before its last '.').
pub open spec fn without_ext(s: Seq<char>) -> Seq<char> {
    match last_dot(s) {
        Some(k) => s.take(k),
        None => s,
    }
}

/// The name shown for an untitled file: its last path part without extension.
pub open spec fn name_stem(name: Seq<char>) -> Seq<char> {
    without_ext(basename(name))
}

/// The text shown when there is no title to show.
pub open spec fn untitled() -> Seq<char> {
    "(无标题)"@
}

/// The title shown: the title; else the file name's stem; "(无标题)" when
/// that is empty too.
pub open spec fn shown_title(title: Seq<char>, name: Seq<char>) -> Seq<char> {
    if title.len() > 0 {
        title
    } else if name.len() == 0 || name_stem(name).len() == 0 {
        untitled()
    } else {
        name_stem(name)
    }
}

proof fn lemma_last_dot(s: Seq<char>)
    ensures
        last_dot(s) matches Some(k) ==> 0 <= k < s.len(),
    decreases s.len(),
{
    if s.len() > 0 && s.last() != '.' {
        lemma_last_dot(s.drop_last());
    }
}

/// The stem of the last path part of a file name.
pub fn file_name_stem(name: &str) -> (r: String)
    ensures
        r@ == name_stem(name@),
{
    let b = path_basename(name);
    let cs = str_chars(b.as_str());
    let mut k: usize = cs.len();
    assert(cs@.take(cs@.len() as int) =~= cs@);
    while k > 0 && cs[k - 1] != '.'
        invariant
            k <= cs@.len(),
            last_dot(cs@) == last_dot(cs@.take(k as int)),
        decreases k,
    {
        assert(cs@.take(k as int).drop_last() =~= cs@.take(k - 1));
        k = k - 1;
    }
    if k == 0 {
        assert(last_dot(cs@.take(0)) is None);
        return b;
    }
    assert(cs@.take(k as int).last() == '.');
    let r = copy_range(cs.as_slice(), 0, k - 1);
    string_from_chars(r.as_slice())
}

fn shown_title_exec(title: &String, name: &String) -> (r: String)
    ensures
        r@ == shown_title(title@, name@),
{
    if !title.as_str().is_empty() {
        return title.clone();
    }
    if name.as_str().is_empty() {
        return "(无标题)".to_owned();
    }
    let stem = file_name_stem(name.as_str());
    if stem.as_str().is_empty() {
        "(无标题)".to_owned()
    } else {
        stem
    }
}

/// The title a song row shows (see `shown_title`).
pub fn display_title(song: &RioFile) -> (r: String)
    ensures
        r@ == shown_title(song.title@, song.name@),
{
    shown_title_exec(&song.title, &song.name)
}

/// The name a playlist row shows (see `shown_title`).
pub fn display_playlist_name(pl: &RioFile) -> (r: String)
    ensures
        r@ == shown_title(pl.title@, pl.name@),
{
    shown_title_exec(&pl.title, &pl.name)
}

/// The title a song of a playlist shows (see `shown_title`).
pub fn display_song_title(song: &Song) -> (r: String)
    ensures
        r@ == shown_title(song.title@, song.name@),
{
    shown_title_exec(&song.title, &song.name)
}

/// A duration in seconds as "m:ss".
pub open spec fn spec_format_time(seconds: u32) -> Seq<char> {
    dec_digits((seconds / 60) as nat) + seq![':', digit_char(((seconds % 60) / 10) as nat), digit_char(((seconds % 60) % 10) as nat)]
}

/// Formats a duration as minutes and two-digit seconds ("m:ss").
pub fn format_time(seconds: u32) -> (s: String)
    ensures
        s@ == spec_format_time(seconds),
{
    let m = seconds / 60;
    let sec = seconds % 60;
    let mut out: Vec<char> = Vec::new();
    push_decimal(&mut out, m as u64);
    out.push(':');
    let tens: u8 = (sec / 10) as u8;
    let ones: u8 = (sec % 10) as u8;
    out.push((tens + 48) as char);
    out.push((ones + 48) as char);
    assert(out@ =~= spec_format_time(seconds));
    string_from_chars(out.as_slice())
}

/// The title used when a song is renamed in bulk: its title, or its file
/// name's stem when the title is empty.
pub open spec fn bulk_title(f: RioFile) -> Seq<char> {
    if f.title@.len() > 0 { f.title@ } else { name_stem(f.name@) }
}

fn bulk_title_exec(f: &RioFile) -> (r: String)
    ensures
        r@ == bulk_title(*f),
{
    if !f.title.as_str().is_empty() {
        f.title.clone()
    } else {
        file_name_stem(f.name.as_str())
    }
}

/// The MP3 records, in order.
pub open spec fn mp3_only(files: Seq<RioFile>) -> Seq<RioFile>
    decreases files.len(),
{
    if files.len() == 0 {
        Seq::empty()
    } else if files.last().file_type == TYPE_MP3 {
        mp3_only(files.drop_last()).push(files.last())
    } else {
        mp3_only(files.drop_last())
    }
}

/// Item `x` is the bulk-rename item of record `f` on `mem_unit`.
pub open spec fn is_title_item(x: (u32, u8, String), f: RioFile, mem_unit: u8) -> bool {
    x.0 == f.file_no && x.1 == mem_unit && x.2@ == bulk_title(f)
}

/// The MP3 records of a memory unit as (file number, unit, title) items for
/// a bulk rename, in order.
pub fn mp3_title_items(files: &[RioFile], mem_unit: u8) -> (r: Vec<(u32, u8, String)>)
    ensures
        r@.len() == mp3_only(files@).len(),
        forall|k: int| 0 <= k < r@.len() ==> is_title_item(#[trigger] r@[k], mp3_only(files@)[k], mem_unit),
{
    let mut r: Vec<(u32, u8, String)> = Vec::new();
    let mut i: usize = 0;
    while i < files.len()
        invariant
            i <= files@.len(),
            r@.len() == mp3_only(files@.take(i as int)).len(),
            forall|k: int| 0 <= k < r@.len() ==> is_title_item(#[trigger] r@[k], mp3_only(files@.take(i as int))[k], mem_unit),
        decreases files@.len() - i,
    {
        assert(files@.take(i + 1).drop_last() =~= files@.take(i as int));
        assert(files@.take(i + 1).last() == files@[i as int]);
        let f = &files[i];
        if f.file_type == TYPE_MP3 {
            let t = bulk_title_exec(f);
            r.push((f.file_no, mem_unit, t));
        }
        i = i + 1;
    }
    assert(files@.take(files@.len() as int) =~= files@);
    r
}

/// The previews of the MP3 records whose flag bit 0 is set (their text
/// shows garbled on the device until repaired): the title stays the same,
/// the record changes.
pub fn repair_previews(files: &[RioFile], mem_unit: u8) -> (r: Vec<PreviewResult>)
    ensures
        r@.len() == needs_repair(files@).len(),
        forall|k: int| 0 <= k < r@.len() ==> {
            let f = needs_repair(files@)[k];
            &&& (#[trigger] r@[k]).file_no == f.file_no
            &&& r@[k].mem_unit == mem_unit
            &&& r@[k].original@ == bulk_title(f)
            &&& r@[k].new_title@ == bulk_title(f)
            &&& r@[k].changed
        },
{
    let mut r: Vec<PreviewResult> = Vec::new();
    let mut i: usize = 0;
    while i < files.len()
        invariant
            i <= files@.len(),
            r@.len() == needs_repair(files@.take(i as int)).len(),
            forall|k: int| 0 <= k < r@.len() ==> {
                let f = needs_repair(files@.take(i as int))[k];
                &&& (#[trigger] r@[k]).file_no == f.file_no
                &&& r@[k].mem_unit == mem_unit
                &&& r@[k].original@ == bulk_title(f)
                &&& r@[k].new_title@ == bulk_title(f)
                &&& r@[k].changed
            },
        decreases files@.len() - i,
    {
        assert(files@.take(i + 1).drop_last() =~= files@.take(i as int));
        assert(files@.take(i + 1).last() == files@[i as int]);
        let f = &files[i];
        if f.file_type == TYPE_MP3 && f.bits % 2 == 1 {
            let t = bulk_title_exec(f);
            let t2 = t.clone();
            r.push(PreviewResult { file_no: f.file_no, mem_unit, original: t, new_title: t2, changed: true });
        }
        i = i + 1;
    }
    assert(files@.take(files@.len() as int) =~= files@);
    r
}

/// The MP3 records with flag bit 0 set, in order.
pub open spec fn needs_repair(files: Seq<RioFile>) -> Seq<RioFile>
    decreases files.len(),
{
    if files.len() == 0 {
        Seq::empty()
    } else if files.last().file_type == TYPE_MP3 && files.last().bits % 2 == 1 {
        needs_repair(files.drop_last()).push(files.last())
    } else {
        needs_repair(files.drop_last())
    }
}

/// The characters that std's `str::to_lowercase` gives for `s`.
pub uninterp spec fn lowercase(s: Seq<char>) -> Seq<char>;

/// `str::to_lowercase` of std. Claimed: the result is named `lowercase` of
/// the text.
#[verifier::external_body]
fn to_lowercase(s: &str) -> (r: String)
    ensures
        r@ == lowercase(s@),
{
    s.to_lowercase()
}

/// `a` comes strictly before `b` in code-point order (the order of `str`).
pub open spec fn chars_lt(a: Seq<char>, b: Seq<char>) -> bool
    decreases a.len(),
{
    if a.len() == 0 {
        b.len() > 0
    } else if b.len() == 0 {
        false
    } else if a[0] != b[0] {
        (a[0] as u32) < (b[0] as u32)
    } else {
        chars_lt(a.drop_first(), b.drop_first())
    }
}

fn chars_less(a: &[char], b: &[char]) -> (r: bool)
    ensures
        r == chars_lt(a@, b@),
{
    let mut i: usize = 0;
    assert(a@.skip(0) =~= a@);
    assert(b@.skip(0) =~= b@);
    while i < a.len() && i < b.len() && a[i] == b[i]
        invariant
            i <= a@.len(),
            i <= b@.len(),
            chars_lt(a@, b@) == chars_lt(a@.skip(i as int), b@.skip(i as int)),
        decreases a@.len() - i,
    {
        assert(a@.skip(i as int).drop_first() =~= a@.skip(i + 1));
        assert(b@.skip(i as int).drop_first() =~= b@.skip(i + 1));
        i = i + 1;
    }
    if i == a.len() {
        i < b.len()
    } else if i == b.len() {
        false
    } else {
        assert(a@.skip(i as int)[0] == a@[i as int]);
        assert(b@.skip(i as int)[0] == b@[i as int]);
        (a[i] as u32) < (b[i] as u32)
    }
}

/// A record equal to `f`.
pub fn copy_rio_file(f: &RioFile) -> (r: RioFile)
    ensures
        r == *f,
{
    RioFile {
        file_no: f.file_no,
        start: f.start,
        size: f.size,
        time: f.time,
        mod_date: f.mod_date,
        bits: f.bits,
        file_type: f.file_type,
        sample_rate: f.sample_rate,
        bit_rate: f.bit_rate,
        name: f.name.clone(),
        title: f.title.clone(),
        artist: f.artist.clone(),
        album: f.album.clone(),
    }
}

/// Whether a song entry matches the lower-cased query `q`: its title, its
/// artist or its file name, lower-cased, contains it.
pub open spec fn song_matches(e: SongEntry, q: Seq<char>) -> bool {
    contains_seq(lowercase(e.file.title@), q) || contains_seq(lowercase(e.file.artist@), q)
        || contains_seq(lowercase(e.file.name@), q)
}

/// Whether a playlist entry matches the lower-cased query `q` (title or name).
pub open spec fn playlist_matches(e: SongEntry, q: Seq<char>) -> bool {
    contains_seq(lowercase(e.file.title@), q) || contains_seq(lowercase(e.file.name@), q)
}

/// The entries kept by a search: all of them for a blank query, else those
/// matching the trimmed, lower-cased query (`songs` picks the song test).
pub open spec fn search(entries: Seq<SongEntry>, query: Seq<char>, songs: bool) -> Seq<SongEntry>
    decreases entries.len(),
{
    if entries.len() == 0 {
        Seq::empty()
    } else {
        let rest = search(entries.drop_last(), query, songs);
        let q = lowercase(trim(query));
        let e = entries.last();
        if trim(query).len() == 0 || (if songs { song_matches(e, q) } else { playlist_matches(e, q) }) {
            rest.push(e)
        } else {
            rest
        }
    }
}

/// In sort mode 1 larger files first, in mode 2 longer songs first,
/// otherwise by shown title in code-point order.
pub open spec fn goes_before(x: SongEntry, e: SongEntry, mode: u8) -> bool {
    if mode == 1 {
        x.file.size > e.file.size
    } else if mode == 2 {
        x.file.time > e.file.time
    } else {
        chars_lt(shown_title(x.file.title@, x.file.name@), shown_title(e.file.title@, e.file.name@))
    }
}

/// `x` inserted before the first entry it goes before.
pub open spec fn insert_entry(x: SongEntry, s: Seq<SongEntry>, mode: u8) -> Seq<SongEntry>
    decreases s.len(),
{
    if s.len() == 0 {
        seq![x]
    } else if goes_before(x, s[0], mode) {
        seq![x] + s
    } else {
        seq![s[0]] + insert_entry(x, s.drop_first(), mode)
    }
}

/// `s` sorted stably for the mode (equal entries keep their order).
pub open spec fn sort_entries(s: Seq<SongEntry>, mode: u8) -> Seq<SongEntry>
    decreases s.len(),
{
    if s.len() == 0 {
        Seq::empty()
    } else {
        insert_entry(s.last(), sort_entries(s.drop_last(), mode), mode)
    }
}

fn goes_before_exec(x: &SongEntry, e: &SongEntry, mode: u8) -> (b: bool)
    ensures
        b == goes_before(*x, *e, mode),
{
    if mode == 1 {
        x.file.size > e.file.size
    } else if mode == 2 {
        x.file.time > e.file.time
    } else {
        let a = display_title(&x.file);
        let b = display_title(&e.file);
        let ac = str_chars(a.as_str());
        let bc = str_chars(b.as_str());
        chars_less(ac.as_slice(), bc.as_slice())
    }
}

proof fn lemma_insert_entry_at(x: SongEntry, s: Seq<SongEntry>, mode: u8, p: int)
    requires
        0 <= p <= s.len(),
        forall|k: int| 0 <= k < p ==> !goes_before(x, #[trigger] s[k], mode),
        p == s.len() || goes_before(x, s[p], mode),
    ensures
        insert_entry(x, s, mode) == s.insert(p, x),
    decreases p,
{
    if p == 0 {
        if s.len() == 0 {
            assert(s.insert(0, x) =~= seq![x]);
        } else {
            assert(s.insert(0, x) =~= seq![x] + s);
        }
    } else {
        assert forall|k: int| 0 <= k < p - 1 implies !goes_before(x, #[trigger] s.drop_first()[k], mode) by {
            assert(s.drop_first()[k] == s[k + 1]);
        }
        assert(!goes_before(x, s[0], mode));
        lemma_insert_entry_at(x, s.drop_first(), mode, p - 1);
        assert(seq![s[0]] + s.drop_first().insert(p - 1, x) =~= s.insert(p, x));
    }
}

fn filter_and_sort(entries: &[SongEntry], query: &str, mode: u8, songs: bool) -> (r: Vec<SongEntry>)
    ensures
        r@ == sort_entries(search(entries@, query@, songs), mode),
{
    let t = str_chars(query);
    let tq = trim_chars(t.as_slice());
    let blank = tq.len() == 0;
    let tqs = string_from_chars(tq.as_slice());
    let q = to_lowercase(tqs.as_str());
    let qc = str_chars(q.as_str());
    let ghost found = search(entries@, query@, songs);
    let mut sorted: Vec<SongEntry> = Vec::new();
    let mut i: usize = 0;
    while i < entries.len()
        invariant
            i <= entries@.len(),
            tq@ == trim(query@),
            qc@ == lowercase(trim(query@)),
            blank == (trim(query@).len() == 0),
            sorted@ == sort_entries(search(entries@.take(i as int), query@, songs), mode),
        decreases entries@.len() - i,
    {
        assert(entries@.take(i + 1).drop_last() =~= entries@.take(i as int));
        assert(entries@.take(i + 1).last() == entries@[i as int]);
        let e = &entries[i];
        let keep = if blank {
            true
        } else {
            let lt = to_lowercase(e.file.title.as_str());
            let ln = to_lowercase(e.file.name.as_str());
            let ltc = str_chars(lt.as_str());
            let lnc = str_chars(ln.as_str());
            if songs {
                let la = to_lowercase(e.file.artist.as_str());
                let lac = str_chars(la.as_str());
                contains_chars(ltc.as_slice(), qc.as_slice()) || contains_chars(lac.as_slice(), qc.as_slice())
                    || contains_chars(lnc.as_slice(), qc.as_slice())
            } else {
                contains_chars(ltc.as_slice(), qc.as_slice()) || contains_chars(lnc.as_slice(), qc.as_slice())
            }
        };
        let ghost rest = search(entries@.take(i as int), query@, songs);
        assert(search(entries@.take(i + 1), query@, songs) == if keep { rest.push(*e) } else { rest });
        if keep {
            let x = SongEntry { file: copy_rio_file(&e.file), mem_unit: e.mem_unit };
            assert(x == *e);
            assert(rest.push(x).drop_last() =~= rest);
            assert(rest.push(x).last() == x);
            let ghost s0 = sorted@;
            let mut p: usize = 0;
            while p < sorted.len() && !goes_before_exec(&x, &sorted[p], mode)
                invariant
                    p <= sorted@.len(),
                    s0 == sorted@,
                    forall|k: int| 0 <= k < p ==> !goes_before(x, #[trigger] s0[k], mode),
                decreases sorted@.len() - p,
            {
                p = p + 1;
            }
            proof {
                lemma_insert_entry_at(x, s0, mode, p as int);
            }
            sorted.insert(p, x);
        }
        i = i + 1;
    }
    assert(entries@.take(entries@.len() as int) =~= entries@);
    sorted
}

/// The songs shown for a search and sort mode: a blank query keeps all;
/// otherwise those whose title, artist or file name contains the trimmed
/// query, ignoring case. Sort mode 1 puts larger files first, 2 longer
/// songs first, any other orders by shown title; ties keep their order.
pub fn filter_and_sort_songs(songs: &[SongEntry], query: &str, sort_by: u8) -> (r: Vec<SongEntry>)
    ensures
        r@ == sort_entries(search(songs@, query@, true), sort_by),
{
    filter_and_sort(songs, query, sort_by, true)
}

/// The playlists shown for a search and sort mode: as for songs, matching
/// title or name; sort mode 1 puts larger ones first, any other orders by
/// shown name.
pub fn filter_and_sort_playlists(playlists: &[SongEntry], query: &str, sort_by: u8) -> (r: Vec<SongEntry>)
    ensures
        r@ == sort_entries(search(playlists@, query@, false), if sort_by == 1 { 1u8 } else { 0u8 }),
{
    let mode: u8 = if sort_by == 1 { 1 } else { 0 };
    filter_and_sort(playlists, query, mode, false)
}

proof fn lemma_insert_entry_multiset(x: SongEntry, s: Seq<SongEntry>, mode: u8)
    ensures
        insert_entry(x, s, mode).to_multiset() =~= s.to_multiset().insert(x),
    decreases s.len(),
{
    broadcast use vstd::seq_lib::to_multiset_insert, vstd::multiset::group_multiset_axioms;

    if s.len() == 0 {
        assert(seq![x] =~= s.insert(0, x));
    } else if goes_before(x, s[0], mode) {
        assert(seq![x] + s =~= s.insert(0, x));
    } else {
        let rest = s.drop_first();
        lemma_insert_entry_multiset(x, rest, mode);
        let i = insert_entry(x, rest, mode);
        assert(seq![s[0]] + i =~= i.insert(0, s[0]));
        assert(s =~= rest.insert(0, s[0]));
    }
}

/// Sorting keeps every entry and adds none: the sorted list holds exactly
/// the entries it was given, each as often.
pub proof fn law_sort_is_permutation(s: Seq<SongEntry>, mode: u8)
    ensures
        sort_entries(s, mode).to_multiset() == s.to_multiset(),
    decreases s.len(),
{
    broadcast use vstd::seq_lib::to_multiset_build;

    if s.len() > 0 {
        law_sort_is_permutation(s.drop_last(), mode);
        lemma_insert_entry_multiset(s.last(), sort_entries(s.drop_last(), mode), mode);
        assert(s =~= s.drop_last().push(s.last()));
        assert(s.drop_last().push(s.last()).to_multiset() =~= s.drop_last().to_multiset().insert(s.last()));
    } else {
        assert(s =~= Seq::<SongEntry>::empty());
    }
}

proof fn lemma_chars_lt_asym(a: Seq<char>, b: Seq<char>)
    ensures
        chars_lt(a, b) ==> !chars_lt(b, a),
    decreases a.len(),
{
    if a.len() > 0 && b.len() > 0 && a[0] == b[0] {
        lemma_chars_lt_asym(a.drop_first(), b.drop_first());
    }
}

proof fn lemma_chars_lt_trans(a: Seq<char>, b: Seq<char>, c: Seq<char>)
    requires
        chars_lt(a, b),
        chars_lt(b, c),
    ensures
        chars_lt(a, c),
    decreases a.len(),
{
    if a.len() > 0 && a[0] == b[0] && b[0] == c[0] {
        lemma_chars_lt_trans(a.drop_first(), b.drop_first(), c.drop_first());
    }
}

proof fn lemma_goes_before_order(x: SongEntry, y: SongEntry, z: SongEntry, mode: u8)
    ensures
        goes_before(x, y, mode) ==> !goes_before(y, x, mode),
        goes_before(x, y, mode) && goes_before(y, z, mode) ==> goes_before(x, z, mode),
{
    let tx = shown_title(x.file.title@, x.file.name@);
    let ty = shown_title(y.file.title@, y.file.name@);
    let tz = shown_title(z.file.title@, z.file.name@);
    lemma_chars_lt_asym(tx, ty);
    if chars_lt(tx, ty) && chars_lt(ty, tz) {
        lemma_chars_lt_trans(tx, ty, tz);
    }
}

/// No entry goes before an entry ahead of it.
pub open spec fn sorted_for(s: Seq<SongEntry>, mode: u8) -> bool {
    forall|i: int, j: int| 0 <= i < j < s.len() ==> !goes_before(#[trigger] s[j], #[trigger] s[i], mode)
}

proof fn lemma_insert_sorted(x: SongEntry, s: Seq<SongEntry>, mode: u8)
    requires
        sorted_for(s, mode),
    ensures
        sorted_for(insert_entry(x, s, mode), mode),
        forall|k: int| 0 <= k < insert_entry(x, s, mode).len()
            ==> #[trigger] insert_entry(x, s, mode)[k] == x || s.contains(insert_entry(x, s, mode)[k]),
    decreases s.len(),
{
    let r = insert_entry(x, s, mode);
    if s.len() == 0 {
    } else if goes_before(x, s[0], mode) {
        assert(r == seq![x] + s);
        assert forall|i: int, j: int| 0 <= i < j < r.len() implies !goes_before(#[trigger] r[j], #[trigger] r[i], mode) by {
            if i == 0 {
                assert(r[j] == s[j - 1]);
                lemma_goes_before_order(x, s[0], s[j - 1], mode);
                lemma_goes_before_order(s[j - 1], x, s[0], mode);
                if j - 1 > 0 {
                    assert(!goes_before(s[j - 1], s[0], mode));
                }
            } else {
                assert(r[i] == s[i - 1] && r[j] == s[j - 1]);
            }
        }
        assert forall|k: int| 0 <= k < r.len() implies #[trigger] r[k] == x || s.contains(r[k]) by {
            if k > 0 {
                assert(r[k] == s[k - 1]);
            }
        }
    } else {
        let rest = s.drop_first();
        assert(sorted_for(rest, mode)) by {
            assert forall|i: int, j: int| 0 <= i < j < rest.len() implies !goes_before(#[trigger] rest[j], #[trigger] rest[i], mode) by {
                assert(rest[i] == s[i + 1] && rest[j] == s[j + 1]);
            }
        }
        lemma_insert_sorted(x, rest, mode);
        let t = insert_entry(x, rest, mode);
        assert(r == seq![s[0]] + t);
        assert forall|i: int, j: int| 0 <= i < j < r.len() implies !goes_before(#[trigger] r[j], #[trigger] r[i], mode) by {
            if i == 0 {
                assert(r[j] == t[j - 1]);
                if t[j - 1] != x {
                    assert(rest.contains(t[j - 1]));
                    let m = choose|m: int| 0 <= m < rest.len() && rest[m] == t[j - 1];
                    assert(s[m + 1] == rest[m]);
                    assert(!goes_before(s[m + 1], s[0], mode));
                }
            } else {
                assert(r[i] == t[i - 1] && r[j] == t[j - 1]);
            }
        }
        assert forall|k: int| 0 <= k < r.len() implies #[trigger] r[k] == x || s.contains(r[k]) by {
            if k == 0 {
                assert(s[0] == r[0]);
            } else {
                assert(r[k] == t[k - 1]);
                if t[k - 1] != x {
                    let m = choose|m: int| 0 <= m < rest.len() && rest[m] == t[k - 1];
                    assert(s[m + 1] == r[k]);
                }
            }
        }
    }
}

/// The sorted list is in order for its mode: no entry goes before one that
/// is ahead of it (larger, longer, or earlier by shown title, comes first).
pub proof fn law_sort_is_ordered(s: Seq<SongEntry>, mode: u8)
    ensures
        sorted_for(sort_entries(s, mode), mode),
    decreases s.len(),
{
    if s.len() > 0 {
        law_sort_is_ordered(s.drop_last(), mode);
        lemma_insert_sorted(s.last(), sort_entries(s.drop_last(), mode), mode);
    }
}

/// The entries have the same sort key for the mode: the same size, the
/// same length, or the same shown title.
pub open spec fn ties(x: SongEntry, y: SongEntry, mode: u8) -> bool {
    if mode == 1 {
        x.file.size == y.file.size
    } else if mode == 2 {
        x.file.time == y.file.time
    } else {
        shown_title(x.file.title@, x.file.name@) == shown_title(y.file.title@, y.file.name@)
    }
}

proof fn lemma_tie_facts(x: SongEntry, y: SongEntry, z: SongEntry, mode: u8)
    ensures
        !goes_before(x, x, mode),
        ties(x, y, mode) && ties(y, z, mode) ==> ties(x, z, mode),
        ties(x, y, mode) && goes_before(y, z, mode) ==> goes_before(x, z, mode),
{
    let tx = shown_title(x.file.title@, x.file.name@);
    lemma_chars_lt_asym(tx, tx);
}

proof fn lemma_insert_keeps_ties(x: SongEntry, t: Seq<SongEntry>, mode: u8, e: SongEntry)
    requires
        sorted_for(t, mode),
    ensures
        insert_entry(x, t, mode).filter(|y: SongEntry| ties(y, e, mode)) == (if ties(x, e, mode) {
            t.filter(|y: SongEntry| ties(y, e, mode)).push(x)
        } else {
            t.filter(|y: SongEntry| ties(y, e, mode))
        }),
    decreases t.len(),
{
    let p = |y: SongEntry| ties(y, e, mode);
    reveal_with_fuel(Seq::filter, 2);
    let one = seq![x];
    assert(one.drop_last() =~= Seq::<SongEntry>::empty());
    if t.len() == 0 {
        assert(t.filter(p) =~= Seq::<SongEntry>::empty());
    } else if goes_before(x, t[0], mode) {
        assert(insert_entry(x, t, mode) == one + t);
        Seq::filter_distributes_over_add(one, t, p);
        if ties(x, e, mode) {
            assert forall|j: int| 0 <= j < t.len() implies !p(#[trigger] t[j]) by {
                if p(t[j]) {
                    lemma_tie_facts(t[j], e, x, mode);
                    lemma_tie_facts(t[j], x, t[0], mode);
                    lemma_tie_facts(t[0], t[0], t[0], mode);
                    if j > 0 {
                        assert(!goes_before(t[j], t[0], mode));
                    }
                }
            }
            t.lemma_all_neg_filter_empty(p);
            assert(t.filter(p) =~= Seq::<SongEntry>::empty());
            assert(one.filter(p) =~= one);
            assert(one + t.filter(p) =~= t.filter(p).push(x));
        } else {
            assert(one.filter(p) =~= Seq::<SongEntry>::empty());
            assert(Seq::<SongEntry>::empty() + t.filter(p) =~= t.filter(p));
        }
    } else {
        let rest = t.drop_first();
        assert(sorted_for(rest, mode)) by {
            assert forall|i: int, j: int| 0 <= i < j < rest.len() implies !goes_before(#[trigger] rest[j], #[trigger] rest[i], mode) by {
                assert(rest[i] == t[i + 1] && rest[j] == t[j + 1]);
            }
        }
        lemma_insert_keeps_ties(x, rest, mode, e);
        let head = seq![t[0]];
        assert(head.drop_last() =~= Seq::<SongEntry>::empty());
        assert(insert_entry(x, t, mode) == head + insert_entry(x, rest, mode));
        Seq::filter_distributes_over_add(head, insert_entry(x, rest, mode), p);
        assert(t =~= head + rest);
        Seq::filter_distributes_over_add(head, rest, p);
        if ties(x, e, mode) {
            assert(head.filter(p) + rest.filter(p).push(x) =~= (head.filter(p) + rest.filter(p)).push(x));
        }
    }
}

/// Sorting is stable: entries that tie for the mode (same size, same
/// length, or same shown title) keep the order they had.
pub proof fn law_sort_is_stable(s: Seq<SongEntry>, mode: u8, e: SongEntry)
    ensures
        sort_entries(s, mode).filter(|y: SongEntry| ties(y, e, mode)) == s.filter(|y: SongEntry| ties(y, e, mode)),
    decreases s.len(),
{
    let p = |y: SongEntry| ties(y, e, mode);
    reveal_with_fuel(Seq::filter, 1);
    if s.len() > 0 {
        law_sort_is_stable(s.drop_last(), mode, e);
        law_sort_is_ordered(s.drop_last(), mode);
        lemma_insert_keeps_ties(s.last(), sort_entries(s.drop_last(), mode), mode, e);
    }
}

} // verus!

//! Uploading songs: ID3v2 tag reading, title processing and the file header
//! sent before the audio.
use vstd::prelude::*;
use vstd::slice::{slice_subrange, slice_to_vec};
use crate::id3::{id3v2_total_size, get_id3v2_size, syncsafe_size};
use crate::fixed_str::{until_nul, field_until_nul, nul_pos};
use crate::packets::{latin1_chars, latin1_string};
use crate::strings::{lossy_text, lossy_utf8, str_chars, string_from_chars, push_str};
use crate::strip::{StripOptions, strip_noise, spec_strip_noise};
use crate::slug::{SlugOptions, to_slug, spec_to_slug};
use crate::kana::string_views;
use crate::display::last_dot;
use crate::rio_file::{RioFile, RioFileView};
use crate::constants::TYPE_MP3;
use crate::error::{CyrioError, error_message};
use std::path::PathBuf;

verus! {

/// The characters that std's `String::from_utf16_lossy` decodes from `units`
/// (each unpaired surrogate becomes U+FFFD).
pub uninterp spec fn utf16_lossy(units: Seq<u16>) -> Seq<char>;

/// `String::from_utf16_lossy` of std. Claimed: the result is named
/// `utf16_lossy` of the code units.
#[verifier::external_body]
fn lossy_utf16(units: &[u16]) -> (s: String)
    ensures
        s@ == utf16_lossy(units@),
{
    String::from_utf16_lossy(units)
}

/// ID3v2 tags of a song.
#[derive(Debug, Clone)]
pub struct Id3Tags {
    /// Title (TIT2).
    pub title: String,
    /// Artist (TPE1).
    pub artist: String,
    /// Album (TALB).
    pub album: String,
    /// Year (TYER or TDRC).
    pub year: String,
    /// Genre (TCON).
    pub genre: String,
    /// Track number (TRCK).
    pub track: String,
    /// Composer (TCOM).
    pub composer: String,
    /// Cover picture (the data of the APIC frame).
    pub cover_art: Option<Vec<u8>>,
}

/// The value of `Id3Tags`.
pub struct Id3TagsView {
    pub title: Seq<char>,
    pub artist: Seq<char>,
    pub album: Seq<char>,
    pub year: Seq<char>,
    pub genre: Seq<char>,
    pub track: Seq<char>,
    pub composer: Seq<char>,
    pub cover_art: Option<Seq<u8>>,
}

impl View for Id3Tags {
    type V = Id3TagsView;

    open spec fn view(&self) -> Id3TagsView {
        Id3TagsView {
            title: self.title@,
            artist: self.artist@,
            album: self.album@,
            year: self.year@,
            genre: self.genre@,
            track: self.track@,
            composer: self.composer@,
            cover_art: match self.cover_art {
                Some(v) => Some(v@),
                None => None,
            },
        }
    }
}

/// Tags with every text empty and no picture.
pub open spec fn empty_tags() -> Id3TagsView {
    Id3TagsView {
        title: Seq::empty(),
        artist: Seq::empty(),
        album: Seq::empty(),
        year: Seq::empty(),
        genre: Seq::empty(),
        track: Seq::empty(),
        composer: Seq::empty(),
        cover_art: None,
    }
}

impl Default for Id3Tags {
    fn default() -> (t: Self)
        ensures
            t@ == empty_tags(),
    {
        Id3Tags {
            title: String::new(),
            artist: String::new(),
            album: String::new(),
            year: String::new(),
            genre: String::new(),
            track: String::new(),
            composer: String::new(),
            cover_art: None,
        }
    }
}

/// UTF-16 code units of `b`, two bytes each (little-endian when `le`), an
/// odd last byte dropped.
pub open spec fn utf16_units(b: Seq<u8>, le: bool) -> Seq<u16> {
    Seq::new(
        b.len() / 2,
        |i: int|
            if le {
                (b[2 * i] + 256 * b[2 * i + 1]) as u16
            } else {
                (256 * b[2 * i] + b[2 * i + 1]) as u16
            },
    )
}

/// The first position from `p` on that holds a zero code unit, or the length.
pub open spec fn zero_unit_from(u: Seq<u16>, p: int) -> int
    decreases u.len() - p,
{
    if p >= u.len() || u[p] == 0 {
        p
    } else {
        zero_unit_from(u, p + 1)
    }
}

/// The code units before the first zero unit.
pub open spec fn until_zero_unit(u: Seq<u16>) -> Seq<u16> {
    u.take(zero_unit_from(u, 0))
}

/// The text of an ID3 text frame. The first byte names the encoding: 0 is
/// ISO-8859-1 (one character per byte) and 3 UTF-8 (with replacement), both
/// ending at the first zero byte; 1 is UTF-16LE and 2 UTF-16BE, ending at
/// the first zero code unit. Empty for empty data or another encoding.
pub open spec fn spec_decode_id3_text(data: Seq<u8>) -> Seq<char> {
    if data.len() == 0 {
        Seq::empty()
    } else {
        let raw = data.skip(1);
        let e = data[0];
        if e == 0 {
            latin1_chars(until_nul(raw))
        } else if e == 3 {
            lossy_text(until_nul(raw))
        } else if e == 1 {
            utf16_lossy(until_zero_unit(utf16_units(raw, true)))
        } else if e == 2 {
            utf16_lossy(until_zero_unit(utf16_units(raw, false)))
        } else {
            Seq::empty()
        }
    }
}

/// The UTF-16 code units of `b` (see `utf16_units`) before the first zero unit.
fn utf16_until_zero(b: &[u8], le: bool) -> (u: Vec<u16>)
    ensures
        u@ == until_zero_unit(utf16_units(b@, le)),
{
    let ghost units = utf16_units(b@, le);
    let mut u: Vec<u16> = Vec::new();
    let n = b.len() / 2;
    let mut i: usize = 0;
    while i < n
        invariant
            n == b.len() / 2,
            units == utf16_units(b@, le),
            units.len() == n,
            i <= n,
            u@ =~= units.take(i as int),
            zero_unit_from(units, 0) == zero_unit_from(units, i as int),
        decreases n - i,
    {
        let lo = if le { b[2 * i] } else { b[2 * i + 1] };
        let hi = if le { b[2 * i + 1] } else { b[2 * i] };
        let unit: u16 = (lo as u16) + 256 * (hi as u16);
        assert(unit == units[i as int]);
        if unit == 0 {
            return u;
        }
        u.push(unit);
        i = i + 1;
    }
    u
}

/// Decodes an ID3 text frame (see `spec_decode_id3_text`).
pub fn decode_id3_text(data: &[u8]) -> (s: String)
    ensures
        s@ == spec_decode_id3_text(data@),
{
    if data.len() == 0 {
        return String::new();
    }
    let raw = slice_to_vec(slice_subrange(data, 1, data.len()));
    assert(raw@ =~= data@.skip(1));
    let e = data[0];
    if e == 0 {
        let t = field_until_nul(raw.as_slice(), 0, raw.len());
        assert(raw@.subrange(0, raw@.len() as int) =~= raw@);
        latin1_string(t)
    } else if e == 3 {
        let t = field_until_nul(raw.as_slice(), 0, raw.len());
        assert(raw@.subrange(0, raw@.len() as int) =~= raw@);
        lossy_utf8(t)
    } else if e == 1 {
        let u = utf16_until_zero(raw.as_slice(), true);
        lossy_utf16(u.as_slice())
    } else if e == 2 {
        let u = utf16_until_zero(raw.as_slice(), false);
        lossy_utf16(u.as_slice())
    } else {
        String::new()
    }
}

/// The first position from `p` on that holds a zero byte, or the length.
pub open spec fn zero_from(d: Seq<u8>, p: int) -> int
    decreases d.len() - p,
{
    if p >= d.len() || d[p] == 0 {
        p
    } else {
        zero_from(d, p + 1)
    }
}

/// The picture of an APIC frame: after the encoding byte, a zero-terminated
/// MIME type, the picture type byte and a zero-terminated description.
/// `None` for data shorter than 4 bytes or without picture bytes.
pub open spec fn spec_parse_apic(d: Seq<u8>) -> Option<Seq<u8>> {
    if d.len() < 4 {
        None
    } else {
        let p1 = zero_from(d, 1) + 1;
        if p1 >= d.len() {
            None
        } else {
            let p2 = zero_from(d, p1 + 1) + 1;
            if p2 < d.len() {
                Some(d.skip(p2))
            } else {
                None
            }
        }
    }
}

fn skip_to_zero(d: &[u8], p: usize) -> (q: usize)
    requires
        p <= d@.len(),
    ensures
        q as int == zero_from(d@, p as int),
        q <= d@.len(),
{
    let mut q = p;
    while q < d.len() && d[q] != 0
        invariant
            p <= q <= d@.len(),
            zero_from(d@, p as int) == zero_from(d@, q as int),
        decreases d@.len() - q,
    {
        q = q + 1;
    }
    q
}

/// Extracts the picture of an APIC frame (see `spec_parse_apic`).
pub fn parse_apic_frame(data: &[u8]) -> (r: Option<Vec<u8>>)
    ensures
        match r {
            Some(v) => spec_parse_apic(data@) == Some(v@),
            None => spec_parse_apic(data@) is None,
        },
{
    if data.len() < 4 {
        return None;
    }
    let q1 = skip_to_zero(data, 1);
    if q1 >= data.len() - 1 {
        return None;
    }
    let p1 = q1 + 1;
    let q2 = skip_to_zero(data, p1 + 1);
    if q2 < data.len() - 1 {
        let p2 = q2 + 1;
        let v = slice_to_vec(slice_subrange(data, p2, data.len()));
        assert(v@ =~= data@.skip(p2 as int));
        Some(v)
    } else {
        None
    }
}

/// The big-endian 32-bit value at `off`.
pub open spec fn be32_value(b: Seq<u8>, off: int) -> int {
    b[off] * 0x100_0000 + b[off + 1] * 0x1_0000 + b[off + 2] * 0x100 + b[off + 3]
}

/// Four bytes as a sequence.
pub open spec fn id4(a: u8, b: u8, c: u8, d: u8) -> Seq<u8> {
    seq![a, b, c, d]
}

/// `t` with the frame `id` (data `data`) taken into account: text frames set
/// their field, APIC sets the picture, others are ignored.
pub open spec fn apply_frame(t: Id3TagsView, id: Seq<u8>, data: Seq<u8>) -> Id3TagsView {
    if id == id4(0x54, 0x49, 0x54, 0x32) {
        Id3TagsView { title: spec_decode_id3_text(data), ..t }
    } else if id == id4(0x54, 0x50, 0x45, 0x31) {
        Id3TagsView { artist: spec_decode_id3_text(data), ..t }
    } else if id == id4(0x54, 0x41, 0x4c, 0x42) {
        Id3TagsView { album: spec_decode_id3_text(data), ..t }
    } else if id == id4(0x54, 0x59, 0x45, 0x52) || id == id4(0x54, 0x44, 0x52, 0x43) {
        Id3TagsView { year: spec_decode_id3_text(data), ..t }
    } else if id == id4(0x54, 0x43, 0x4f, 0x4e) {
        Id3TagsView { genre: spec_decode_id3_text(data), ..t }
    } else if id == id4(0x54, 0x52, 0x43, 0x4b) {
        Id3TagsView { track: spec_decode_id3_text(data), ..t }
    } else if id == id4(0x54, 0x43, 0x4f, 0x4d) {
        Id3TagsView { composer: spec_decode_id3_text(data), ..t }
    } else if id == id4(0x41, 0x50, 0x49, 0x43) {
        Id3TagsView { cover_art: spec_parse_apic(data), ..t }
    } else {
        t
    }
}

/// The tags of the frames of `body` from `pos` on: each frame is a 4-byte
/// id, a 4-byte big-endian size, 2 flag bytes and the data. The walk stops
/// at an all-zero id (padding) or a frame that runs past the end.
pub open spec fn tags_from(body: Seq<u8>, pos: int, t: Id3TagsView) -> Id3TagsView
    decreases body.len() - pos,
{
    if pos < 0 || pos + 10 > body.len() {
        t
    } else if body.subrange(pos, pos + 4) == id4(0, 0, 0, 0) {
        t
    } else {
        let size = be32_value(body, pos + 4);
        if pos + 10 + size > body.len() {
            t
        } else {
            tags_from(
                body,
                pos + 10 + size,
                apply_frame(t, body.subrange(pos, pos + 4), body.subrange(pos + 10, pos + 10 + size)),
            )
        }
    }
}

/// Whether `b` starts with "ID3".
pub open spec fn starts_with_id3(b: Seq<u8>) -> bool {
    b.len() >= 10 && b[0] == 0x49 && b[1] == 0x44 && b[2] == 0x33
}

/// The tags of an MP3 file: those of the frames of its ID3v2 tag; none when
/// there is no readable tag (none at all, one claiming more than 16 MiB, or
/// one running past the data).
pub open spec fn spec_read_id3_tags(b: Seq<u8>) -> Id3TagsView {
    if !starts_with_id3(b) {
        empty_tags()
    } else {
        let n = id3v2_total_size(b);
        if n > b.len() || n < 10 {
            empty_tags()
        } else {
            tags_from(b.subrange(10, n), 0, empty_tags())
        }
    }
}

fn id_is(body: &[u8], pos: usize, a: u8, b: u8, c: u8, d: u8) -> (r: bool)
    requires
        pos + 4 <= body@.len(),
    ensures
        r == (body@.subrange(pos as int, pos + 4) == id4(a, b, c, d)),
{
    let r = body[pos] == a && body[pos + 1] == b && body[pos + 2] == c && body[pos + 3] == d;
    assert(r ==> body@.subrange(pos as int, pos + 4) =~= id4(a, b, c, d));
    assert(body@.subrange(pos as int, pos + 4) == id4(a, b, c, d) ==> r) by {
        if body@.subrange(pos as int, pos + 4) == id4(a, b, c, d) {
            assert(body@.subrange(pos as int, pos + 4)[0] == a);
            assert(body@.subrange(pos as int, pos + 4)[1] == b);
            assert(body@.subrange(pos as int, pos + 4)[2] == c);
            assert(body@.subrange(pos as int, pos + 4)[3] == d);
        }
    }
    r
}

fn apply_frame_exec(tags: &mut Id3Tags, body: &[u8], pos: usize, data: &[u8])
    requires
        pos + 4 <= body@.len(),
    ensures
        final(tags)@ == apply_frame(old(tags)@, body@.subrange(pos as int, pos + 4), data@),
{
    if id_is(body, pos, 0x54, 0x49, 0x54, 0x32) {
        tags.title = decode_id3_text(data);
    } else if id_is(body, pos, 0x54, 0x50, 0x45, 0x31) {
        tags.artist = decode_id3_text(data);
    } else if id_is(body, pos, 0x54, 0x41, 0x4c, 0x42) {
        tags.album = decode_id3_text(data);
    } else if id_is(body, pos, 0x54, 0x59, 0x45, 0x52) || id_is(body, pos, 0x54, 0x44, 0x52, 0x43) {
        tags.year = decode_id3_text(data);
    } else if id_is(body, pos, 0x54, 0x43, 0x4f, 0x4e) {
        tags.genre = decode_id3_text(data);
    } else if id_is(body, pos, 0x54, 0x52, 0x43, 0x4b) {
        tags.track = decode_id3_text(data);
    } else if id_is(body, pos, 0x54, 0x43, 0x4f, 0x4d) {
        tags.composer = decode_id3_text(data);
    } else if id_is(body, pos, 0x41, 0x50, 0x49, 0x43) {
        tags.cover_art = parse_apic_frame(data);
    }
}

/// Reads the ID3v2 tags (v2.3/v2.4) at the start of an MP3 file: title,
/// artist, album, year, genre, track, composer and cover picture. Gives
/// empty tags rather than an error when there is no readable tag.
pub fn read_id3_tags(buf: &[u8]) -> (t: Id3Tags)
    ensures
        t@ == spec_read_id3_tags(buf@),
{
    let mut tags = Id3Tags::default();
    if buf.len() < 10 || buf[0] != 0x49 || buf[1] != 0x44 || buf[2] != 0x33 {
        return tags;
    }
    let n = get_id3v2_size(buf);
    if n > buf.len() || n < 10 {
        return tags;
    }
    let body = slice_subrange(buf, 10, n);
    let mut pos: usize = 0;
    let ghost target = tags_from(body@, 0, empty_tags());
    assert(target == spec_read_id3_tags(buf@));
    while body.len() - pos >= 10
        invariant
            pos <= body@.len(),
            target == spec_read_id3_tags(buf@),
            target == tags_from(body@, pos as int, tags@),
        decreases body@.len() - pos,
    {
        if id_is(body, pos, 0, 0, 0, 0) {
            return tags;
        }
        let size: usize = (body[pos + 4] as usize) * 0x100_0000 + (body[pos + 5] as usize) * 0x1_0000
            + (body[pos + 6] as usize) * 0x100 + (body[pos + 7] as usize);
        if size > body.len() - pos - 10 {
            return tags;
        }
        let data = slice_subrange(body, pos + 10, pos + 10 + size);
        apply_frame_exec(&mut tags, body, pos, data);
        pos = pos + 10 + size;
    }
    tags
}

/// How titles are processed on upload (set from the application settings).
#[derive(Debug, Clone)]
pub struct UploadTextOptions {
    /// Convert Chinese to pinyin and kana to romaji.
    pub apply_slug: bool,
    /// Remove noise words.
    pub apply_strip: bool,
    /// Remove bracketed asides.
    pub strip_parentheses: bool,
    /// Remove quoted asides.
    pub strip_quotes: bool,
    /// Remove the built-in quality and source tags.
    pub strip_quality_tags: bool,
    /// Further words to remove.
    pub custom_stop_words: Vec<String>,
}

impl Default for UploadTextOptions {
    fn default() -> (o: Self)
        ensures
            !o.apply_slug,
            !o.apply_strip,
            !o.strip_parentheses,
            !o.strip_quotes,
            !o.strip_quality_tags,
            o.custom_stop_words@.len() == 0,
    {
        UploadTextOptions {
            apply_slug: false,
            apply_strip: false,
            strip_parentheses: false,
            strip_quotes: false,
            strip_quality_tags: false,
            custom_stop_words: Vec::new(),
        }
    }
}

/// The default slug options: punctuation kept, '-' between words, capitals.
pub open spec fn default_slug() -> SlugOptions {
    SlugOptions { keep_punctuation: true, separator: '-', capitalize: true }
}

/// A title after processing: noise removed first (when asked), then the slug
/// taken with the default options (when asked).
pub open spec fn spec_process_title(t: Seq<char>, o: UploadTextOptions) -> Seq<char> {
    let s1 = if o.apply_strip {
        spec_strip_noise(
            t,
            o.strip_parentheses,
            o.strip_quotes,
            o.strip_quality_tags,
            string_views(o.custom_stop_words@),
        ).0
    } else {
        t
    };
    if o.apply_slug {
        spec_to_slug(s1, default_slug())
    } else {
        s1
    }
}

/// A copy of a list of strings.
pub fn copy_strings(v: &Vec<String>) -> (r: Vec<String>)
    ensures
        string_views(r@) == string_views(v@),
{
    let mut r: Vec<String> = Vec::new();
    let mut k: usize = 0;
    while k < v.len()
        invariant
            k <= v@.len(),
            r@.len() == k,
            forall|j: int| 0 <= j < k ==> (#[trigger] r@[j])@ == v@[j]@,
        decreases v@.len() - k,
    {
        r.push(v[k].clone());
        k = k + 1;
    }
    assert(string_views(r@) =~= string_views(v@));
    r
}

/// Processes a title for upload: removes noise first, then converts to a
/// slug, each when asked; with both off the title is returned unchanged.
pub fn process_title(title: &str, opts: &UploadTextOptions) -> (s: String)
    ensures
        s@ == spec_process_title(title@, *opts),
{
    let mut result = title.to_owned();
    if opts.apply_strip {
        let strip_opts = StripOptions {
            custom_stop_words: copy_strings(&opts.custom_stop_words),
            strip_parentheses: opts.strip_parentheses,
            strip_quotes: opts.strip_quotes,
            strip_quality_tags: opts.strip_quality_tags,
        };
        result = strip_noise(result.as_str(), &strip_opts).cleaned;
    }
    if opts.apply_slug {
        let slug_opts = SlugOptions::default();
        result = to_slug(result.as_str(), &slug_opts);
    }
    result
}

/// The device name of a file: "D:\" followed by the file name, unless it
/// already starts so.
pub open spec fn device_name(n: Seq<char>) -> Seq<char> {
    if n.len() >= 3 && n[0] == 'D' && n[1] == ':' && n[2] == '\\' {
        n
    } else {
        seq!['D', ':', '\\'] + n
    }
}

/// The header uploaded for `data` named `name`: the size of the audio
/// after the ID3v2 tag (cut to 32 bits), the ID3 title (or `stem` when it is
/// empty) processed with `o`, the ID3 artist and album, type MP3 and
/// modification time `now`; the device assigns file number and start.
pub open spec fn spec_upload_header(
    data: Seq<u8>,
    name: Seq<char>,
    o: UploadTextOptions,
    stem: Seq<char>,
    now: u32,
) -> RioFileView {
    let tags = spec_read_id3_tags(data);
    let title = if tags.title.len() > 0 { tags.title } else { stem };
    RioFileView {
        file_no: 0,
        start: 0,
        size: (data.len() - id3v2_total_size(data)) as u32,
        time: 0,
        mod_date: now,
        bits: 0,
        file_type: TYPE_MP3,
        sample_rate: 0,
        bit_rate: 0,
        name: device_name(name),
        title: spec_process_title(title, o),
        artist: tags.artist,
        album: tags.album,
    }
}

/// Whether `name` is a single path component on every platform: it holds
/// no '/', '\\' or ':' (Windows reads a drive prefix before ':').
pub open spec fn plain_component(name: Seq<char>) -> bool {
    forall|i: int| 0 <= i < name.len() ==> name[i] != '/' && name[i] != '\\' && name[i] != ':'
}

/// The stem std documents for a file name: none for "", "." and ".."; the
/// whole name when it has no '.' or only a leading one; otherwise the part
/// before the last '.'.
pub open spec fn std_file_stem(name: Seq<char>) -> Seq<char> {
    if name.len() == 0 || name == seq!['.'] || name == seq!['.', '.'] {
        Seq::empty()
    } else {
        match last_dot(name) {
            Some(k) => if k > 0 { name.take(k) } else { name },
            None => name,
        }
    }
}

/// `Path::file_stem` of std on `name` as text, "" when there is none. How a
/// path splits into components depends on the platform, so only names that
/// are one component everywhere are claimed: for them the file name is the
/// name itself ("" for "", "." and "..") and the stem is as std documents
/// (`std_file_stem`). Of other names nothing is claimed.
#[verifier::external_body]
fn path_file_stem(name: &str) -> (r: String)
    ensures
        plain_component(name@) ==> r@ == std_file_stem(name@),
{
    std::path::Path::new(name).file_stem().and_then(|n| n.to_str()).unwrap_or("").to_string()
}

/// `SystemTime::now` of std as whole seconds since the Unix epoch, cut to 32
/// bits (0 for a clock before the epoch). Nothing is claimed: the clock decides.
#[verifier::external_body]
fn unix_now_secs() -> u32 {
    std::time::SystemTime::now().duration_since(std::time::UNIX_EPOCH).map(|d| d.as_secs() as u32).unwrap_or(0)
}

/// Builds the upload header of a file from its data, its file name, its
/// stem (the name without extension) and the time `now`; also returns the
/// size of the ID3v2 tag, which is not uploaded.
pub fn build_upload_header_with(
    file_data: &[u8],
    file_name: &str,
    text_opts: &UploadTextOptions,
    file_stem: &str,
    now: u32,
) -> (r: (RioFile, usize))
    requires
        id3v2_total_size(file_data@) <= file_data@.len(),
    ensures
        r.0@ == spec_upload_header(file_data@, file_name@, *text_opts, file_stem@, now),
        r.1 as int == id3v2_total_size(file_data@),
{
    let id3v2_size = get_id3v2_size(file_data);
    let audio_len: usize = file_data.len() - id3v2_size;
    let tags = read_id3_tags(file_data);
    let nc = str_chars(file_name);
    let name_field = if nc.len() >= 3 && nc[0] == 'D' && nc[1] == ':' && nc[2] == '\\' {
        file_name.to_owned()
    } else {
        let mut v: Vec<char> = Vec::new();
        v.push('D');
        v.push(':');
        v.push('\\');
        push_str(&mut v, file_name);
        assert(v@ =~= seq!['D', ':', '\\'] + file_name@);
        string_from_chars(v.as_slice())
    };
    let base = if !tags.title.as_str().is_empty() {
        tags.title.as_str()
    } else {
        file_stem
    };
    let title = process_title(base, text_opts);
    let header = RioFile {
        file_no: 0,
        start: 0,
        size: audio_len as u32,
        time: 0,
        mod_date: now,
        bits: 0,
        file_type: TYPE_MP3,
        sample_rate: 0,
        bit_rate: 0,
        name: name_field,
        title,
        artist: tags.artist,
        album: tags.album,
    };
    (header, id3v2_size)
}

/// Builds the upload header of a file (see `build_upload_header_with`),
/// taking the stem from the file name by the platform's path rules (for a
/// plain name, the name before its last '.') and the time from the system
/// clock.
pub fn build_upload_header(file_data: &[u8], file_name: &str, text_opts: &UploadTextOptions) -> (r: (RioFile, usize))
    requires
        id3v2_total_size(file_data@) <= file_data@.len(),
    ensures
        exists|stem: Seq<char>, now: u32| {
            &&& r.0@ == spec_upload_header(file_data@, file_name@, *text_opts, stem, now)
            &&& plain_component(file_name@) ==> stem == std_file_stem(file_name@)
        },
        r.1 as int == id3v2_total_size(file_data@),
{
    let stem = path_file_stem(file_name);
    let now = unix_now_secs();
    build_upload_header_with(file_data, file_name, text_opts, stem.as_str(), now)
}

#[verifier::external_type_specification]
#[verifier::external_body]
pub struct ExPathBuf(PathBuf);

/// The outcome of uploading one file of a batch.
#[derive(Debug)]
pub struct UploadResult {
    /// The file's path.
    pub path: PathBuf,
    /// Whether the upload succeeded.
    pub success: bool,
    /// The file number on success, -1 on failure.
    pub file_no: i64,
    /// The error message on failure (empty on success).
    pub error: String,
}

/// The batch entry for `path` given how its upload ended.
pub fn upload_result(path: PathBuf, outcome: Result<u32, CyrioError>) -> (r: UploadResult)
    ensures
        r.path == path,
        match outcome {
            Ok(n) => r.success && r.file_no == n as i64 && r.error@.len() == 0,
            Err(e) => !r.success && r.file_no == -1 && r.error@ == error_message(e),
        },
{
    match outcome {
        Ok(file_no) => UploadResult { path, success: true, file_no: file_no as i64, error: String::new() },
        Err(e) => UploadResult { path, success: false, file_no: -1, error: e.to_string() },
    }
}

proof fn lemma_nul_pos(b: Seq<u8>, k: int)
    requires
        0 <= k <= b.len(),
        forall|j: int| 0 <= j < k ==> b[j] != 0,
        k == b.len() || b[k] == 0,
    ensures
        nul_pos(b) == k,
    decreases k,
{
    if k > 0 {
        lemma_nul_pos(b.drop_first(), k - 1);
    }
}

/// An ID3 text frame in ISO-8859-1 (encoding byte 0) reads as one character
/// per byte, each the character of that code, up to the first zero byte (or
/// the end); an encoding byte above 3 gives no text, and so does empty data.
pub proof fn law_id3_latin1_text(d: Seq<u8>, k: int)
    requires
        d.len() > 0,
        1 <= k <= d.len(),
        forall|j: int| 1 <= j < k ==> d[j] != 0,
        k == d.len() || d[k] == 0,
    ensures
        d[0] == 0 ==> spec_decode_id3_text(d).len() == k - 1
            && forall|j: int| 0 <= j < k - 1 ==> #[trigger] spec_decode_id3_text(d)[j] == (d[j + 1] as char),
        d[0] > 3 ==> spec_decode_id3_text(d).len() == 0,
        spec_decode_id3_text(Seq::empty()).len() == 0,
{
    let raw = d.skip(1);
    assert forall|j: int| 0 <= j < k - 1 implies raw[j] != 0 by {
        assert(raw[j] == d[j + 1]);
    }
    if k < d.len() {
        assert(raw[k - 1] == d[k]);
    }
    lemma_nul_pos(raw, k - 1);
}

proof fn lemma_one_frame_tag(b: Seq<u8>, id: Seq<u8>, d: Seq<u8>)
    requires
        id.len() == 4,
        b.len() >= 20 + d.len(),
        b[0] == 0x49 && b[1] == 0x44 && b[2] == 0x33,
        syncsafe_size(b) == 10 + d.len(),
        d.len() + 10 <= 16 * 1024 * 1024,
        b.subrange(10, 14) == id,
        be32_value(b, 14) == d.len(),
        b.subrange(20, 20 + d.len() as int) == d,
    ensures
        spec_read_id3_tags(b) == (if id == id4(0, 0, 0, 0) { empty_tags() } else { apply_frame(empty_tags(), id, d) }),
{
    let n = 20 + d.len();
    assert(id3v2_total_size(b) == n);
    let body = b.subrange(10, n as int);
    assert(body.subrange(0, 4) =~= id);
    assert(be32_value(body, 4) == be32_value(b, 14));
    assert(body.subrange(10, 10 + d.len() as int) =~= d);
    if id != id4(0, 0, 0, 0) {
        let t = apply_frame(empty_tags(), id, d);
        assert(tags_from(body, 10 + d.len() as int, t) == t);
    }
}

/// A tag holding a single frame gives that frame's field, and only that one:
/// TIT2 the title, TPE1 the artist, TALB the album, TYER or TDRC the year,
/// TCON the genre, TRCK the track, TCOM the composer (each the decoded text
/// of the frame's data), APIC the picture; every other field stays empty.
pub proof fn law_id3_frame_ids(b: Seq<u8>, id: Seq<u8>, d: Seq<u8>)
    requires
        id.len() == 4,
        b.len() >= 20 + d.len(),
        b[0] == 0x49 && b[1] == 0x44 && b[2] == 0x33,
        syncsafe_size(b) == 10 + d.len(),
        d.len() + 10 <= 16 * 1024 * 1024,
        b.subrange(10, 14) == id,
        be32_value(b, 14) == d.len(),
        b.subrange(20, 20 + d.len() as int) == d,
    ensures
        ({
            let r = spec_read_id3_tags(b);
            let text = spec_decode_id3_text(d);
            let none = Seq::<char>::empty();
            &&& r.title == (if id == seq![0x54u8, 0x49, 0x54, 0x32] { text } else { none })
            &&& r.artist == (if id == seq![0x54u8, 0x50, 0x45, 0x31] { text } else { none })
            &&& r.album == (if id == seq![0x54u8, 0x41, 0x4c, 0x42] { text } else { none })
            &&& r.year == (if id == seq![0x54u8, 0x59, 0x45, 0x52] || id == seq![0x54u8, 0x44, 0x52, 0x43] {
                text
            } else {
                none
            })
            &&& r.genre == (if id == seq![0x54u8, 0x43, 0x4f, 0x4e] { text } else { none })
            &&& r.track == (if id == seq![0x54u8, 0x52, 0x43, 0x4b] { text } else { none })
            &&& r.composer == (if id == seq![0x54u8, 0x43, 0x4f, 0x4d] { text } else { none })
            &&& r.cover_art == (if id == seq![0x41u8, 0x50, 0x49, 0x43] { spec_parse_apic(d) } else { None })
        }),
{
    lemma_one_frame_tag(b, id, d);
    let ids = seq![
        seq![0x54u8, 0x49, 0x54, 0x32],
        seq![0x54u8, 0x50, 0x45, 0x31],
        seq![0x54u8, 0x41, 0x4c, 0x42],
        seq![0x54u8, 0x59, 0x45, 0x52],
        seq![0x54u8, 0x44, 0x52, 0x43],
        seq![0x54u8, 0x43, 0x4f, 0x4e],
        seq![0x54u8, 0x52, 0x43, 0x4b],
        seq![0x54u8, 0x43, 0x4f, 0x4d],
        seq![0x41u8, 0x50, 0x49, 0x43],
        seq![0u8, 0, 0, 0],
    ];
    assert forall|i: int, j: int| 0 <= i < j < 10 implies ids[i] != ids[j] by {
        let x = ids[i];
        let y = ids[j];
        if x == y {
            assert(x[0] == y[0] && x[1] == y[1] && x[2] == y[2] && x[3] == y[3]);
        }
    }
    assert(id4(0x54, 0x49, 0x54, 0x32) == ids[0]);
    assert(id4(0x54, 0x50, 0x45, 0x31) == ids[1]);
    assert(id4(0x54, 0x41, 0x4c, 0x42) == ids[2]);
    assert(id4(0x54, 0x59, 0x45, 0x52) == ids[3]);
    assert(id4(0x54, 0x44, 0x52, 0x43) == ids[4]);
    assert(id4(0x54, 0x43, 0x4f, 0x4e) == ids[5]);
    assert(id4(0x54, 0x52, 0x43, 0x4b) == ids[6]);
    assert(id4(0x54, 0x43, 0x4f, 0x4d) == ids[7]);
    assert(id4(0x41, 0x50, 0x49, 0x43) == ids[8]);
    assert(id4(0, 0, 0, 0) == ids[9]);
}

/// With both slug and noise removal off, a title is uploaded as it is.
pub proof fn law_process_title_unchanged_when_off(t: Seq<char>, o: UploadTextOptions)
    requires
        !o.apply_slug,
        !o.apply_strip,
    ensures
        spec_process_title(t, o) == t,
{
}

} // verus!

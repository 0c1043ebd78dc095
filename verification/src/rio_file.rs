//! The 2048-byte file header record (`rio_file_t`).
//!
//! Numbers are little-endian `u32`; the name, title, artist and album fields
//! are 64 bytes of UTF-8 padded with NUL. Written headers never carry bit 0
//! of `bits` (with it the firmware double-encodes names) and always carry
//! `0x110`. Headers read back from older files may be double-encoded or GBK;
//! the string reader recovers them.
use vstd::prelude::*;
use vstd::utf8::{encode_utf8, decode_utf8, valid_utf8};
use crate::bytes::{le32_at, le32_bytes, splice, read_u32_le, write_u32_le, lemma_le32_roundtrip, lemma_splice};
use crate::constants::{
    OFF_FILE_NO, OFF_START, OFF_SIZE, OFF_TIME, OFF_MOD_DATE, OFF_BITS, OFF_TYPE, OFF_SAMPLE_RATE,
    OFF_BIT_RATE, OFF_NAME, OFF_TITLE, OFF_ARTIST, OFF_ALBUM, RIO_FILE_SIZE, RIO_STRING_LEN,
};
use crate::error::CyrioError;
use crate::fixed_str::{field_bytes, until_nul, field_until_nul, write_fixed_string, text_fits, lemma_field_text};
use crate::packets::{zeros, latin1_chars};
use crate::strings::{dec_digits, push_decimal, push_str, string_from_chars, str_chars};
use crate::utf8::decode_utf8_strict;

verus! {

/// What `GBK.decode_without_bom_handling` of encoding_rs returns for
/// `bytes`: the decoded text and whether a malformed sequence was met.
pub uninterp spec fn gbk_decode(bytes: Seq<u8>) -> (Seq<char>, bool);

/// Decodes `bytes` as GBK (`encoding_rs::GBK.decode_without_bom_handling`).
/// Claimed: the text and the error flag are the named result for these bytes.
#[verifier::external_body]
fn decode_gbk(bytes: &[u8]) -> (r: (String, bool))
    ensures
        (r.0@, r.1) == gbk_decode(bytes@),
{
    let (text, had_errors) = encoding_rs::GBK.decode_without_bom_handling(bytes);
    (text.into_owned(), had_errors)
}

/// File metadata, one header record.
#[derive(Debug, Clone, PartialEq, Eq, Default)]
pub struct RioFile {
    /// File number assigned by the device (0 marks an empty slot).
    pub file_no: u32,
    /// Flash offset (0 on upload).
    pub start: u32,
    /// Size in bytes.
    pub size: u32,
    /// Duration in seconds.
    pub time: u32,
    /// Modification time (Unix seconds).
    pub mod_date: u32,
    /// Flag bits.
    pub bits: u32,
    /// File type (`TYPE_MP3`, `TYPE_PLS`, ...).
    pub file_type: u32,
    /// Sample rate in Hz.
    pub sample_rate: u32,
    /// Bit rate, kbps shifted left by 7.
    pub bit_rate: u32,
    /// File name.
    pub name: String,
    /// Title.
    pub title: String,
    /// Artist.
    pub artist: String,
    /// Album.
    pub album: String,
}

/// The value of a `RioFile`, strings as character sequences.
pub struct RioFileView {
    pub file_no: u32,
    pub start: u32,
    pub size: u32,
    pub time: u32,
    pub mod_date: u32,
    pub bits: u32,
    pub file_type: u32,
    pub sample_rate: u32,
    pub bit_rate: u32,
    pub name: Seq<char>,
    pub title: Seq<char>,
    pub artist: Seq<char>,
    pub album: Seq<char>,
}

impl View for RioFile {
    type V = RioFileView;

    open spec fn view(&self) -> RioFileView {
        RioFileView {
            file_no: self.file_no,
            start: self.start,
            size: self.size,
            time: self.time,
            mod_date: self.mod_date,
            bits: self.bits,
            file_type: self.file_type,
            sample_rate: self.sample_rate,
            bit_rate: self.bit_rate,
            name: self.name@,
            title: self.title@,
            artist: self.artist@,
            album: self.album@,
        }
    }
}

/// The header with all numbers zero and empty strings.
pub open spec fn empty_rio_file_view() -> RioFileView {
    RioFileView {
        file_no: 0,
        start: 0,
        size: 0,
        time: 0,
        mod_date: 0,
        bits: 0,
        file_type: 0,
        sample_rate: 0,
        bit_rate: 0,
        name: Seq::empty(),
        title: Seq::empty(),
        artist: Seq::empty(),
        album: Seq::empty(),
    }
}

impl RioFile {
    /// A header with all numbers zero and empty strings.
    pub fn empty() -> (f: RioFile)
        ensures
            f@ == empty_rio_file_view(),
    {
        RioFile {
            file_no: 0,
            start: 0,
            size: 0,
            time: 0,
            mod_date: 0,
            bits: 0,
            file_type: 0,
            sample_rate: 0,
            bit_rate: 0,
            name: String::new(),
            title: String::new(),
            artist: String::new(),
            album: String::new(),
        }
    }
}

/// The bits written for `bits`: bit 0 cleared, `0x110` set, every other bit
/// kept.
pub open spec fn written_bits(bits: u32) -> u32 {
    (bits & !1u32) | 0x110
}

/// The bits written by an overwrite: bit 0 cleared, `0x110` set.
pub open spec fn overwritten_bits(bits: u32) -> u32 {
    (bits & !1u32) | 0x110
}

/// The 2048 bytes written for a header.
pub open spec fn spec_serialize_rio_file(f: RioFileView) -> Seq<u8> {
    let b = zeros(2048);
    let b = splice(b, OFF_FILE_NO as int, le32_bytes(f.file_no));
    let b = splice(b, OFF_START as int, le32_bytes(f.start));
    let b = splice(b, OFF_SIZE as int, le32_bytes(f.size));
    let b = splice(b, OFF_TIME as int, le32_bytes(f.time));
    let b = splice(b, OFF_MOD_DATE as int, le32_bytes(f.mod_date));
    let b = splice(b, OFF_BITS as int, le32_bytes(written_bits(f.bits)));
    let b = splice(b, OFF_TYPE as int, le32_bytes(f.file_type));
    let b = splice(b, OFF_SAMPLE_RATE as int, le32_bytes(f.sample_rate));
    let b = splice(b, OFF_BIT_RATE as int, le32_bytes(f.bit_rate));
    let b = splice(b, OFF_NAME as int, field_bytes(f.name, 64));
    let b = splice(b, OFF_TITLE as int, field_bytes(f.title, 64));
    let b = splice(b, OFF_ARTIST as int, field_bytes(f.artist, 64));
    splice(b, OFF_ALBUM as int, field_bytes(f.album, 64))
}

/// Writes a header: numbers little-endian, bits with bit 0 cleared and
/// `0x110` set, strings as
/// NUL-padded UTF-8 cut to 64 bytes, everything else zero.
pub fn serialize_rio_file(file: &RioFile) -> (buf: [u8; 2048])
    ensures
        buf@ == spec_serialize_rio_file(file@),
{
    let mut buf = [0u8; 2048];
    assert(buf@ =~= zeros(2048));
    write_u32_le(&mut buf, OFF_FILE_NO, file.file_no);
    write_u32_le(&mut buf, OFF_START, file.start);
    write_u32_le(&mut buf, OFF_SIZE, file.size);
    write_u32_le(&mut buf, OFF_TIME, file.time);
    write_u32_le(&mut buf, OFF_MOD_DATE, file.mod_date);
    write_u32_le(&mut buf, OFF_BITS, (file.bits & !1u32) | 0x110);
    write_u32_le(&mut buf, OFF_TYPE, file.file_type);
    write_u32_le(&mut buf, OFF_SAMPLE_RATE, file.sample_rate);
    write_u32_le(&mut buf, OFF_BIT_RATE, file.bit_rate);
    write_fixed_string(&mut buf, OFF_NAME, RIO_STRING_LEN, file.name.as_str());
    write_fixed_string(&mut buf, OFF_TITLE, RIO_STRING_LEN, file.title.as_str());
    write_fixed_string(&mut buf, OFF_ARTIST, RIO_STRING_LEN, file.artist.as_str());
    write_fixed_string(&mut buf, OFF_ALBUM, RIO_STRING_LEN, file.album.as_str());
    buf
}

/// Some byte of `b` is at least 0x80.
pub open spec fn has_high_byte(b: Seq<u8>) -> bool {
    exists|i: int| 0 <= i < b.len() && b[i] >= 0x80
}

/// Every character of `s` is at most U+00FF.
pub open spec fn all_latin1(s: Seq<char>) -> bool {
    forall|i: int| 0 <= i < s.len() ==> (s[i] as u32) <= 0xFF
}

/// The Latin-1 bytes of characters that are all at most U+00FF.
pub open spec fn latin1_bytes(s: Seq<char>) -> Seq<u8> {
    Seq::new(s.len(), |i: int| (s[i] as u32) as u8)
}

/// The text of a string field's bytes (those before the first NUL).
///
/// Valid UTF-8 is decoded; if it has bytes from 0x80 on but decodes only to
/// characters up to U+00FF, it is taken as double-encoded: its characters'
/// Latin-1 bytes are decoded as UTF-8, else as GBK, else the first decoding
/// stands. Bytes that are not UTF-8 are decoded as GBK, else read as Latin-1.
pub open spec fn decode_field_text(b: Seq<u8>) -> Seq<char> {
    if b.len() == 0 {
        Seq::empty()
    } else if valid_utf8(b) {
        let s = decode_utf8(b);
        if has_high_byte(b) && all_latin1(s) {
            let l = latin1_bytes(s);
            if valid_utf8(l) {
                decode_utf8(l)
            } else if !gbk_decode(l).1 {
                gbk_decode(l).0
            } else {
                s
            }
        } else {
            s
        }
    } else if !gbk_decode(b).1 {
        gbk_decode(b).0
    } else {
        latin1_chars(b)
    }
}

/// The text of the 64-byte field at `off`.
pub open spec fn file_field_text(buf: Seq<u8>, off: int) -> Seq<char> {
    decode_field_text(until_nul(buf.subrange(off, off + 64)))
}

/// The header read from `buf` (at least 2048 bytes).
pub open spec fn spec_parse_rio_file(buf: Seq<u8>) -> RioFileView {
    RioFileView {
        file_no: le32_at(buf, OFF_FILE_NO as int),
        start: le32_at(buf, OFF_START as int),
        size: le32_at(buf, OFF_SIZE as int),
        time: le32_at(buf, OFF_TIME as int),
        mod_date: le32_at(buf, OFF_MOD_DATE as int),
        bits: le32_at(buf, OFF_BITS as int),
        file_type: le32_at(buf, OFF_TYPE as int),
        sample_rate: le32_at(buf, OFF_SAMPLE_RATE as int),
        bit_rate: le32_at(buf, OFF_BIT_RATE as int),
        name: file_field_text(buf, OFF_NAME as int),
        title: file_field_text(buf, OFF_TITLE as int),
        artist: file_field_text(buf, OFF_ARTIST as int),
        album: file_field_text(buf, OFF_ALBUM as int),
    }
}

/// Reading a header looks at its first 2048 bytes only: whatever follows
/// them changes nothing.
pub proof fn law_parse_reads_first_2048_bytes(buf: Seq<u8>)
    requires
        buf.len() >= 2048,
    ensures
        spec_parse_rio_file(buf) == spec_parse_rio_file(buf.take(2048)),
{
    let h = buf.take(2048);
    assert(buf.subrange(0xc0, 0x100) =~= h.subrange(0xc0, 0x100));
    assert(buf.subrange(0x100, 0x140) =~= h.subrange(0x100, 0x140));
    assert(buf.subrange(0x140, 0x180) =~= h.subrange(0x140, 0x180));
    assert(buf.subrange(0x180, 0x1c0) =~= h.subrange(0x180, 0x1c0));
}

fn latin1_string_of(b: &[u8]) -> (s: String)
    ensures
        s@ == latin1_chars(b@),
{
    let mut v: Vec<char> = Vec::new();
    let mut i: usize = 0;
    while i < b.len()
        invariant
            i <= b@.len(),
            v@ == latin1_chars(b@.take(i as int)),
        decreases b@.len() - i,
    {
        v.push(b[i] as char);
        i = i + 1;
        assert(v@ =~= latin1_chars(b@.take(i as int)));
    }
    assert(b@.take(b@.len() as int) =~= b@);
    string_from_chars(v.as_slice())
}

fn any_high_byte(b: &[u8]) -> (r: bool)
    ensures
        r == has_high_byte(b@),
{
    let mut i: usize = 0;
    while i < b.len()
        invariant
            i <= b@.len(),
            forall|k: int| 0 <= k < i ==> b@[k] < 0x80,
        decreases b@.len() - i,
    {
        if b[i] >= 0x80 {
            return true;
        }
        i = i + 1;
    }
    false
}

/// The Latin-1 bytes of `s`, or `None` if some character is above U+00FF.
fn latin1_bytes_of(s: &[char]) -> (r: Option<Vec<u8>>)
    ensures
        r is Some <==> all_latin1(s@),
        r matches Some(v) ==> v@ == latin1_bytes(s@),
{
    let mut v: Vec<u8> = Vec::new();
    let mut i: usize = 0;
    while i < s.len()
        invariant
            i <= s@.len(),
            forall|k: int| 0 <= k < i ==> (s@[k] as u32) <= 0xFF,
            v@ == latin1_bytes(s@.take(i as int)),
        decreases s@.len() - i,
    {
        let c = s[i] as u32;
        if c > 0xFF {
            return None;
        }
        v.push(c as u8);
        i = i + 1;
        assert(v@ =~= latin1_bytes(s@.take(i as int)));
    }
    assert(s@.take(s@.len() as int) =~= s@);
    Some(v)
}

/// Reads the string field of length `max` at `off`: the bytes before its
/// first NUL, decoded as `decode_field_text` describes.
pub fn read_fixed_string(buf: &[u8], off: usize, max: usize) -> (s: String)
    requires
        off + max <= buf@.len(),
    ensures
        s@ == decode_field_text(until_nul(buf@.subrange(off as int, off + max))),
{
    let bytes = field_until_nul(buf, off, max);
    if bytes.len() == 0 {
        return String::new();
    }
    match decode_utf8_strict(bytes) {
        Some(chars) => {
            if any_high_byte(bytes) {
                match latin1_bytes_of(chars.as_slice()) {
                    Some(l) => {
                        match decode_utf8_strict(l.as_slice()) {
                            Some(recovered) => {
                                return string_from_chars(recovered.as_slice());
                            },
                            None => {},
                        }
                        let (text, had_errors) = decode_gbk(l.as_slice());
                        if !had_errors {
                            return text;
                        }
                    },
                    None => {},
                }
            }
            string_from_chars(chars.as_slice())
        },
        None => {
            let (text, had_errors) = decode_gbk(bytes);
            if !had_errors {
                return text;
            }
            latin1_string_of(bytes)
        },
    }
}

/// The message of the error for a short buffer.
pub open spec fn file_too_short_message(len: nat) -> Seq<char> {
    "parse_rio_file: buffer too short (got "@ + dec_digits(len) + ", need 2048)"@
}

/// Reads a header; a buffer shorter than 2048 bytes is a `Parse` error.
/// Bytes outside the known fields are ignored.
pub fn parse_rio_file(buf: &[u8]) -> (res: Result<RioFile, CyrioError>)
    ensures
        buf@.len() >= 2048 <==> res is Ok,
        res matches Ok(f) ==> f@ == spec_parse_rio_file(buf@),
        res matches Err(e) ==> e matches CyrioError::Parse(msg) && msg@ == file_too_short_message(
            buf@.len(),
        ),
{
    if buf.len() < RIO_FILE_SIZE {
        let mut out: Vec<char> = Vec::new();
        push_str(&mut out, "parse_rio_file: buffer too short (got ");
        push_decimal(&mut out, buf.len() as u64);
        push_str(&mut out, ", need 2048)");
        return Err(CyrioError::Parse(string_from_chars(out.as_slice())));
    }
    Ok(RioFile {
        file_no: read_u32_le(buf, OFF_FILE_NO),
        start: read_u32_le(buf, OFF_START),
        size: read_u32_le(buf, OFF_SIZE),
        time: read_u32_le(buf, OFF_TIME),
        mod_date: read_u32_le(buf, OFF_MOD_DATE),
        bits: read_u32_le(buf, OFF_BITS),
        file_type: read_u32_le(buf, OFF_TYPE),
        sample_rate: read_u32_le(buf, OFF_SAMPLE_RATE),
        bit_rate: read_u32_le(buf, OFF_BIT_RATE),
        name: read_fixed_string(buf, OFF_NAME, RIO_STRING_LEN),
        title: read_fixed_string(buf, OFF_TITLE, RIO_STRING_LEN),
        artist: read_fixed_string(buf, OFF_ARTIST, RIO_STRING_LEN),
        album: read_fixed_string(buf, OFF_ALBUM, RIO_STRING_LEN),
    })
}

/// Field values to overwrite in an existing header; `None` keeps a field.
#[derive(Debug, Clone, Default)]
pub struct RioFileUpdates {
    /// File number.
    pub file_no: Option<u32>,
    /// Flash offset.
    pub start: Option<u32>,
    /// Size.
    pub size: Option<u32>,
    /// Duration in seconds.
    pub time: Option<u32>,
    /// Modification time.
    pub mod_date: Option<u32>,
    /// Flag bits (written with bit 0 cleared and `0x110` set).
    pub bits: Option<u32>,
    /// File type.
    pub file_type: Option<u32>,
    /// Sample rate.
    pub sample_rate: Option<u32>,
    /// Bit rate.
    pub bit_rate: Option<u32>,
    /// File name.
    pub name: Option<String>,
    /// Title.
    pub title: Option<String>,
    /// Artist.
    pub artist: Option<String>,
    /// Album.
    pub album: Option<String>,
}

/// The value of `RioFileUpdates`, strings as character sequences.
pub struct RioFileUpdatesView {
    pub file_no: Option<u32>,
    pub start: Option<u32>,
    pub size: Option<u32>,
    pub time: Option<u32>,
    pub mod_date: Option<u32>,
    pub bits: Option<u32>,
    pub file_type: Option<u32>,
    pub sample_rate: Option<u32>,
    pub bit_rate: Option<u32>,
    pub name: Option<Seq<char>>,
    pub title: Option<Seq<char>>,
    pub artist: Option<Seq<char>>,
    pub album: Option<Seq<char>>,
}

/// The view of an optional string.
pub open spec fn opt_text(s: Option<String>) -> Option<Seq<char>> {
    match s {
        Some(x) => Some(x@),
        None => None,
    }
}

impl View for RioFileUpdates {
    type V = RioFileUpdatesView;

    open spec fn view(&self) -> RioFileUpdatesView {
        RioFileUpdatesView {
            file_no: self.file_no,
            start: self.start,
            size: self.size,
            time: self.time,
            mod_date: self.mod_date,
            bits: self.bits,
            file_type: self.file_type,
            sample_rate: self.sample_rate,
            bit_rate: self.bit_rate,
            name: opt_text(self.name),
            title: opt_text(self.title),
            artist: opt_text(self.artist),
            album: opt_text(self.album),
        }
    }
}

/// `b` with the number at `off` replaced when `v` is `Some`.
pub open spec fn opt_num(b: Seq<u8>, off: int, v: Option<u32>) -> Seq<u8> {
    match v {
        Some(x) => splice(b, off, le32_bytes(x)),
        None => b,
    }
}

/// `b` with the string field at `off` replaced when `v` is `Some`.
pub open spec fn opt_text_field(b: Seq<u8>, off: int, v: Option<Seq<char>>) -> Seq<u8> {
    match v {
        Some(x) => splice(b, off, field_bytes(x, 64)),
        None => b,
    }
}

/// The bits value written by an overwrite, if any.
pub open spec fn opt_bits(v: Option<u32>) -> Option<u32> {
    match v {
        Some(x) => Some(overwritten_bits(x)),
        None => None,
    }
}

/// A header after overwriting the fields given in `u`.
pub open spec fn spec_overwrite_rio_file_fields(buf: Seq<u8>, u: RioFileUpdatesView) -> Seq<u8> {
    let b = opt_num(buf, OFF_FILE_NO as int, u.file_no);
    let b = opt_num(b, OFF_START as int, u.start);
    let b = opt_num(b, OFF_SIZE as int, u.size);
    let b = opt_num(b, OFF_TIME as int, u.time);
    let b = opt_num(b, OFF_MOD_DATE as int, u.mod_date);
    let b = opt_num(b, OFF_BITS as int, opt_bits(u.bits));
    let b = opt_num(b, OFF_TYPE as int, u.file_type);
    let b = opt_num(b, OFF_SAMPLE_RATE as int, u.sample_rate);
    let b = opt_num(b, OFF_BIT_RATE as int, u.bit_rate);
    let b = opt_text_field(b, OFF_NAME as int, u.name);
    let b = opt_text_field(b, OFF_TITLE as int, u.title);
    let b = opt_text_field(b, OFF_ARTIST as int, u.artist);
    opt_text_field(b, OFF_ALBUM as int, u.album)
}

fn overwrite_num(buf: &mut [u8; 2048], off: usize, v: Option<u32>)
    requires
        off + 4 <= 2048,
    ensures
        final(buf)@ == opt_num(old(buf)@, off as int, v),
{
    if let Some(x) = v {
        write_u32_le(buf, off, x);
    }
}

fn overwrite_text(buf: &mut [u8; 2048], off: usize, v: &Option<String>)
    requires
        off + 64 <= 2048,
    ensures
        final(buf)@ == opt_text_field(old(buf)@, off as int, opt_text(*v)),
{
    if let Some(x) = v {
        write_fixed_string(buf, off, RIO_STRING_LEN, x.as_str());
    }
}

/// Overwrites the fields given in `updates` in a header read from the
/// device, keeping every other byte (unknown fields such as those of
/// S-Series playlists). Bits are written with bit 0 cleared and `0x110` set.
pub fn overwrite_rio_file_fields(header_buffer: &mut [u8; 2048], updates: &RioFileUpdates)
    ensures
        final(header_buffer)@ == spec_overwrite_rio_file_fields(old(header_buffer)@, updates@),
{
    overwrite_num(header_buffer, OFF_FILE_NO, updates.file_no);
    overwrite_num(header_buffer, OFF_START, updates.start);
    overwrite_num(header_buffer, OFF_SIZE, updates.size);
    overwrite_num(header_buffer, OFF_TIME, updates.time);
    overwrite_num(header_buffer, OFF_MOD_DATE, updates.mod_date);
    let bits = match updates.bits {
        Some(x) => Some((x & !1u32) | 0x110),
        None => None,
    };
    overwrite_num(header_buffer, OFF_BITS, bits);
    overwrite_num(header_buffer, OFF_TYPE, updates.file_type);
    overwrite_num(header_buffer, OFF_SAMPLE_RATE, updates.sample_rate);
    overwrite_num(header_buffer, OFF_BIT_RATE, updates.bit_rate);
    overwrite_text(header_buffer, OFF_NAME, &updates.name);
    overwrite_text(header_buffer, OFF_TITLE, &updates.title);
    overwrite_text(header_buffer, OFF_ARTIST, &updates.artist);
    overwrite_text(header_buffer, OFF_ALBUM, &updates.album);
}

/// Byte `i` of a header belongs to one of the fields that the library reads
/// and writes.
pub open spec fn in_known_field(i: int) -> bool {
    (0 <= i < 0x1c) || (0x24 <= i < 0x2c) || (0xc0 <= i < 0x1c0)
}

/// Byte `i` lies in a numeric field at `off` that the update `v` writes.
pub open spec fn num_touched(off: int, v: Option<u32>, i: int) -> bool {
    v is Some && off <= i < off + 4
}

/// Byte `i` lies in a string field at `off` that the update `v` writes.
pub open spec fn text_touched(off: int, v: Option<Seq<char>>, i: int) -> bool {
    v is Some && off <= i < off + 64
}

/// Byte `i` of a header lies in a field that the updates `u` write.
pub open spec fn update_touches(u: RioFileUpdatesView, i: int) -> bool {
    ||| num_touched(OFF_FILE_NO as int, u.file_no, i)
    ||| num_touched(OFF_START as int, u.start, i)
    ||| num_touched(OFF_SIZE as int, u.size, i)
    ||| num_touched(OFF_TIME as int, u.time, i)
    ||| num_touched(OFF_MOD_DATE as int, u.mod_date, i)
    ||| num_touched(OFF_BITS as int, u.bits, i)
    ||| num_touched(OFF_TYPE as int, u.file_type, i)
    ||| num_touched(OFF_SAMPLE_RATE as int, u.sample_rate, i)
    ||| num_touched(OFF_BIT_RATE as int, u.bit_rate, i)
    ||| text_touched(OFF_NAME as int, u.name, i)
    ||| text_touched(OFF_TITLE as int, u.title, i)
    ||| text_touched(OFF_ARTIST as int, u.artist, i)
    ||| text_touched(OFF_ALBUM as int, u.album, i)
}

/// An overwrite keeps every byte of the header outside the fields it was
/// given: unknown fields, and known fields left `None`, stay as they were;
/// the bits it was given land at 0x14 with bit 0 cleared and 0x110 set.
pub proof fn law_overwrite_writes_only_given_fields(buf: Seq<u8>, u: RioFileUpdatesView)
    requires
        buf.len() == 2048,
    ensures
        spec_overwrite_rio_file_fields(buf, u).len() == 2048,
        forall|i: int| 0 <= i < 2048 && !update_touches(u, i) ==> #[trigger] spec_overwrite_rio_file_fields(buf, u)[i] == buf[i],
        u.bits matches Some(b) ==> spec_overwrite_rio_file_fields(buf, u).subrange(0x14, 0x18)
            == le32_bytes(overwritten_bits(b)),
{
    lemma_opt_num(buf, 0x00, u.file_no);
    let b1 = opt_num(buf, 0x00, u.file_no);
    lemma_opt_num(b1, 0x04, u.start);
    let b2 = opt_num(b1, 0x04, u.start);
    lemma_opt_num(b2, 0x08, u.size);
    let b3 = opt_num(b2, 0x08, u.size);
    lemma_opt_num(b3, 0x0c, u.time);
    let b4 = opt_num(b3, 0x0c, u.time);
    lemma_opt_num(b4, 0x10, u.mod_date);
    let b5 = opt_num(b4, 0x10, u.mod_date);
    lemma_opt_num(b5, 0x14, opt_bits(u.bits));
    let b6 = opt_num(b5, 0x14, opt_bits(u.bits));
    lemma_opt_num(b6, 0x18, u.file_type);
    let b7 = opt_num(b6, 0x18, u.file_type);
    lemma_opt_num(b7, 0x24, u.sample_rate);
    let b8 = opt_num(b7, 0x24, u.sample_rate);
    lemma_opt_num(b8, 0x28, u.bit_rate);
    let b9 = opt_num(b8, 0x28, u.bit_rate);
    lemma_opt_text(b9, 0xc0, u.name);
    let b10 = opt_text_field(b9, 0xc0, u.name);
    lemma_opt_text(b10, 0x100, u.title);
    let b11 = opt_text_field(b10, 0x100, u.title);
    lemma_opt_text(b11, 0x140, u.artist);
    let b12 = opt_text_field(b11, 0x140, u.artist);
    lemma_opt_text(b12, 0x180, u.album);
    let r = opt_text_field(b12, 0x180, u.album);
    assert forall|i: int| 0 <= i < 2048 && !update_touches(u, i) implies #[trigger] r[i] == buf[i] by {
        assert(b1[i] == buf[i]);
        assert(b2[i] == b1[i]);
        assert(b3[i] == b2[i]);
        assert(b4[i] == b3[i]);
        assert(b5[i] == b4[i]);
        assert(b6[i] == b5[i]);
        assert(b7[i] == b6[i]);
        assert(b8[i] == b7[i]);
        assert(b9[i] == b8[i]);
        assert(b10[i] == b9[i]);
        assert(b11[i] == b10[i]);
        assert(b12[i] == b11[i]);
    }
    if let Some(bb) = u.bits {
        let w = le32_bytes(overwritten_bits(bb));
        assert forall|k: int| 0 <= k < 4 implies #[trigger] r.subrange(0x14, 0x18)[k] == w[k] by {
            let i = 0x14 + k;
            assert(b6[i] == w[k]);
            assert(b7[i] == b6[i]);
            assert(b8[i] == b7[i]);
            assert(b9[i] == b8[i]);
            assert(b10[i] == b9[i]);
            assert(b11[i] == b10[i]);
            assert(b12[i] == b11[i]);
            assert(r[i] == b12[i]);
        }
        assert(r.subrange(0x14, 0x18) =~= w);
    }
}

/// An overwrite keeps every byte outside the known fields.
pub proof fn law_overwrite_keeps_unknown_fields(buf: Seq<u8>, u: RioFileUpdatesView, i: int)
    requires
        buf.len() == 2048,
        0 <= i < 2048,
        !in_known_field(i),
    ensures
        spec_overwrite_rio_file_fields(buf, u).len() == 2048,
        spec_overwrite_rio_file_fields(buf, u)[i] == buf[i],
{
    law_overwrite_writes_only_given_fields(buf, u);
}

/// Updates with no field given leave the header as it was.
pub proof fn law_overwrite_nothing_keeps_header(buf: Seq<u8>, u: RioFileUpdatesView)
    requires
        u.file_no is None && u.start is None && u.size is None && u.time is None && u.mod_date is None,
        u.bits is None && u.file_type is None && u.sample_rate is None && u.bit_rate is None,
        u.name is None && u.title is None && u.artist is None && u.album is None,
    ensures
        spec_overwrite_rio_file_fields(buf, u) == buf,
{
}

proof fn lemma_opt_num(b: Seq<u8>, off: int, v: Option<u32>)
    requires
        b.len() == 2048,
        0 <= off,
        off + 4 <= 2048,
    ensures
        opt_num(b, off, v).len() == 2048,
        forall|i: int|
            0 <= i < 2048 && !num_touched(off, v, i) ==> #[trigger] opt_num(b, off, v)[i] == b[i],
        v matches Some(x) ==> forall|i: int| off <= i < off + 4 ==> #[trigger] opt_num(b, off, v)[i] == le32_bytes(x)[i - off],
{
    if let Some(x) = v {
        lemma_splice(b, off, le32_bytes(x));
    }
}

proof fn lemma_opt_text(b: Seq<u8>, off: int, v: Option<Seq<char>>)
    requires
        b.len() == 2048,
        0 <= off,
        off + 64 <= 2048,
    ensures
        opt_text_field(b, off, v).len() == 2048,
        forall|i: int|
            0 <= i < 2048 && !text_touched(off, v, i) ==> #[trigger] opt_text_field(b, off, v)[i]
                == b[i],
{
    if let Some(x) = v {
        lemma_splice(b, off, field_bytes(x, 64));
    }
}

/// Written bits, by a fresh write or an overwrite, always carry `0x110` and
/// never bit 0, and keep every other bit of the input.
pub proof fn law_written_bits(bits: u32)
    ensures
        written_bits(bits) & 0x110 == 0x110,
        written_bits(bits) & 1 == 0,
        written_bits(bits) & !0x111u32 == bits & !0x111u32,
        overwritten_bits(bits) & 0x110 == 0x110,
        overwritten_bits(bits) & 1 == 0,
{
    assert(((bits & !1u32) | 0x110u32) & !0x111u32 == bits & !0x111u32) by (bit_vector);
    assert(((bits & !1u32) | 0x110u32) & 0x110u32 == 0x110u32) by (bit_vector);
    assert(((bits & !1u32) | 0x110u32) & 1u32 == 0u32) by (bit_vector);
}

/// A text that reads back unchanged from a string field: it fits the field,
/// and it is not mistaken for double-encoded text (it is ASCII, or has a
/// character above U+00FF).
pub open spec fn stable_text(s: Seq<char>) -> bool {
    text_fits(s, 64) && (!has_high_byte(encode_utf8(s)) || !all_latin1(s))
}

proof fn lemma_stable_text(s: Seq<char>)
    requires
        stable_text(s),
    ensures
        decode_field_text(until_nul(field_bytes(s, 64))) == s,
{
    lemma_field_text(s, 64);
    if s.len() == 0 {
        assert(encode_utf8(s) =~= Seq::<u8>::empty());
    }
}

/// Reading a written header gives back every field, provided the bits
/// already carry `0x110` and not bit 0 (and so are written unchanged) and each string reads
/// back unchanged (`stable_text`).
pub proof fn law_rio_file_roundtrip(f: RioFileView)
    requires
        written_bits(f.bits) == f.bits,
        stable_text(f.name),
        stable_text(f.title),
        stable_text(f.artist),
        stable_text(f.album),
    ensures
        spec_parse_rio_file(spec_serialize_rio_file(f)) == f,
{
    let b0 = zeros(2048);
    let b1 = splice(b0, 0x00, le32_bytes(f.file_no));
    let b2 = splice(b1, 0x04, le32_bytes(f.start));
    let b3 = splice(b2, 0x08, le32_bytes(f.size));
    let b4 = splice(b3, 0x0c, le32_bytes(f.time));
    let b5 = splice(b4, 0x10, le32_bytes(f.mod_date));
    let b6 = splice(b5, 0x14, le32_bytes(written_bits(f.bits)));
    let b7 = splice(b6, 0x18, le32_bytes(f.file_type));
    let b8 = splice(b7, 0x24, le32_bytes(f.sample_rate));
    let b9 = splice(b8, 0x28, le32_bytes(f.bit_rate));
    lemma_field_text(f.name, 64);
    lemma_field_text(f.title, 64);
    lemma_field_text(f.artist, 64);
    lemma_field_text(f.album, 64);
    let b10 = splice(b9, 0xc0, field_bytes(f.name, 64));
    let b11 = splice(b10, 0x100, field_bytes(f.title, 64));
    let b12 = splice(b11, 0x140, field_bytes(f.artist, 64));
    let b13 = splice(b12, 0x180, field_bytes(f.album, 64));
    lemma_splice(b0, 0x00, le32_bytes(f.file_no));
    lemma_splice(b1, 0x04, le32_bytes(f.start));
    lemma_splice(b2, 0x08, le32_bytes(f.size));
    lemma_splice(b3, 0x0c, le32_bytes(f.time));
    lemma_splice(b4, 0x10, le32_bytes(f.mod_date));
    lemma_splice(b5, 0x14, le32_bytes(written_bits(f.bits)));
    lemma_splice(b6, 0x18, le32_bytes(f.file_type));
    lemma_splice(b7, 0x24, le32_bytes(f.sample_rate));
    lemma_splice(b8, 0x28, le32_bytes(f.bit_rate));
    lemma_splice(b9, 0xc0, field_bytes(f.name, 64));
    lemma_splice(b10, 0x100, field_bytes(f.title, 64));
    lemma_splice(b11, 0x140, field_bytes(f.artist, 64));
    lemma_splice(b12, 0x180, field_bytes(f.album, 64));
    assert(b13 == spec_serialize_rio_file(f));
    lemma_le32_roundtrip(f.file_no);
    lemma_le32_roundtrip(f.start);
    lemma_le32_roundtrip(f.size);
    lemma_le32_roundtrip(f.time);
    lemma_le32_roundtrip(f.mod_date);
    lemma_le32_roundtrip(f.bits);
    lemma_le32_roundtrip(f.file_type);
    lemma_le32_roundtrip(f.sample_rate);
    lemma_le32_roundtrip(f.bit_rate);
    assert(le32_at(b13, 0x00) == le32_at(le32_bytes(f.file_no), 0));
    assert(le32_at(b13, 0x04) == le32_at(le32_bytes(f.start), 0));
    assert(le32_at(b13, 0x08) == le32_at(le32_bytes(f.size), 0));
    assert(le32_at(b13, 0x0c) == le32_at(le32_bytes(f.time), 0));
    assert(le32_at(b13, 0x10) == le32_at(le32_bytes(f.mod_date), 0));
    assert(le32_at(b13, 0x14) == le32_at(le32_bytes(f.bits), 0));
    assert(le32_at(b13, 0x18) == le32_at(le32_bytes(f.file_type), 0));
    assert(le32_at(b13, 0x24) == le32_at(le32_bytes(f.sample_rate), 0));
    assert(le32_at(b13, 0x28) == le32_at(le32_bytes(f.bit_rate), 0));
    assert(b13.subrange(0xc0, 0x100) =~= field_bytes(f.name, 64));
    assert(b13.subrange(0x100, 0x140) =~= field_bytes(f.title, 64));
    assert(b13.subrange(0x140, 0x180) =~= field_bytes(f.artist, 64));
    assert(b13.subrange(0x180, 0x1c0) =~= field_bytes(f.album, 64));
    lemma_stable_text(f.name);
    lemma_stable_text(f.title);
    lemma_stable_text(f.artist);
    lemma_stable_text(f.album);
}

} // verus!

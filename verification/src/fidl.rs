//! The FIDL/ST10 playlist format: a 12-byte header ("FIDL", "ST", version
//! 1.0, a zero byte, 24-bit little-endian song count) followed by 6-byte
//! entries (24-bit little-endian number, 3 flag bytes).
use vstd::prelude::*;
use crate::bytes::{le24_at, le24_bytes, splice, read_u24_le, write_u24_le, lemma_le24_roundtrip, lemma_splice};
use crate::constants::{FIDL_MAGIC, FIDL_SUBTYPE, FIDL_HEADER_SIZE, FIDL_ENTRY_SIZE, FIDL_VERSION_MAJOR, FIDL_VERSION_MINOR};
use crate::error::CyrioError;
use crate::packets::{zeros, slice_take};
use crate::strings::{dec_digits, lossy_text, lossy_utf8, push_decimal, push_str, string_from_chars};

verus! {

/// The `Debug` rendering of a string (quoted and escaped), as std's
/// `format!("{:?}", s)` produces it.
pub uninterp spec fn str_debug(s: Seq<char>) -> Seq<char>;

/// Renders `s` with std's `Debug` for `str`. Claimed: the result is the named
/// rendering of the characters of `s`.
#[verifier::external_body]
fn debug_str(s: &str) -> (r: String)
    ensures
        r@ == str_debug(s@),
{
    format!("{:?}", s)
}

/// One playlist entry.
#[derive(Debug, Clone, PartialEq, Eq)]
pub struct FidlEntry {
    /// Number of the song (24 bits are stored).
    pub rio_num: u32,
    /// Three flag bytes.
    pub sflags: [u8; 3],
}

/// The value of an entry.
pub struct FidlEntryView {
    pub rio_num: u32,
    pub sflags: Seq<u8>,
}

impl View for FidlEntry {
    type V = FidlEntryView;

    open spec fn view(&self) -> FidlEntryView {
        FidlEntryView { rio_num: self.rio_num, sflags: self.sflags@ }
    }
}

/// A playlist: its entries in order.
#[derive(Debug, Clone, PartialEq, Eq, Default)]
pub struct FidlPlaylist {
    /// The entries.
    pub entries: Vec<FidlEntry>,
}

impl View for FidlPlaylist {
    type V = Seq<FidlEntryView>;

    open spec fn view(&self) -> Seq<FidlEntryView> {
        self.entries@.map_values(|e: FidlEntry| e@)
    }
}

impl FidlPlaylist {
    /// A playlist without entries.
    pub fn empty() -> (p: FidlPlaylist)
        ensures
            p@ == Seq::<FidlEntryView>::empty(),
    {
        let p = FidlPlaylist { entries: Vec::new() };
        assert(p@ =~= Seq::<FidlEntryView>::empty());
        p
    }
}

/// The 12 header bytes for `n` songs.
pub open spec fn fidl_header(n: nat) -> Seq<u8> {
    FIDL_MAGIC@ + FIDL_SUBTYPE@ + seq![1u8, 0u8, 0u8] + le24_bytes(n as u32)
}

/// The bytes of the entries, in order.
pub open spec fn fidl_entries_bytes(es: Seq<FidlEntryView>) -> Seq<u8>
    decreases es.len(),
{
    if es.len() == 0 {
        Seq::empty()
    } else {
        fidl_entries_bytes(es.drop_last()) + le24_bytes(es.last().rio_num) + es.last().sflags
    }
}

/// The bytes of a playlist with entries `es`.
pub open spec fn spec_serialize_fidl(es: Seq<FidlEntryView>) -> Seq<u8> {
    fidl_header(es.len()) + fidl_entries_bytes(es)
}

/// Number of entries read from `buf`: the count of the header, cut to the
/// entries that the buffer holds completely.
pub open spec fn fidl_entry_count(buf: Seq<u8>) -> nat {
    let declared = le24_at(buf, 9) as nat;
    let present = ((buf.len() - 12) / 6) as nat;
    if declared < present { declared } else { present }
}

/// The entry at index `k` of a playlist buffer.
pub open spec fn fidl_entry_at(buf: Seq<u8>, k: int) -> FidlEntryView {
    let off = 12 + 6 * k;
    FidlEntryView { rio_num: le24_at(buf, off), sflags: buf.subrange(off + 3, off + 6) }
}

/// The entries read from `buf`.
pub open spec fn spec_parse_fidl_entries(buf: Seq<u8>) -> Seq<FidlEntryView> {
    Seq::new(fidl_entry_count(buf), |k: int| fidl_entry_at(buf, k))
}

/// The header of `buf` is a FIDL/ST 1.0 header.
pub open spec fn fidl_header_valid(buf: Seq<u8>) -> bool {
    &&& buf.len() >= 12
    &&& buf.subrange(0, 4) == FIDL_MAGIC@
    &&& buf.subrange(4, 6) == FIDL_SUBTYPE@
    &&& buf[6] == 1
    &&& buf[7] == 0
}

/// The message of the error that `parse_fidl` reports for `buf` (meaningful
/// when the header is not valid).
pub open spec fn fidl_error_message(buf: Seq<u8>) -> Seq<char> {
    if buf.len() < 12 {
        "parse_fidl: buffer too short for header (got "@ + dec_digits(buf.len()) + ", need 12)"@
    } else if buf.subrange(0, 4) != FIDL_MAGIC@ {
        "parse_fidl: bad magic, expected "@ + str_debug("FIDL"@) + ", got "@ + str_debug(
            lossy_text(buf.subrange(0, 4)),
        )
    } else if buf.subrange(4, 6) != FIDL_SUBTYPE@ {
        "parse_fidl: bad subtype, expected "@ + str_debug("ST"@) + ", got "@ + str_debug(
            lossy_text(buf.subrange(4, 6)),
        )
    } else {
        "parse_fidl: unsupported version "@ + dec_digits(buf[6] as nat) + "."@ + dec_digits(
            buf[7] as nat,
        ) + ", expected 1.0"@
    }
}

fn parse_error(msg: Vec<char>) -> (e: CyrioError)
    ensures
        e matches CyrioError::Parse(m) && m@ == msg@,
{
    CyrioError::Parse(string_from_chars(msg.as_slice()))
}

fn sub_eq(buf: &[u8], off: usize, p: &[u8]) -> (r: bool)
    requires
        off + p@.len() <= buf@.len(),
    ensures
        r == (buf@.subrange(off as int, off + p@.len()) == p@),
{
    let len = buf.len();
    let mut i: usize = 0;
    while i < p.len()
        invariant
            i <= p@.len(),
            len == buf@.len(),
            off + p@.len() <= buf@.len(),
            forall|k: int| 0 <= k < i ==> buf@[off + k] == p@[k],
        decreases p@.len() - i,
    {
        if buf[off + i] != p[i] {
            assert(buf@.subrange(off as int, off + p@.len())[i as int] != p@[i as int]);
            return false;
        }
        i = i + 1;
    }
    assert(buf@.subrange(off as int, off + p@.len()) =~= p@);
    true
}

/// Parses a playlist. The header must be "FIDL", "ST", version 1.0;
/// otherwise a `Parse` error. When the buffer holds fewer entries than the
/// header declares, only the complete ones are returned.
pub fn parse_fidl(buf: &[u8]) -> (res: Result<FidlPlaylist, CyrioError>)
    ensures
        res is Ok <==> fidl_header_valid(buf@),
        res matches Ok(p) ==> p@ == spec_parse_fidl_entries(buf@),
        res matches Err(e) ==> e matches CyrioError::Parse(m) && m@ == fidl_error_message(buf@),
{
    if buf.len() < FIDL_HEADER_SIZE {
        let mut out: Vec<char> = Vec::new();
        push_str(&mut out, "parse_fidl: buffer too short for header (got ");
        push_decimal(&mut out, buf.len() as u64);
        push_str(&mut out, ", need 12)");
        return Err(parse_error(out));
    }
    if !sub_eq(buf, 0, FIDL_MAGIC.as_slice()) {
        let mut out: Vec<char> = Vec::new();
        push_str(&mut out, "parse_fidl: bad magic, expected ");
        push_str(&mut out, debug_str("FIDL").as_str());
        push_str(&mut out, ", got ");
        let got = lossy_utf8(vstd::slice::slice_subrange(buf, 0, 4));
        push_str(&mut out, debug_str(got.as_str()).as_str());
        return Err(parse_error(out));
    }
    if !sub_eq(buf, 4, FIDL_SUBTYPE.as_slice()) {
        let mut out: Vec<char> = Vec::new();
        push_str(&mut out, "parse_fidl: bad subtype, expected ");
        push_str(&mut out, debug_str("ST").as_str());
        push_str(&mut out, ", got ");
        let got = lossy_utf8(vstd::slice::slice_subrange(buf, 4, 6));
        push_str(&mut out, debug_str(got.as_str()).as_str());
        return Err(parse_error(out));
    }
    let ver_major = buf[6];
    let ver_minor = buf[7];
    if ver_major != FIDL_VERSION_MAJOR || ver_minor != FIDL_VERSION_MINOR {
        let mut out: Vec<char> = Vec::new();
        push_str(&mut out, "parse_fidl: unsupported version ");
        push_decimal(&mut out, ver_major as u64);
        push_str(&mut out, ".");
        push_decimal(&mut out, ver_minor as u64);
        push_str(&mut out, ", expected 1.0");
        return Err(parse_error(out));
    }
    let nsongs = read_u24_le(buf, 9);
    let present: usize = (buf.len() - 12) / 6;
    let count: usize = if (nsongs as usize) < present { nsongs as usize } else { present };
    assert(count == fidl_entry_count(buf@));
    let mut entries: Vec<FidlEntry> = Vec::new();
    let mut i: usize = 0;
    while i < count
        invariant
            i <= count,
            count == fidl_entry_count(buf@),
            count <= (buf@.len() - 12) / 6,
            buf@.len() >= 12,
            entries@.map_values(|e: FidlEntry| e@) =~= spec_parse_fidl_entries(buf@).take(i as int),
        decreases count - i,
    {
        assert(12 + 6 * i + 6 <= buf@.len());
        let offset: usize = 12 + i * 6;
        let rio_num = read_u24_le(buf, offset);
        let e = FidlEntry { rio_num, sflags: [buf[offset + 3], buf[offset + 4], buf[offset + 5]] };
        assert(e@.sflags =~= buf@.subrange(offset + 3, offset + 6));
        let ghost before = entries@;
        entries.push(e);
        assert(entries@ =~= before.push(e));
        assert(entries@.map_values(|e: FidlEntry| e@) =~= before.map_values(|e: FidlEntry| e@).push(e@));
        assert(e@ == fidl_entry_at(buf@, i as int));
        i = i + 1;
        assert(spec_parse_fidl_entries(buf@).take(i as int) =~= spec_parse_fidl_entries(buf@).take(i - 1).push(fidl_entry_at(buf@, i - 1)));
    }
    let p = FidlPlaylist { entries };
    assert(spec_parse_fidl_entries(buf@).take(count as int) =~= spec_parse_fidl_entries(buf@));
    Ok(p)
}

fn push_u24(out: &mut Vec<u8>, v: u32)
    ensures
        final(out)@ == old(out)@ + le24_bytes(v),
{
    out.push((v % 256) as u8);
    out.push(((v / 256) % 256) as u8);
    out.push(((v / 65536) % 256) as u8);
    assert(out@ =~= old(out)@ + le24_bytes(v));
}

/// Writes a playlist: the 12-byte header with the entry count (24 bits),
/// then each entry's number (24 bits) and flags.
pub fn serialize_fidl(playlist: &FidlPlaylist) -> (buf: Vec<u8>)
    requires
        12 + 6 * playlist.entries@.len() <= usize::MAX,
    ensures
        buf@ == spec_serialize_fidl(playlist@),
{
    let n = playlist.entries.len();
    let mut buf: Vec<u8> = Vec::new();
    buf.push(FIDL_MAGIC[0]);
    buf.push(FIDL_MAGIC[1]);
    buf.push(FIDL_MAGIC[2]);
    buf.push(FIDL_MAGIC[3]);
    buf.push(FIDL_SUBTYPE[0]);
    buf.push(FIDL_SUBTYPE[1]);
    buf.push(FIDL_VERSION_MAJOR);
    buf.push(FIDL_VERSION_MINOR);
    buf.push(0u8);
    push_u24(&mut buf, n as u32);
    assert(buf@ =~= fidl_header(n as nat));
    let mut i: usize = 0;
    while i < n
        invariant
            i <= n,
            n == playlist.entries@.len(),
            buf@ =~= fidl_header(n as nat) + fidl_entries_bytes(playlist@.take(i as int)),
        decreases n - i,
    {
        let e = &playlist.entries[i];
        push_u24(&mut buf, e.rio_num);
        buf.push(e.sflags[0]);
        buf.push(e.sflags[1]);
        buf.push(e.sflags[2]);
        assert(playlist@.take(i + 1).drop_last() =~= playlist@.take(i as int));
        assert(e.sflags@ =~= seq![e.sflags[0], e.sflags[1], e.sflags[2]]);
        i = i + 1;
    }
    assert(playlist@.take(n as int) =~= playlist@);
    buf
}

/// Parses a playlist, appends an entry and writes it again.
pub fn append_to_fidl(buf: &[u8], rio_num: u32, sflags: [u8; 3]) -> (res: Result<Vec<u8>, CyrioError>)
    requires
        buf@.len() + 6 <= usize::MAX,
    ensures
        res is Ok <==> fidl_header_valid(buf@),
        res matches Ok(v) ==> v@ == spec_serialize_fidl(
            spec_parse_fidl_entries(buf@).push(FidlEntryView { rio_num, sflags: sflags@ }),
        ),
        res matches Err(e) ==> e matches CyrioError::Parse(m) && m@ == fidl_error_message(buf@),
{
    let mut playlist = parse_fidl(buf)?;
    let ghost before = playlist@;
    let e = FidlEntry { rio_num, sflags };
    assert(playlist.entries@.len() == before.len());
    assert(before.len() <= (buf@.len() - 12) / 6);
    playlist.entries.push(e);
    assert(playlist@ =~= before.push(e@));
    Ok(serialize_fidl(&playlist))
}

/// Entries fit the format: numbers and the count below 2^24, three flag
/// bytes each.
pub open spec fn fidl_entries_fit(es: Seq<FidlEntryView>) -> bool {
    &&& es.len() < 0x1000000
    &&& forall|k: int| 0 <= k < es.len() ==> (#[trigger] es[k]).rio_num < 0x1000000 && es[k].sflags.len() == 3
}

proof fn lemma_entries_bytes(es: Seq<FidlEntryView>)
    requires
        forall|k: int| 0 <= k < es.len() ==> (#[trigger] es[k]).sflags.len() == 3,
    ensures
        fidl_entries_bytes(es).len() == 6 * es.len(),
        forall|k: int|
            0 <= k < es.len() ==> fidl_entries_bytes(es).subrange(6 * k, 6 * k + 6) == le24_bytes(
                (#[trigger] es[k]).rio_num,
            ) + es[k].sflags,
    decreases es.len(),
{
    if es.len() > 0 {
        let init = es.drop_last();
        assert forall|k: int| 0 <= k < init.len() implies (#[trigger] init[k]).sflags.len() == 3 by {
            assert(init[k] == es[k]);
        }
        lemma_entries_bytes(init);
        let b = fidl_entries_bytes(es);
        let bi = fidl_entries_bytes(init);
        let tail = le24_bytes(es.last().rio_num) + es.last().sflags;
        assert(b =~= bi + tail);
        assert forall|k: int| 0 <= k < es.len() implies fidl_entries_bytes(es).subrange(6 * k, 6 * k + 6)
            == le24_bytes((#[trigger] es[k]).rio_num) + es[k].sflags by {
            if k < init.len() {
                assert(init[k] == es[k]);
                assert(b.subrange(6 * k, 6 * k + 6) =~= bi.subrange(6 * k, 6 * k + 6));
            } else {
                assert(b.subrange(6 * k, 6 * k + 6) =~= tail);
            }
        }
    }
}

/// Reading a written playlist gives back its entries, provided they fit the
/// format (`fidl_entries_fit`); the written header is valid.
pub proof fn law_fidl_roundtrip(es: Seq<FidlEntryView>)
    requires
        fidl_entries_fit(es),
    ensures
        fidl_header_valid(spec_serialize_fidl(es)),
        spec_parse_fidl_entries(spec_serialize_fidl(es)) == es,
        le24_at(spec_serialize_fidl(es), 9) == es.len(),
{
    let b = spec_serialize_fidl(es);
    lemma_entries_bytes(es);
    lemma_le24_roundtrip(es.len() as u32);
    let h = fidl_header(es.len());
    assert(h.len() == 12);
    assert(b.len() == 12 + 6 * es.len());
    assert(b.subrange(0, 4) =~= FIDL_MAGIC@);
    assert(b.subrange(4, 6) =~= FIDL_SUBTYPE@);
    assert(le24_at(b, 9) == le24_at(le24_bytes(es.len() as u32), 0));
    assert((es.len() as u32) % 16777216 == es.len());
    assert(((b.len() - 12) / 6) as nat == es.len()) by (nonlinear_arith)
        requires b.len() == 12 + 6 * es.len();
    let p = spec_parse_fidl_entries(b);
    assert forall|k: int| 0 <= k < es.len() implies #[trigger] p[k] == es[k] by {
        let eb = fidl_entries_bytes(es);
        assert(b.subrange(12 + 6 * k, 12 + 6 * k + 6) =~= eb.subrange(6 * k, 6 * k + 6));
        lemma_le24_roundtrip(es[k].rio_num);
        let chunk = le24_bytes(es[k].rio_num) + es[k].sflags;
        assert(b.subrange(12 + 6 * k, 12 + 6 * k + 6) == chunk);
        assert(b[12 + 6 * k] == chunk[0]);
        assert(b[12 + 6 * k + 1] == chunk[1]);
        assert(b[12 + 6 * k + 2] == chunk[2]);
        assert(le24_at(b, 12 + 6 * k) == le24_at(le24_bytes(es[k].rio_num), 0));
        assert forall|j: int| 0 <= j < 3 implies b.subrange(12 + 6 * k + 3, 12 + 6 * k + 6)[j] == es[k].sflags[j] by {
            assert(b[12 + 6 * k + 3 + j] == chunk[3 + j]);
        }
        assert(b.subrange(12 + 6 * k + 3, 12 + 6 * k + 6) =~= es[k].sflags);
    }
    assert(p =~= es);
}

/// The layout of a written playlist: 12 header bytes ("FIDL", "ST", version
/// 1.0, a zero byte, the 24-bit count), then six bytes per entry in order:
/// its number's low 24 bits (little-endian) and its three flag bytes.
pub proof fn law_fidl_layout(es: Seq<FidlEntryView>)
    requires
        forall|k: int| 0 <= k < es.len() ==> (#[trigger] es[k]).sflags.len() == 3,
    ensures
        spec_serialize_fidl(es).len() == 12 + 6 * es.len(),
        spec_serialize_fidl(es).subrange(0, 4) == FIDL_MAGIC@,
        spec_serialize_fidl(es).subrange(4, 6) == FIDL_SUBTYPE@,
        spec_serialize_fidl(es)[6] == 1 && spec_serialize_fidl(es)[7] == 0 && spec_serialize_fidl(es)[8] == 0,
        spec_serialize_fidl(es).subrange(9, 12) == le24_bytes(es.len() as u32),
        forall|k: int| 0 <= k < es.len() ==> {
            &&& spec_serialize_fidl(es).subrange(12 + 6 * k, 15 + 6 * k) == le24_bytes((#[trigger] es[k]).rio_num)
            &&& spec_serialize_fidl(es).subrange(15 + 6 * k, 18 + 6 * k) == es[k].sflags
        },
{
    let b = spec_serialize_fidl(es);
    let eb = fidl_entries_bytes(es);
    lemma_entries_bytes(es);
    assert(b.subrange(0, 4) =~= FIDL_MAGIC@);
    assert(b.subrange(4, 6) =~= FIDL_SUBTYPE@);
    assert(b.subrange(9, 12) =~= le24_bytes(es.len() as u32));
    assert forall|k: int| 0 <= k < es.len() implies {
        &&& b.subrange(12 + 6 * k, 15 + 6 * k) == le24_bytes((#[trigger] es[k]).rio_num)
        &&& b.subrange(15 + 6 * k, 18 + 6 * k) == es[k].sflags
    } by {
        let chunk = le24_bytes(es[k].rio_num) + es[k].sflags;
        assert(eb.subrange(6 * k, 6 * k + 6) == chunk);
        assert forall|j: int| 0 <= j < 6 implies b[12 + 6 * k + j] == chunk[j] by {
            assert(b[12 + 6 * k + j] == eb[6 * k + j]);
            assert(eb.subrange(6 * k, 6 * k + 6)[j] == eb[6 * k + j]);
        }
        let l = le24_bytes(es[k].rio_num);
        assert forall|j: int| 0 <= j < 3 implies b.subrange(12 + 6 * k, 15 + 6 * k)[j] == l[j] by {
            assert(b[12 + 6 * k + j] == chunk[j]);
        }
        assert forall|j: int| 0 <= j < 3 implies b.subrange(15 + 6 * k, 18 + 6 * k)[j] == es[k].sflags[j] by {
            assert(b[12 + 6 * k + 3 + j] == chunk[3 + j]);
        }
        assert(b.subrange(12 + 6 * k, 15 + 6 * k) =~= l);
        assert(b.subrange(15 + 6 * k, 18 + 6 * k) =~= es[k].sflags);
    }
}

/// After appending to a valid playlist, reading it gives the old entries
/// followed by the new one (numbers below 2^24, count staying below 2^24).
pub proof fn law_append_then_parse(buf: Seq<u8>, rio_num: u32, sflags: Seq<u8>)
    requires
        fidl_header_valid(buf),
        rio_num < 0x1000000,
        sflags.len() == 3,
        fidl_entry_count(buf) + 1 < 0x1000000,
    ensures
        spec_parse_fidl_entries(spec_serialize_fidl(
            spec_parse_fidl_entries(buf).push(FidlEntryView { rio_num, sflags }),
        )) == spec_parse_fidl_entries(buf).push(FidlEntryView { rio_num, sflags }),
{
    let es = spec_parse_fidl_entries(buf).push(FidlEntryView { rio_num, sflags });
    assert forall|k: int| 0 <= k < es.len() implies (#[trigger] es[k]).rio_num < 0x1000000 && es[k].sflags.len() == 3 by {
        if k < es.len() - 1 {
            let off = 12 + 6 * k;
            assert(buf[off] + buf[off + 1] * 256 + buf[off + 2] * 65536 < 0x1000000);
        }
    }
    law_fidl_roundtrip(es);
}

} // verus!

//! Handshake packets: 64 bytes each, an 8-byte magic, a 4-byte field and zero
//! padding. The field of CRIODATA carries the big-endian checksum of the
//! block that follows; that of CRIOINFO is zero.
use vstd::prelude::*;
use crate::bytes::{be32_bytes, write_bytes_at};
use crate::constants::{MAGIC_CRIODATA, MAGIC_CRIOINFO, MAGIC_CRIOABRT, MAGIC_SRIORDY, MAGIC_SRIODATA, MAGIC_SRIODONE, MAGIC_SRIONOFL, MAGIC_SRIODELS, MAGIC_SRIODELD, MAGIC_SRIOFMTD};
use crate::crc32::{crc32, spec_crc32};
use crate::error::{CyrioError, error_message};
use crate::strings::{hex2, lossy_utf8, push_chars, push_hex2, push_str, string_from_chars, utf8_lossy, lossy_text};
use vstd::utf8::encode_utf8;

verus! {

/// `n` zero bytes.
pub open spec fn zeros(n: nat) -> Seq<u8> {
    Seq::new(n, |i: int| 0u8)
}

/// The CRIODATA packet announcing `chunk`.
pub open spec fn spec_crio_data(chunk: Seq<u8>) -> Seq<u8> {
    MAGIC_CRIODATA@ + be32_bytes(spec_crc32(chunk)) + zeros(52)
}

/// Builds the CRIODATA packet for `chunk`: magic, big-endian checksum of
/// the chunk, zero padding.
pub fn build_crio_data(chunk: &[u8]) -> (pkt: [u8; 64])
    ensures
        pkt@ == spec_crio_data(chunk@),
{
    let mut buf = [0u8; 64];
    assert(buf@ =~= zeros(64));
    write_bytes_at(&mut buf, 0, MAGIC_CRIODATA.as_slice());
    let crc = crc32(chunk);
    buf[8] = (crc / 16777216) as u8;
    buf[9] = ((crc / 65536) % 256) as u8;
    buf[10] = ((crc / 256) % 256) as u8;
    buf[11] = (crc % 256) as u8;
    assert(buf@ =~= spec_crio_data(chunk@));
    buf
}

/// The CRIOINFO packet: magic followed by zeros (the checksum field is zero).
pub open spec fn spec_crio_info() -> Seq<u8> {
    MAGIC_CRIOINFO@ + zeros(56)
}

/// The CRIOABRT packet: magic followed by zeros.
pub open spec fn spec_crio_abort() -> Seq<u8> {
    MAGIC_CRIOABRT@ + zeros(56)
}

/// Builds the CRIOINFO packet that announces a file header; its 4-byte field
/// stays zero.
pub fn build_crio_info() -> (pkt: [u8; 64])
    ensures
        pkt@ == spec_crio_info(),
{
    let mut buf = [0u8; 64];
    assert(buf@ =~= zeros(64));
    write_bytes_at(&mut buf, 0, MAGIC_CRIOINFO.as_slice());
    assert(buf@ =~= spec_crio_info());
    buf
}

/// Builds the CRIOABRT packet that asks the device to leave a transfer.
pub fn build_crio_abort() -> (pkt: [u8; 64])
    ensures
        pkt@ == spec_crio_abort(),
{
    let mut buf = [0u8; 64];
    assert(buf@ =~= zeros(64));
    write_bytes_at(&mut buf, 0, MAGIC_CRIOABRT.as_slice());
    assert(buf@ =~= spec_crio_abort());
    buf
}

/// The magics recognised by `parse_magic`, in the order they are tried:
/// host magics first, then device magics.
pub open spec fn known_magics() -> Seq<Seq<u8>> {
    seq![
        MAGIC_CRIODATA@,
        MAGIC_CRIOINFO@,
        MAGIC_CRIOABRT@,
        MAGIC_SRIORDY@,
        MAGIC_SRIODATA@,
        MAGIC_SRIODONE@,
        MAGIC_SRIONOFL@,
        MAGIC_SRIODELS@,
        MAGIC_SRIODELD@,
        MAGIC_SRIOFMTD@,
    ]
}

/// `p` is a prefix of `b`.
pub open spec fn is_prefix(p: Seq<u8>, b: Seq<u8>) -> bool {
    p.len() <= b.len() && b.take(p.len() as int) == p
}

/// Index of the first known magic, from position `i` on, that prefixes `buf`.
pub open spec fn first_magic_from(buf: Seq<u8>, i: int) -> Option<int>
    decreases 10 - i,
{
    if i < 0 || i >= 10 {
        None
    } else if is_prefix(known_magics()[i], buf) {
        Some(i)
    } else {
        first_magic_from(buf, i + 1)
    }
}

/// Bytes read as Latin-1 characters.
pub open spec fn latin1_chars(b: Seq<u8>) -> Seq<char> {
    Seq::new(b.len(), |i: int| b[i] as char)
}

/// `s` without its trailing NUL characters.
pub open spec fn trim_trailing_nul(s: Seq<char>) -> Seq<char>
    decreases s.len(),
{
    if s.len() > 0 && s.last() == '\0' {
        trim_trailing_nul(s.drop_last())
    } else {
        s
    }
}

/// The magic string of a handshake packet: the first known magic that
/// prefixes it, otherwise its first (up to) 8 bytes decoded with trailing
/// NULs removed.
pub open spec fn spec_parse_magic(buf: Seq<u8>) -> Seq<char> {
    match first_magic_from(buf, 0) {
        Some(k) => latin1_chars(known_magics()[k]),
        None => trim_trailing_nul(lossy_text(buf.take(if buf.len() < 8 { buf.len() as int } else { 8 }))),
    }
}

/// Whether `p` is a prefix of `b`.
pub fn starts_with(b: &[u8], p: &[u8]) -> (res: bool)
    ensures
        res == is_prefix(p@, b@),
{
    if p.len() > b.len() {
        return false;
    }
    let mut i: usize = 0;
    while i < p.len()
        invariant
            i <= p@.len(),
            p@.len() <= b@.len(),
            forall|k: int| 0 <= k < i ==> b@[k] == p@[k],
        decreases p@.len() - i,
    {
        if b[i] != p[i] {
            assert(b@.take(p@.len() as int)[i as int] != p@[i as int]);
            return false;
        }
        i = i + 1;
    }
    assert(b@.take(p@.len() as int) =~= p@);
    true
}

pub(crate) fn latin1_string(b: &[u8]) -> (s: String)
    ensures
        s@ == latin1_chars(b@),
{
    let mut v: Vec<char> = Vec::new();
    let mut i: usize = 0;
    while i < b.len()
        invariant
            i <= b@.len(),
            v@ == latin1_chars(b@.take(i as int)),
        decreases b@.len() - i,
    {
        v.push(b[i] as char);
        i = i + 1;
        assert(v@ =~= latin1_chars(b@.take(i as int)));
    }
    assert(b@.take(b@.len() as int) =~= b@);
    string_from_chars(v.as_slice())
}

/// Recognises the magic of a handshake packet.
///
/// Known magics (host ones first, then device ones, 7 or 8 bytes) are matched
/// as prefixes; otherwise the first up to 8 bytes are decoded with trailing
/// NULs removed.
pub fn parse_magic(buf: &[u8]) -> (s: String)
    ensures
        s@ == spec_parse_magic(buf@),
{
    let magics: [&[u8]; 10] = [
        MAGIC_CRIODATA.as_slice(),
        MAGIC_CRIOINFO.as_slice(),
        MAGIC_CRIOABRT.as_slice(),
        MAGIC_SRIORDY.as_slice(),
        MAGIC_SRIODATA.as_slice(),
        MAGIC_SRIODONE.as_slice(),
        MAGIC_SRIONOFL.as_slice(),
        MAGIC_SRIODELS.as_slice(),
        MAGIC_SRIODELD.as_slice(),
        MAGIC_SRIOFMTD.as_slice(),
    ];
    let mut i: usize = 0;
    while i < 10
        invariant
            i <= 10,
            forall|k: int| 0 <= k < 10 ==> #[trigger] magics@[k]@ == known_magics()[k],
            first_magic_from(buf@, 0) == first_magic_from(buf@, i as int),
        decreases 10 - i,
    {
        let m: &[u8] = magics[i];
        if starts_with(buf, m) {
            return latin1_string(m);
        }
        i = i + 1;
    }
    let n: usize = if buf.len() < 8 { buf.len() } else { 8 };
    let raw = lossy_utf8(slice_take(buf, n));
    let mut v = crate::strings::str_chars(raw.as_str());
    while v.len() > 0 && v[v.len() - 1] == '\0'
        invariant
            trim_trailing_nul(v@) == trim_trailing_nul(lossy_text(buf@.take(n as int))),
        decreases v@.len(),
    {
        v.pop();
    }
    string_from_chars(v.as_slice())
}

/// The first `n` elements of a slice.
pub fn slice_take(s: &[u8], n: usize) -> (r: &[u8])
    requires
        n <= s@.len(),
    ensures
        r@ == s@.take(n as int),
{
    vstd::slice::slice_subrange(s, 0, n)
}

/// Hexadecimal rendering of all bytes.
pub open spec fn hex_all(b: Seq<u8>) -> Seq<char>
    decreases b.len(),
{
    if b.len() == 0 {
        Seq::empty()
    } else {
        hex_all(b.drop_last()) + hex2(b.last())
    }
}

/// Whether a packet carries the expected magic: the recognised magic's UTF-8
/// bytes equal `expected`, or `expected` prefixes the packet.
pub open spec fn magic_matches(buf: Seq<u8>, expected: Seq<u8>) -> bool {
    encode_utf8(spec_parse_magic(buf)) == expected || is_prefix(expected, buf)
}

fn bytes_eq(a: &[u8], b: &[u8]) -> (res: bool)
    ensures
        res == (a@ == b@),
{
    if a.len() != b.len() {
        return false;
    }
    let r = starts_with(a, b);
    assert(a@.take(b@.len() as int) =~= a@);
    r
}

/// The error of a handshake packet `buf` that does not carry `expected`:
/// the expected magic with `context`, and what was received, decoded and as
/// hex of its first up to 8 bytes.
pub open spec fn is_mismatch(e: CyrioError, buf: Seq<u8>, expected: Seq<u8>, context: Seq<char>) -> bool {
    e matches CyrioError::MagicMismatch { expected: x, got: g }
        && x@ == lossy_text(expected) + " (context: "@ + context + ")"@
        && g@ == spec_parse_magic(buf) + " (raw: "@ + hex_all(buf.take(if buf.len() < 8 { buf.len() as int } else { 8 })) + ")"@
}

/// Checks that a handshake packet carries `expected`; otherwise a
/// `MagicMismatch` naming the expected magic with `context`, and what was
/// received, decoded and as hex of its first up to 8 bytes.
pub fn expect_magic(buf: &[u8], expected: &[u8], context: &str) -> (res: Result<(), CyrioError>)
    ensures
        res is Ok <==> magic_matches(buf@, expected@),
        res matches Err(e) ==> is_mismatch(e, buf@, expected@, context@),
{
    let actual = parse_magic(buf);
    if bytes_eq(actual.as_str().as_bytes(), expected) {
        return Ok(());
    }
    if starts_with(buf, expected) {
        return Ok(());
    }
    let exp_str = lossy_utf8(expected);
    let mut x: Vec<char> = Vec::new();
    push_str(&mut x, exp_str.as_str());
    push_str(&mut x, " (context: ");
    push_str(&mut x, context);
    push_str(&mut x, ")");
    let n: usize = if buf.len() < 8 { buf.len() } else { 8 };
    let mut g: Vec<char> = Vec::new();
    push_str(&mut g, actual.as_str());
    push_str(&mut g, " (raw: ");
    let mut i: usize = 0;
    while i < n
        invariant
            i <= n,
            n <= buf@.len(),
            g@ == actual@ + " (raw: "@ + hex_all(buf@.take(i as int)),
        decreases n - i,
    {
        push_hex2(&mut g, buf[i]);
        i = i + 1;
        assert(buf@.take(i as int).drop_last() =~= buf@.take(i - 1));
    }
    push_str(&mut g, ")");
    Err(CyrioError::MagicMismatch { expected: string_from_chars(x.as_slice()), got: string_from_chars(g.as_slice()) })
}

/// The message of a mismatch names the expected magic with the context of
/// the check, then what was received: its magic and its first bytes in hex.
pub proof fn law_mismatch_message(e: CyrioError, buf: Seq<u8>, expected: Seq<u8>, context: Seq<char>)
    requires
        is_mismatch(e, buf, expected, context),
    ensures
        error_message(e) == "magic mismatch: expected "@ + lossy_text(expected) + " (context: "@ + context
            + "), got "@ + spec_parse_magic(buf) + " (raw: "@ + hex_all(buf.take(if buf.len() < 8 { buf.len() as int } else { 8 }))
            + ")"@,
{
    reveal_strlit(")");
    reveal_strlit(", got ");
    reveal_strlit("), got ");
    assert(")"@ + ", got "@ =~= "), got "@);
    if let CyrioError::MagicMismatch { expected: x, got: g } = e {
        let raw = hex_all(buf.take(if buf.len() < 8 { buf.len() as int } else { 8 }));
        assert(error_message(e) =~= "magic mismatch: expected "@ + lossy_text(expected) + " (context: "@ + context
            + "), got "@ + spec_parse_magic(buf) + " (raw: "@ + raw + ")"@);
    }
}

/// The layout of a CRIODATA packet: 64 bytes, the magic, the checksum of
/// the chunk in big-endian order, and 52 zero bytes.
pub proof fn law_crio_data_layout(chunk: Seq<u8>)
    ensures
        spec_crio_data(chunk).len() == 64,
        spec_crio_data(chunk).subrange(0, 8) == MAGIC_CRIODATA@,
        spec_crio_data(chunk).subrange(8, 12) == be32_bytes(spec_crc32(chunk)),
        forall|i: int| 12 <= i < 64 ==> #[trigger] spec_crio_data(chunk)[i] == 0,
{
    let d = spec_crio_data(chunk);
    assert(d.subrange(0, 8) =~= MAGIC_CRIODATA@);
    assert(d.subrange(8, 12) =~= be32_bytes(spec_crc32(chunk)));
}

proof fn lemma_first_magic(buf: Seq<u8>, i: int, k: int)
    requires
        0 <= i <= k < 10,
        is_prefix(known_magics()[k], buf),
        forall|j: int| i <= j < k ==> !is_prefix(#[trigger] known_magics()[j], buf),
    ensures
        first_magic_from(buf, i) == Some(k),
    decreases k - i,
{
    if i < k {
        lemma_first_magic(buf, i + 1, k);
    }
}

proof fn lemma_no_magic(buf: Seq<u8>, i: int)
    requires
        0 <= i <= 10,
        forall|j: int| i <= j < 10 ==> !is_prefix(#[trigger] known_magics()[j], buf),
    ensures
        first_magic_from(buf, i) is None,
    decreases 10 - i,
{
    if i < 10 {
        lemma_no_magic(buf, i + 1);
    }
}

/// A packet that starts with known magics reads as the first of them in the
/// order CRIODATA, CRIOINFO, CRIOABRT, SRIORDY, SRIODATA, SRIODONE,
/// SRIONOFL, SRIODELS, SRIODELD, SRIOFMTD.
pub proof fn law_parse_magic_takes_first_known(buf: Seq<u8>, k: int)
    requires
        0 <= k < 10,
        is_prefix(known_magics()[k], buf),
        forall|j: int| 0 <= j < k ==> !is_prefix(#[trigger] known_magics()[j], buf),
    ensures
        spec_parse_magic(buf) == latin1_chars(known_magics()[k]),
{
    lemma_first_magic(buf, 0, k);
}

/// A packet that starts with no known magic reads as its first (up to) 8
/// bytes, decoded, without trailing NULs.
pub proof fn law_parse_magic_of_unknown(buf: Seq<u8>)
    requires
        forall|j: int| 0 <= j < 10 ==> !is_prefix(#[trigger] known_magics()[j], buf),
    ensures
        spec_parse_magic(buf) == trim_trailing_nul(lossy_text(buf.take(if buf.len() < 8 { buf.len() as int } else { 8 }))),
{
    lemma_no_magic(buf, 0);
}

/// Every packet the host builds is read back as its own magic, and the
/// check for that magic accepts it, whatever chunk a CRIODATA packet
/// announces.
pub proof fn law_host_packets_carry_their_magic(chunk: Seq<u8>)
    ensures
        spec_parse_magic(spec_crio_data(chunk)) == latin1_chars(MAGIC_CRIODATA@),
        spec_parse_magic(spec_crio_info()) == latin1_chars(MAGIC_CRIOINFO@),
        spec_parse_magic(spec_crio_abort()) == latin1_chars(MAGIC_CRIOABRT@),
        magic_matches(spec_crio_data(chunk), MAGIC_CRIODATA@),
        magic_matches(spec_crio_info(), MAGIC_CRIOINFO@),
        magic_matches(spec_crio_abort(), MAGIC_CRIOABRT@),
{
    let d = spec_crio_data(chunk);
    let i = spec_crio_info();
    let a = spec_crio_abort();
    assert(d.take(8) =~= MAGIC_CRIODATA@);
    assert(i.take(8) =~= MAGIC_CRIOINFO@);
    assert(a.take(8) =~= MAGIC_CRIOABRT@);
    assert(known_magics()[0] == MAGIC_CRIODATA@);
    assert(known_magics()[1] == MAGIC_CRIOINFO@);
    assert(known_magics()[2] == MAGIC_CRIOABRT@);
    assert(first_magic_from(d, 0) == Some(0int));
    assert(!is_prefix(known_magics()[0], i)) by {
        assert(i[4] != MAGIC_CRIODATA@[4]);
    }
    assert(first_magic_from(i, 1) == Some(1int));
    assert(first_magic_from(i, 0) == Some(1int));
    assert(!is_prefix(known_magics()[0], a)) by {
        assert(a[4] != MAGIC_CRIODATA@[4]);
    }
    assert(!is_prefix(known_magics()[1], a)) by {
        assert(a[4] != MAGIC_CRIOINFO@[4]);
    }
    assert(first_magic_from(a, 2) == Some(2int));
    assert(first_magic_from(a, 1) == Some(2int));
    assert(first_magic_from(a, 0) == Some(2int));
}

} // verus!

//! The 256-byte memory-unit record (`rio_mem_t`) read with OP_RIO_MEMRI.
//! Sizes are in bytes; a unit that is absent (no SD card) reads as all zeros,
//! so its size is 0.
use vstd::prelude::*;
use vstd::utf8::{encode_utf8, decode_utf8, valid_utf8};
use crate::bytes::{le32_at, le32_bytes, splice, read_u32_le, write_u32_le, lemma_le32_roundtrip, lemma_splice};
use crate::constants::{OFF_MEM_SIZE, OFF_MEM_USED, OFF_MEM_FREE, OFF_MEM_SYSTEM, OFF_MEM_NAME, OFF_MEM_MODEL, RIO_MEM_SIZE, RIO_STRING_LEN};
use crate::error::CyrioError;
use crate::fixed_str::{field_bytes, until_nul, field_until_nul, write_fixed_string, nul_pos, lemma_nul_pos, text_fits, lemma_field_text};
use crate::numfmt::{fixed_point, push_fixed_point};
use crate::packets::zeros;
use crate::strings::{dec_digits, lossy_utf8, push_decimal, push_str, string_from_chars, utf8_lossy, lossy_text};

verus! {

/// A memory unit (internal flash or SD card).
#[derive(Debug, Clone, PartialEq, Eq, Default)]
pub struct RioMem {
    /// Total size in bytes.
    pub size: u32,
    /// Used bytes.
    pub used: u32,
    /// Free bytes.
    pub free: u32,
    /// Bytes reserved by the system.
    pub system: u32,
    /// Name of the unit (such as "Internal Memory").
    pub name: String,
    /// Model string.
    pub model: String,
}

/// The value of a `RioMem`, strings as character sequences.
pub struct RioMemView {
    pub size: u32,
    pub used: u32,
    pub free: u32,
    pub system: u32,
    pub name: Seq<char>,
    pub model: Seq<char>,
}

impl View for RioMem {
    type V = RioMemView;

    open spec fn view(&self) -> RioMemView {
        RioMemView {
            size: self.size,
            used: self.used,
            free: self.free,
            system: self.system,
            name: self.name@,
            model: self.model@,
        }
    }
}

/// One mebibyte.
pub const MIB: u64 = 1048576;

/// The size line shown for a unit.
pub open spec fn spec_format_size(m: RioMemView) -> Seq<char> {
    fixed_point(m.used as nat, MIB as nat, 1) + "MB used / "@ + fixed_point(m.free as nat, MIB as nat, 1)
        + "MB free / "@ + fixed_point(m.size as nat, MIB as nat, 1) + "MB total"@
}

impl RioMem {
    /// A record with all numbers zero and empty strings.
    pub fn empty() -> (m: RioMem)
        ensures
            m@ == (RioMemView { size: 0, used: 0, free: 0, system: 0, name: Seq::empty(), model: Seq::empty() }),
    {
        RioMem { size: 0, used: 0, free: 0, system: 0, name: String::new(), model: String::new() }
    }

    /// Whether the unit exists: its size is not zero.
    pub fn is_present(&self) -> (b: bool)
        ensures
            b == (self.size > 0),
    {
        self.size > 0
    }

    /// "{used}MB used / {free}MB free / {size}MB total", each in MiB with one
    /// decimal.
    pub fn format_size(&self) -> (s: String)
        ensures
            s@ == spec_format_size(self@),
    {
        let mut out: Vec<char> = Vec::new();
        push_fixed_point(&mut out, self.used as u64, MIB, 1);
        push_str(&mut out, "MB used / ");
        push_fixed_point(&mut out, self.free as u64, MIB, 1);
        push_str(&mut out, "MB free / ");
        push_fixed_point(&mut out, self.size as u64, MIB, 1);
        push_str(&mut out, "MB total");
        string_from_chars(out.as_slice())
    }
}

/// The 256 bytes written for a memory record.
pub open spec fn spec_serialize_rio_mem(m: RioMemView) -> Seq<u8> {
    let b = zeros(256);
    let b = splice(b, OFF_MEM_SIZE as int, le32_bytes(m.size));
    let b = splice(b, OFF_MEM_USED as int, le32_bytes(m.used));
    let b = splice(b, OFF_MEM_FREE as int, le32_bytes(m.free));
    let b = splice(b, OFF_MEM_SYSTEM as int, le32_bytes(m.system));
    let b = splice(b, OFF_MEM_NAME as int, field_bytes(m.name, 64));
    splice(b, OFF_MEM_MODEL as int, field_bytes(m.model, 64))
}

/// The text of a 64-byte string field of the memory record.
pub open spec fn mem_field_text(buf: Seq<u8>, off: int) -> Seq<char> {
    lossy_text(until_nul(buf.subrange(off, off + 64)))
}

/// The record read from `buf` (at least 256 bytes).
pub open spec fn spec_parse_rio_mem(buf: Seq<u8>) -> RioMemView {
    RioMemView {
        size: le32_at(buf, OFF_MEM_SIZE as int),
        used: le32_at(buf, OFF_MEM_USED as int),
        free: le32_at(buf, OFF_MEM_FREE as int),
        system: le32_at(buf, OFF_MEM_SYSTEM as int),
        name: mem_field_text(buf, OFF_MEM_NAME as int),
        model: mem_field_text(buf, OFF_MEM_MODEL as int),
    }
}

/// Writes a memory record: the four numbers little-endian, name and model
/// as NUL-padded UTF-8 (cut to 64 bytes), everything else zero.
pub fn serialize_rio_mem(mem: &RioMem) -> (buf: [u8; 256])
    ensures
        buf@ == spec_serialize_rio_mem(mem@),
{
    let mut buf = [0u8; 256];
    assert(buf@ =~= zeros(256));
    write_u32_le(&mut buf, OFF_MEM_SIZE, mem.size);
    write_u32_le(&mut buf, OFF_MEM_USED, mem.used);
    write_u32_le(&mut buf, OFF_MEM_FREE, mem.free);
    write_u32_le(&mut buf, OFF_MEM_SYSTEM, mem.system);
    write_fixed_string(&mut buf, OFF_MEM_NAME, RIO_STRING_LEN, mem.name.as_str());
    write_fixed_string(&mut buf, OFF_MEM_MODEL, RIO_STRING_LEN, mem.model.as_str());
    buf
}

/// The message of the error for a short buffer.
pub open spec fn mem_too_short_message(len: nat) -> Seq<char> {
    "parse_rio_mem: buffer too short (got "@ + dec_digits(len) + ", need 256)"@
}

fn read_mem_string(buf: &[u8], off: usize) -> (s: String)
    requires
        off + 64 <= buf@.len(),
    ensures
        s@ == mem_field_text(buf@, off as int),
{
    lossy_utf8(field_until_nul(buf, off, RIO_STRING_LEN))
}

/// Reads a memory record; a buffer shorter than 256 bytes is a `Parse`
/// error.
pub fn parse_rio_mem(buf: &[u8]) -> (res: Result<RioMem, CyrioError>)
    ensures
        buf@.len() >= 256 <==> res is Ok,
        res matches Ok(m) ==> m@ == spec_parse_rio_mem(buf@),
        res matches Err(e) ==> e matches CyrioError::Parse(msg) && msg@ == mem_too_short_message(
            buf@.len(),
        ),
{
    if buf.len() < RIO_MEM_SIZE {
        let mut out: Vec<char> = Vec::new();
        push_str(&mut out, "parse_rio_mem: buffer too short (got ");
        push_decimal(&mut out, buf.len() as u64);
        push_str(&mut out, ", need 256)");
        return Err(CyrioError::Parse(string_from_chars(out.as_slice())));
    }
    Ok(RioMem {
        size: read_u32_le(buf, OFF_MEM_SIZE),
        used: read_u32_le(buf, OFF_MEM_USED),
        free: read_u32_le(buf, OFF_MEM_FREE),
        system: read_u32_le(buf, OFF_MEM_SYSTEM),
        name: read_mem_string(buf, OFF_MEM_NAME),
        model: read_mem_string(buf, OFF_MEM_MODEL),
    })
}

/// Reading a written memory record gives back every field, provided the name
/// and the model fit their 64-byte fields (UTF-8 length at most 64, no NUL).
pub proof fn law_rio_mem_roundtrip(m: RioMemView)
    requires
        text_fits(m.name, 64),
        text_fits(m.model, 64),
    ensures
        spec_parse_rio_mem(spec_serialize_rio_mem(m)) == m,
{
    let b0 = zeros(256);
    let b1 = splice(b0, 0x10, le32_bytes(m.size));
    let b2 = splice(b1, 0x14, le32_bytes(m.used));
    let b3 = splice(b2, 0x18, le32_bytes(m.free));
    let b4 = splice(b3, 0x1c, le32_bytes(m.system));
    lemma_field_text(m.name, 64);
    lemma_field_text(m.model, 64);
    let b5 = splice(b4, 0x40, field_bytes(m.name, 64));
    let b6 = splice(b5, 0xc0, field_bytes(m.model, 64));
    lemma_splice(b0, 0x10, le32_bytes(m.size));
    lemma_splice(b1, 0x14, le32_bytes(m.used));
    lemma_splice(b2, 0x18, le32_bytes(m.free));
    lemma_splice(b3, 0x1c, le32_bytes(m.system));
    lemma_splice(b4, 0x40, field_bytes(m.name, 64));
    lemma_splice(b5, 0xc0, field_bytes(m.model, 64));
    assert(b6 == spec_serialize_rio_mem(m));
    lemma_le32_roundtrip(m.size);
    lemma_le32_roundtrip(m.used);
    lemma_le32_roundtrip(m.free);
    lemma_le32_roundtrip(m.system);
    assert(le32_at(b6, 0x10) == le32_at(le32_bytes(m.size), 0));
    assert(le32_at(b6, 0x14) == le32_at(le32_bytes(m.used), 0));
    assert(le32_at(b6, 0x18) == le32_at(le32_bytes(m.free), 0));
    assert(le32_at(b6, 0x1c) == le32_at(le32_bytes(m.system), 0));
    assert(b6.subrange(0x40, 0x80) =~= field_bytes(m.name, 64));
    assert(b6.subrange(0xc0, 0x100) =~= field_bytes(m.model, 64));
}

/// A record of zero bytes describes an absent unit (size 0).
pub proof fn law_rio_mem_all_zero_absent(buf: Seq<u8>)
    requires
        buf.len() >= 256,
        forall|i: int| 0 <= i < buf.len() ==> buf[i] == 0,
    ensures
        spec_parse_rio_mem(buf).size == 0,
{
}

} // verus!

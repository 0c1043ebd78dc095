//! CRC32 in the rioutil variant: polynomial `0x04C11DB7` applied with right
//! shifts, initial value 0, no final XOR.
//!
//! The device only accepts CRIODATA packets whose checksum was computed with
//! this variant; it differs from the ZIP CRC32.
use vstd::prelude::*;

verus! {

/// The polynomial as used by rioutil (non-reflected constant, right-shift table).
pub const CRC32_RIO_POLY: u32 = 0x04C11DB7;

/// One bit step of the table construction.
pub open spec fn table_bit_step(r: u32) -> u32 {
    if r & 1 != 0 {
        (r >> 1) ^ CRC32_RIO_POLY
    } else {
        r >> 1
    }
}

/// `n` bit steps applied to `r`.
pub open spec fn table_bit_steps(r: u32, n: nat) -> u32
    decreases n,
{
    if n == 0 {
        r
    } else {
        table_bit_step(table_bit_steps(r, (n - 1) as nat))
    }
}

/// Entry `i` of the 256-entry CRC table: eight bit steps starting from `i`.
pub open spec fn crc_table_entry(i: u32) -> u32 {
    table_bit_steps(i, 8)
}

/// One byte step of the checksum.
pub open spec fn crc_byte_step(crc: u32, b: u8) -> u32 {
    (crc >> 8) ^ crc_table_entry((crc ^ (b as u32)) & 0xff)
}

/// The checksum of `bytes`, continuing from the running value `prev`.
pub open spec fn crc_fold(prev: u32, bytes: Seq<u8>) -> u32
    decreases bytes.len(),
{
    if bytes.len() == 0 {
        prev
    } else {
        crc_byte_step(crc_fold(prev, bytes.drop_last()), bytes.last())
    }
}

/// The checksum of `bytes` from the initial value 0.
pub open spec fn spec_crc32(bytes: Seq<u8>) -> u32 {
    crc_fold(0, bytes)
}

/// Builds the 256-entry table.
fn build_table() -> (t: Vec<u32>)
    ensures
        t@.len() == 256,
        forall|i: int| 0 <= i < 256 ==> #[trigger] t@[i] == crc_table_entry(i as u32),
{
    let mut t: Vec<u32> = Vec::new();
    let mut i: u32 = 0;
    while i < 256
        invariant
            i <= 256,
            t@.len() == i,
            forall|k: int| 0 <= k < i ==> #[trigger] t@[k] == crc_table_entry(k as u32),
        decreases 256 - i,
    {
        let mut r: u32 = i;
        let mut j: u32 = 0;
        while j < 8
            invariant
                j <= 8,
                r == table_bit_steps(i, j as nat),
            decreases 8 - j,
        {
            r = if r & 1 != 0 {
                (r >> 1) ^ CRC32_RIO_POLY
            } else {
                r >> 1
            };
            j = j + 1;
        }
        t.push(r);
        i = i + 1;
    }
    t
}

/// Computes the rioutil checksum of `buf`.
///
/// `crc32(b"123456789") == 0x0328b978`; the empty slice and any all-zero
/// buffer give 0.
pub fn crc32(buf: &[u8]) -> (res: u32)
    ensures
        res == spec_crc32(buf@),
{
    crc32_update(0, buf)
}

/// Continues a checksum: `prev` is the value returned for the preceding bytes
/// (0 at the start).
pub fn crc32_update(prev: u32, buf: &[u8]) -> (res: u32)
    ensures
        res == crc_fold(prev, buf@),
{
    let table = build_table();
    let mut crc: u32 = prev;
    let mut i: usize = 0;
    while i < buf.len()
        invariant
            i <= buf@.len(),
            table@.len() == 256,
            forall|k: int| 0 <= k < 256 ==> #[trigger] table@[k] == crc_table_entry(k as u32),
            crc == crc_fold(prev, buf@.take(i as int)),
        decreases buf@.len() - i,
    {
        let byte = buf[i];
        let idx: u32 = (crc ^ (byte as u32)) & 0xff;
        assert(idx < 256) by (bit_vector)
            requires
                idx == (crc ^ (byte as u32)) & 0xff,
        ;
        assert(buf@.take(i + 1).drop_last() =~= buf@.take(i as int));
        crc = (crc >> 8) ^ table[idx as usize];
        i = i + 1;
    }
    assert(buf@.take(buf@.len() as int) =~= buf@);
    crc
}

/// Continuing the checksum over `b` from the checksum of `a` gives the
/// checksum of `a + b`: incremental computation over chunks equals the
/// one-shot computation.
pub proof fn lemma_crc_fold_concat(prev: u32, a: Seq<u8>, b: Seq<u8>)
    ensures
        crc_fold(crc_fold(prev, a), b) == crc_fold(prev, a + b),
    decreases b.len(),
{
    if b.len() == 0 {
        assert(a + b =~= a);
    } else {
        lemma_crc_fold_concat(prev, a, b.drop_last());
        assert((a + b).drop_last() =~= a + b.drop_last());
        assert((a + b).last() == b.last());
    }
}

/// The checksum of `a + b` equals the checksum of `b` continued from the
/// checksum of `a`.
pub proof fn law_crc32_incremental(a: Seq<u8>, b: Seq<u8>)
    ensures
        crc_fold(spec_crc32(a), b) == spec_crc32(a + b),
{
    lemma_crc_fold_concat(0, a, b);
}

proof fn lemma_table_steps_of_zero(n: nat)
    ensures
        table_bit_steps(0, n) == 0,
    decreases n,
{
    if n > 0 {
        lemma_table_steps_of_zero((n - 1) as nat);
        assert((0u32 & 1u32) == 0u32) by (bit_vector);
        assert((0u32 >> 1u32) == 0u32) by (bit_vector);
    }
}

/// A buffer of zero bytes has checksum 0 (the CRC field of every download
/// CRIODATA packet, which carries an empty block, is therefore 0).
pub proof fn law_crc32_all_zero(bytes: Seq<u8>)
    requires
        forall|i: int| 0 <= i < bytes.len() ==> bytes[i] == 0,
    ensures
        spec_crc32(bytes) == 0,
    decreases bytes.len(),
{
    if bytes.len() > 0 {
        law_crc32_all_zero(bytes.drop_last());
        assert(bytes.last() == 0);
        lemma_table_steps_of_zero(8);
        assert(((0u32 ^ (0u8 as u32)) & 0xff) == 0u32) by (bit_vector);
        assert((0u32 >> 8u32) == 0u32) by (bit_vector);
        assert(0u32 ^ 0u32 == 0u32) by (bit_vector);
    }
}

} // verus!

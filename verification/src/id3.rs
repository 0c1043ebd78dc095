//! The size of an ID3v2 tag at the start of an MP3 file.
use vstd::prelude::*;

verus! {

/// The tag's size field: four syncsafe bytes (seven bits each) at offsets 6 to 9.
pub open spec fn syncsafe_size(b: Seq<u8>) -> int {
    (b[6] % 128) * 0x20_0000 + (b[7] % 128) * 0x4000 + (b[8] % 128) * 0x80 + (b[9] % 128)
}

/// Whether `b` starts with a 10-byte ID3v2 header whose size field is at most 16 MiB.
pub open spec fn has_id3v2(b: Seq<u8>) -> bool {
    &&& b.len() >= 10
    &&& b[0] == 0x49 && b[1] == 0x44 && b[2] == 0x33
    &&& syncsafe_size(b) <= 16 * 1024 * 1024
}

/// The number of bytes the ID3v2 tag takes (its header included), or 0 when
/// `b` does not start with one (or claims more than 16 MiB).
pub open spec fn id3v2_total_size(b: Seq<u8>) -> int {
    if has_id3v2(b) {
        10 + syncsafe_size(b)
    } else {
        0
    }
}

/// The total size in bytes of the ID3v2 tag at the start of `buf` (10-byte
/// header included), 0 when there is none. The size field is syncsafe: only
/// the low seven bits of each byte count.
pub fn get_id3v2_size(buf: &[u8]) -> (n: usize)
    ensures
        n as int == id3v2_total_size(buf@),
{
    if buf.len() < 10 {
        return 0;
    }
    if buf[0] != 0x49 || buf[1] != 0x44 || buf[2] != 0x33 {
        return 0;
    }
    let size: usize = ((buf[6] % 128) as usize) * 0x20_0000 + ((buf[7] % 128) as usize) * 0x4000
        + ((buf[8] % 128) as usize) * 0x80 + ((buf[9] % 128) as usize);
    if size > 16 * 1024 * 1024 {
        return 0;
    }
    10 + size
}

} // verus!

//! User-facing views of the device's file records, and the free-space check
//! made before every write.
use vstd::prelude::*;
use crate::constants::{TYPE_MP3, TYPE_PLS, RIO_FILE_SIZE};
use crate::rio_file::RioFile;
use crate::rio_mem::{RioMem, spec_format_size};
use crate::error::CyrioError;
use crate::numfmt::{fixed_point, push_fixed_point};
use crate::strings::{dec_digits, push_decimal, push_str, string_from_chars};

verus! {

/// A song on the device.
#[derive(Debug, Clone, PartialEq, Eq)]
pub struct Song {
    /// File number on the device (used to download, delete or add to a playlist).
    pub file_no: u32,
    /// Size in bytes.
    pub size: u32,
    /// Duration in seconds.
    pub time: u32,
    /// Bit rate in kbps.
    pub bit_rate: u32,
    /// Sample rate in Hz.
    pub sample_rate: u32,
    /// File name.
    pub name: String,
    /// Title.
    pub title: String,
    /// Artist.
    pub artist: String,
    /// Album.
    pub album: String,
}

/// A playlist on the device (a record of type `TYPE_PLS`).
#[derive(Debug, Clone, PartialEq, Eq)]
pub struct Playlist {
    /// File number on the device.
    pub file_no: u32,
    /// Size in bytes of its binary list.
    pub size: u32,
    /// Name.
    pub name: String,
    /// Title.
    pub title: String,
}

/// The song of a file record; the record's bit rate is kbps shifted left by
/// seven, the song's is kbps.
pub fn rio_file_to_song(file: &RioFile) -> (s: Song)
    ensures
        s.file_no == file.file_no,
        s.size == file.size,
        s.time == file.time,
        s.bit_rate == file.bit_rate / 128,
        s.sample_rate == file.sample_rate,
        s.name@ == file.name@,
        s.title@ == file.title@,
        s.artist@ == file.artist@,
        s.album@ == file.album@,
{
    Song {
        file_no: file.file_no,
        size: file.size,
        time: file.time,
        bit_rate: file.bit_rate / 128,
        sample_rate: file.sample_rate,
        name: file.name.clone(),
        title: file.title.clone(),
        artist: file.artist.clone(),
        album: file.album.clone(),
    }
}

/// The playlist of a file record.
pub fn rio_file_to_playlist(file: &RioFile) -> (p: Playlist)
    ensures
        p.file_no == file.file_no,
        p.size == file.size,
        p.name@ == file.name@,
        p.title@ == file.title@,
{
    Playlist { file_no: file.file_no, size: file.size, name: file.name.clone(), title: file.title.clone() }
}

/// Whether the record is an MP3 file.
pub fn is_mp3_file(file: &RioFile) -> (b: bool)
    ensures
        b == (file.file_type == TYPE_MP3),
{
    file.file_type == TYPE_MP3
}

/// Whether the record is a playlist.
pub fn is_playlist_file(file: &RioFile) -> (b: bool)
    ensures
        b == (file.file_type == TYPE_PLS),
{
    file.file_type == TYPE_PLS
}

/// A byte count for people: "{n}B" below 1 KiB, else KiB below 1 MiB, else
/// MiB, with one decimal.
pub open spec fn spec_format_bytes(n: nat) -> Seq<char> {
    if n < 1024 {
        dec_digits(n) + "B"@
    } else if n < 1024 * 1024 {
        fixed_point(n, 1024, 1) + "KB"@
    } else {
        fixed_point(n, 1024 * 1024, 1) + "MB"@
    }
}

fn push_bytes(out: &mut Vec<char>, bytes: usize)
    ensures
        final(out)@ == old(out)@ + spec_format_bytes(bytes as nat),
{
    let ghost o0 = out@;
    if bytes < 1024 {
        push_decimal(out, bytes as u64);
        push_str(out, "B");
        assert(out@ =~= o0 + spec_format_bytes(bytes as nat));
    } else if bytes < 1024 * 1024 {
        push_fixed_point(out, bytes as u64, 1024, 1);
        push_str(out, "KB");
        assert(out@ =~= o0 + spec_format_bytes(bytes as nat));
    } else {
        push_fixed_point(out, bytes as u64, 1024 * 1024, 1);
        push_str(out, "MB");
        assert(out@ =~= o0 + spec_format_bytes(bytes as nat));
    }
}

/// Formats a byte count: "{n}B", "{x.y}KB" or "{x.y}MB" (one decimal).
pub fn format_bytes(bytes: usize) -> (s: String)
    ensures
        s@ == spec_format_bytes(bytes as nat),
{
    let mut out: Vec<char> = Vec::new();
    push_bytes(&mut out, bytes);
    string_from_chars(out.as_slice())
}

/// The message when the memory unit does not exist.
pub open spec fn missing_unit_message(mem_unit: u8) -> Seq<char> {
    "内存单元 "@ + dec_digits(mem_unit as nat) + " 不存在"@ + (if mem_unit == 1 { "（SD 卡未插入？）"@ } else { Seq::empty() })
}

/// The message when the memory unit lacks space.
pub open spec fn no_space_message(required: nat, m: RioMem) -> Seq<char> {
    "存储空间不足：需要 "@ + dec_digits(required) + " 字节（"@ + spec_format_bytes(required) + "），仅有 "@
        + dec_digits(m.free as nat) + " 字节空闲（"@ + spec_format_bytes(m.free as nat) + "）。"@
        + spec_format_size(m@)
}

/// The check made before writing `audio_bytes` of audio to a memory unit:
/// the unit must exist (non-zero size) and have room for the audio and its
/// 2048-byte file header. Both failures are `CyrioError::Device`.
pub fn check_free_space(mem: &RioMem, mem_unit: u8, audio_bytes: usize) -> (r: Result<(), CyrioError>)
    requires
        audio_bytes + RIO_FILE_SIZE <= usize::MAX,
    ensures
        mem.size == 0 ==> (r matches Err(CyrioError::Device(m)) && m@ == missing_unit_message(mem_unit)),
        mem.size > 0 && (mem.free as int) < audio_bytes + RIO_FILE_SIZE ==> (r matches Err(CyrioError::Device(m))
            && m@ == no_space_message((audio_bytes + RIO_FILE_SIZE) as nat, *mem)),
        mem.size > 0 && (mem.free as int) >= audio_bytes + RIO_FILE_SIZE ==> r is Ok,
{
    if !mem.is_present() {
        let mut out: Vec<char> = Vec::new();
        push_str(&mut out, "内存单元 ");
        push_decimal(&mut out, mem_unit as u64);
        push_str(&mut out, " 不存在");
        if mem_unit == 1 {
            push_str(&mut out, "（SD 卡未插入？）");
        }
        assert(out@ =~= missing_unit_message(mem_unit));
        return Err(CyrioError::Device(string_from_chars(out.as_slice())));
    }
    let required: usize = audio_bytes + RIO_FILE_SIZE;
    if (mem.free as usize) < required {
        let mut out: Vec<char> = Vec::new();
        push_str(&mut out, "存储空间不足：需要 ");
        push_decimal(&mut out, required as u64);
        push_str(&mut out, " 字节（");
        push_bytes(&mut out, required);
        push_str(&mut out, "），仅有 ");
        push_decimal(&mut out, mem.free as u64);
        push_str(&mut out, " 字节空闲（");
        push_bytes(&mut out, mem.free as usize);
        push_str(&mut out, "）。");
        let fs = mem.format_size();
        push_str(&mut out, fs.as_str());
        assert(out@ =~= no_space_message(required as nat, *mem));
        return Err(CyrioError::Device(string_from_chars(out.as_slice())));
    }
    Ok(())
}

} // verus!

//! Records handed to the web front end: device, storage and song details.
use vstd::prelude::*;
use crate::rio_file::RioFile;
use crate::rio_mem::{RioMem, spec_format_size};
use crate::audio::Mp3Info;
use crate::playlist::PlaylistSong;
use crate::strings::{hex2, push_hex2, push_str, push_decimal, dec_digits, string_from_chars};

verus! {

/// Whether a device is connected, and its model.
#[derive(Debug, Clone)]
pub struct DeviceInfo {
    /// Whether a device is connected.
    pub connected: bool,
    /// Its model.
    pub model: String,
}

/// A USB device in the list offered for adding a device by hand.
#[derive(Debug, Clone)]
pub struct UsbDeviceListItem {
    /// Vendor id in hexadecimal ("0x045a").
    pub vid: String,
    /// Product id in hexadecimal ("0x5009").
    pub pid: String,
    /// Vendor id.
    pub vid_num: u16,
    /// Product id.
    pub pid_num: u16,
    /// Product name.
    pub name: String,
    /// Manufacturer name.
    pub manufacturer: String,
    /// Whether the vendor is Diamond (0x045a).
    pub is_diamond: bool,
}

/// Storage of a memory unit.
#[derive(Debug, Clone)]
pub struct StorageInfo {
    /// Memory unit (0 internal, 1 SD card).
    pub mem_unit: u8,
    /// Whether the unit exists.
    pub present: bool,
    /// Capacity in bytes.
    pub size: u64,
    /// Bytes used.
    pub used: u64,
    /// Bytes free.
    pub free: u64,
    /// The sizes for people.
    pub size_formatted: String,
}

impl StorageInfo {
    /// The storage of a memory unit record (unit number 0; callers set it).
    pub fn from_mem(mem: RioMem) -> (s: StorageInfo)
        ensures
            s.mem_unit == 0,
            s.present == (mem.size > 0),
            s.size == mem.size,
            s.used == mem.used,
            s.free == mem.free,
            s.size_formatted@ == spec_format_size(mem@),
    {
        StorageInfo {
            mem_unit: 0,
            present: mem.is_present(),
            size: mem.size as u64,
            used: mem.used as u64,
            free: mem.free as u64,
            size_formatted: mem.format_size(),
        }
    }
}

/// A song as the front end lists it.
#[derive(Debug, Clone)]
pub struct SongInfo {
    /// File number.
    pub file_no: u32,
    /// Size in bytes.
    pub size: u32,
    /// Duration in seconds.
    pub time: u32,
    /// File name.
    pub name: String,
    /// Title.
    pub title: String,
    /// Artist.
    pub artist: String,
    /// Album.
    pub album: String,
    /// Bit rate as stored (kbps shifted left by 7).
    pub bit_rate: u32,
    /// Memory unit (0 internal, 1 SD card).
    pub mem_unit: u8,
}

impl SongInfo {
    /// The song of a file record (unit number 0; callers set it).
    pub fn from_file(f: &RioFile) -> (s: SongInfo)
        ensures
            s.file_no == f.file_no,
            s.size == f.size,
            s.time == f.time,
            s.name@ == f.name@,
            s.title@ == f.title@,
            s.artist@ == f.artist@,
            s.album@ == f.album@,
            s.bit_rate == f.bit_rate,
            s.mem_unit == 0,
    {
        SongInfo {
            file_no: f.file_no,
            size: f.size,
            time: f.time,
            name: f.name.clone(),
            title: f.title.clone(),
            artist: f.artist.clone(),
            album: f.album.clone(),
            bit_rate: f.bit_rate,
            mem_unit: 0,
        }
    }
}

/// Technical details read from the MP3 frames.
#[derive(Debug, Clone)]
pub struct SongTechnical {
    /// Duration in seconds.
    pub duration: u32,
    /// Sample rate in Hz.
    pub sample_rate: u32,
    /// Bit rate in kbps.
    pub bit_rate: u32,
    /// MPEG layer.
    pub layer: u8,
    /// Channels.
    pub channels: u8,
}

/// ID3 tags of a song.
#[derive(Debug, Clone)]
pub struct SongId3 {
    /// Title.
    pub title: String,
    /// Artist.
    pub artist: String,
    /// Album.
    pub album: String,
    /// Year.
    pub year: String,
    /// Genre.
    pub genre: String,
    /// Track number.
    pub track: String,
    /// Composer.
    pub composer: String,
}

/// All details of a song.
#[derive(Debug, Clone)]
pub struct SongDetail {
    /// What the list shows.
    pub basic: SongInfo,
    /// Details read from the frames, if any.
    pub technical: Option<SongTechnical>,
    /// ID3 tags.
    pub id3: SongId3,
    /// Cover picture, if any.
    pub cover_art: Option<Vec<u8>>,
    /// Modification time (Unix seconds).
    pub mod_date: u32,
}

/// Byte progress of an upload or download, sent to the front end.
#[derive(Debug, Clone)]
pub struct ByteProgressPayload {
    /// Bytes transferred.
    pub transferred: u32,
    /// Bytes in all.
    pub total: u32,
}

/// The outcome of uploading one file of a batch, for the front end.
#[derive(Debug, Clone)]
pub struct BatchUploadResult {
    /// The file's path.
    pub path: String,
    /// Whether the upload succeeded.
    pub success: bool,
    /// The file number on success, -1 on failure.
    pub file_no: i64,
    /// The error message on failure.
    pub error: String,
}

/// A song to rename, as the front end sends it.
#[derive(Debug, Clone)]
pub struct RenameItemInput {
    /// File number.
    pub file_no: u32,
    /// Memory unit.
    pub mem_unit: u8,
    /// The current title.
    pub title: String,
}

/// Progress of a bulk rename, sent to the front end.
#[derive(Debug, Clone)]
pub struct RenameProgressPayload {
    /// Index of the file being processed (from 1).
    pub current: usize,
    /// Number of files.
    pub total: usize,
    /// Its title (or a note that it was skipped).
    pub current_title: String,
    /// The operation ("转拼音" or "去词").
    pub phase: &'static str,
}

/// Four lower-case hexadecimal digits of `v`, zero-padded.
pub open spec fn hex4(v: u16) -> Seq<char> {
    hex2((v / 256) as u8) + hex2((v % 256) as u8)
}

fn push_hex4(out: &mut Vec<char>, v: u16)
    ensures
        final(out)@ == old(out)@ + hex4(v),
{
    let ghost o0 = out@;
    push_hex2(out, (v / 256) as u8);
    push_hex2(out, (v % 256) as u8);
    assert(out@ =~= o0 + hex4(v));
}

/// The vendor id of Diamond Multimedia.
pub const DIAMOND_VID: u16 = 0x045a;

/// A USB device as the device picker lists it: ids as "0x" and four
/// hexadecimal digits, marked when the vendor is Diamond.
pub fn usb_device_item(vid: u16, pid: u16, name: String, manufacturer: String) -> (r: UsbDeviceListItem)
    ensures
        r.vid@ == "0x"@ + hex4(vid),
        r.pid@ == "0x"@ + hex4(pid),
        r.vid_num == vid,
        r.pid_num == pid,
        r.name@ == name@,
        r.manufacturer@ == manufacturer@,
        r.is_diamond == (vid == DIAMOND_VID),
{
    let mut v: Vec<char> = Vec::new();
    push_str(&mut v, "0x");
    push_hex4(&mut v, vid);
    let mut p: Vec<char> = Vec::new();
    push_str(&mut p, "0x");
    push_hex4(&mut p, pid);
    UsbDeviceListItem {
        vid: string_from_chars(v.as_slice()),
        pid: string_from_chars(p.as_slice()),
        vid_num: vid,
        pid_num: pid,
        name,
        manufacturer,
        is_diamond: vid == DIAMOND_VID,
    }
}

/// The device opened by vendor and product id: its model reads
/// "USB 0x{vid}:0x{pid}".
pub fn forced_device_info(vid: u16, pid: u16) -> (r: DeviceInfo)
    ensures
        r.connected,
        r.model@ == "USB 0x"@ + hex4(vid) + ":0x"@ + hex4(pid),
{
    let mut m: Vec<char> = Vec::new();
    push_str(&mut m, "USB 0x");
    push_hex4(&mut m, vid);
    push_str(&mut m, ":0x");
    push_hex4(&mut m, pid);
    DeviceInfo { connected: true, model: string_from_chars(m.as_slice()) }
}

/// The tray tooltip: the transfer count while one runs (a total above 0),
/// else whether a player is connected.
pub open spec fn spec_tray_tooltip(connected: bool, transferring: Option<(u32, u32)>) -> Seq<char> {
    match transferring {
        Some((done, total)) if total > 0 => "cyrio - 正在传输 ("@ + dec_digits(done as nat) + "/"@
            + dec_digits(total as nat) + ")"@,
        _ => if connected { "cyrio - 已连接 Rio S-Series"@ } else { "cyrio - 未连接设备"@ },
    }
}

/// The tray tooltip (see `spec_tray_tooltip`).
pub fn tray_tooltip(connected: bool, transferring: Option<(u32, u32)>) -> (s: String)
    ensures
        s@ == spec_tray_tooltip(connected, transferring),
{
    let mut out: Vec<char> = Vec::new();
    match transferring {
        Some((done, total)) if total > 0 => {
            push_str(&mut out, "cyrio - 正在传输 (");
            push_decimal(&mut out, done as u64);
            push_str(&mut out, "/");
            push_decimal(&mut out, total as u64);
            push_str(&mut out, ")");
        },
        _ => {
            if connected {
                push_str(&mut out, "cyrio - 已连接 Rio S-Series");
            } else {
                push_str(&mut out, "cyrio - 未连接设备");
            }
        },
    }
    string_from_chars(out.as_slice())
}

/// The records of type `file_type`, in order.
pub open spec fn of_type(files: Seq<RioFile>, file_type: u32) -> Seq<RioFile>
    decreases files.len(),
{
    if files.len() == 0 {
        Seq::empty()
    } else if files.last().file_type == file_type {
        of_type(files.drop_last(), file_type).push(files.last())
    } else {
        of_type(files.drop_last(), file_type)
    }
}

/// `s` lists record `f` of memory unit `mem_unit`.
pub open spec fn lists(s: SongInfo, f: RioFile, mem_unit: u8) -> bool {
    &&& s.file_no == f.file_no
    &&& s.size == f.size
    &&& s.time == f.time
    &&& s.name@ == f.name@
    &&& s.title@ == f.title@
    &&& s.artist@ == f.artist@
    &&& s.album@ == f.album@
    &&& s.bit_rate == f.bit_rate
    &&& s.mem_unit == mem_unit
}

/// The records of type `file_type` (songs or playlists) of a memory unit,
/// as the front end lists them, in order.
pub fn song_infos(files: &[RioFile], mem_unit: u8, file_type: u32) -> (r: Vec<SongInfo>)
    ensures
        r@.len() == of_type(files@, file_type).len(),
        forall|k: int| 0 <= k < r@.len() ==> lists(#[trigger] r@[k], of_type(files@, file_type)[k], mem_unit),
{
    let mut r: Vec<SongInfo> = Vec::new();
    let mut i: usize = 0;
    while i < files.len()
        invariant
            i <= files@.len(),
            r@.len() == of_type(files@.take(i as int), file_type).len(),
            forall|k: int| 0 <= k < r@.len() ==> lists(#[trigger] r@[k], of_type(files@.take(i as int), file_type)[k], mem_unit),
        decreases files@.len() - i,
    {
        assert(files@.take(i + 1).drop_last() =~= files@.take(i as int));
        assert(files@.take(i + 1).last() == files@[i as int]);
        if files[i].file_type == file_type {
            let mut info = SongInfo::from_file(&files[i]);
            info.mem_unit = mem_unit;
            r.push(info);
        }
        i = i + 1;
    }
    assert(files@.take(files@.len() as int) =~= files@);
    r
}

/// A song of a playlist as the front end lists it, on its own memory unit.
pub fn playlist_song_info(ps: &PlaylistSong) -> (s: SongInfo)
    ensures
        s.file_no == ps.song.file_no,
        s.size == ps.song.size,
        s.time == ps.song.time,
        s.name@ == ps.song.name@,
        s.title@ == ps.song.title@,
        s.artist@ == ps.song.artist@,
        s.album@ == ps.song.album@,
        s.bit_rate == ps.song.bit_rate,
        s.mem_unit == ps.mem_unit,
{
    SongInfo {
        file_no: ps.song.file_no,
        size: ps.song.size,
        time: ps.song.time,
        name: ps.song.name.clone(),
        title: ps.song.title.clone(),
        artist: ps.song.artist.clone(),
        album: ps.song.album.clone(),
        bit_rate: ps.song.bit_rate,
        mem_unit: ps.mem_unit,
    }
}

/// The details of a downloaded song: its header's fields, the frame scan
/// if there was one, and the header's title, artist and album as tags (the
/// device keeps no other tags, nor a cover).
pub fn song_detail(header: &RioFile, mem_unit: u8, technical: Option<Mp3Info>) -> (d: SongDetail)
    ensures
        lists(d.basic, *header, mem_unit),
        match technical {
            Some(t) => d.technical matches Some(x) && x.duration == t.duration && x.sample_rate == t.sample_rate
                && x.bit_rate == t.bit_rate && x.layer == t.layer && x.channels == t.channels,
            None => d.technical is None,
        },
        d.id3.title@ == header.title@,
        d.id3.artist@ == header.artist@,
        d.id3.album@ == header.album@,
        d.id3.year@.len() == 0 && d.id3.genre@.len() == 0 && d.id3.track@.len() == 0 && d.id3.composer@.len() == 0,
        d.cover_art is None,
        d.mod_date == header.mod_date,
{
    let mut basic = SongInfo::from_file(header);
    basic.mem_unit = mem_unit;
    let technical = match technical {
        Some(t) => Some(SongTechnical {
            duration: t.duration,
            sample_rate: t.sample_rate,
            bit_rate: t.bit_rate,
            layer: t.layer,
            channels: t.channels,
        }),
        None => None,
    };
    let id3 = SongId3 {
        title: header.title.clone(),
        artist: header.artist.clone(),
        album: header.album.clone(),
        year: String::new(),
        genre: String::new(),
        track: String::new(),
        composer: String::new(),
    };
    SongDetail { basic, technical, id3, cover_art: None, mod_date: header.mod_date }
}

} // verus!

//! Playlists on the device: which songs a playlist lists, and the new
//! playlist data and headers written when one is created or changed.
use vstd::prelude::*;
use crate::constants::{RIO_NUM_OFFSET, TYPE_PLS};
use crate::fidl::{
    FidlEntry, FidlEntryView, FidlPlaylist, parse_fidl, serialize_fidl, append_to_fidl,
    spec_parse_fidl_entries, spec_serialize_fidl, fidl_header_valid, fidl_error_message,
    fidl_entry_count, fidl_entries_fit, law_fidl_roundtrip,
};
use crate::rio_file::{RioFile, RioFileView};
use crate::types::{Song, Playlist, rio_file_to_song, is_mp3_file};
use crate::error::CyrioError;
use crate::strings::{push_str, push_decimal, string_from_chars, dec_digits};

verus! {

/// A song of a playlist, with its place in the playlist.
#[derive(Debug, Clone, PartialEq, Eq)]
pub struct PlaylistSong {
    /// The song.
    pub song: Song,
    /// Its position in the playlist (from 0).
    pub index: usize,
    /// The memory unit the song is on.
    pub mem_unit: u8,
}

/// What `create_playlist` gives back.
#[derive(Debug, Clone)]
pub struct CreatePlaylistResult {
    /// File number assigned by the device.
    pub file_no: u32,
    /// The new playlist.
    pub playlist: Playlist,
}

/// The last record of `files` numbered `no` (later records replace earlier
/// ones with the same number).
pub open spec fn find_last(files: Seq<RioFile>, no: u32) -> Option<int>
    decreases files.len(),
{
    if files.len() == 0 {
        None
    } else if files.last().file_no == no {
        Some(files.len() - 1)
    } else {
        find_last(files.drop_last(), no)
    }
}

fn find_last_exec(files: &[RioFile], no: u32) -> (r: Option<usize>)
    ensures
        match r {
            Some(i) => find_last(files@, no) == Some(i as int) && i < files@.len() && files@[i as int].file_no == no,
            None => find_last(files@, no) is None,
        },
{
    let mut i: usize = files.len();
    assert(files@.take(files@.len() as int) =~= files@);
    while i > 0
        invariant
            i <= files@.len(),
            find_last(files@, no) == find_last(files@.take(i as int), no),
        decreases i,
    {
        assert(files@.take(i as int).drop_last() =~= files@.take(i - 1));
        if files[i - 1].file_no == no {
            assert(files@.take(i as int).last() == files@[i - 1]);
            return Some(i - 1);
        }
        i = i - 1;
    }
    None
}

/// The other memory unit: 1 for 0, 0 for any other.
pub open spec fn other_unit(mem_unit: u8) -> u8 {
    if mem_unit == 0 { 1u8 } else { 0u8 }
}

/// Where an entry's song is: looked up in the playlist's own unit by the
/// entry number less 0x4000 (saturating), then by the number itself, then in
/// the other unit the same two ways. A file number on the SD card already
/// holds the 0x4000 offset, one in internal memory does not.
pub open spec fn locate(rio_num: u32, mem_unit: u8, local: Seq<RioFile>, remote: Seq<RioFile>) -> Option<(RioFile, u8)> {
    let off = if rio_num >= RIO_NUM_OFFSET { (rio_num - RIO_NUM_OFFSET) as u32 } else { 0u32 };
    if find_last(local, off) is Some {
        Some((local[find_last(local, off)->0], mem_unit))
    } else if find_last(local, rio_num) is Some {
        Some((local[find_last(local, rio_num)->0], mem_unit))
    } else if find_last(remote, off) is Some {
        Some((remote[find_last(remote, off)->0], other_unit(mem_unit)))
    } else if find_last(remote, rio_num) is Some {
        Some((remote[find_last(remote, rio_num)->0], other_unit(mem_unit)))
    } else {
        None
    }
}

/// The songs of the entries from `i` on: an entry whose song is not found,
/// or is not an MP3, is left out.
pub open spec fn songs_from(
    entries: Seq<FidlEntryView>,
    i: int,
    mem_unit: u8,
    local: Seq<RioFile>,
    remote: Seq<RioFile>,
) -> Seq<(RioFile, usize, u8)>
    decreases entries.len() - i,
{
    if i < 0 || i >= entries.len() {
        Seq::empty()
    } else {
        let rest = songs_from(entries, i + 1, mem_unit, local, remote);
        match locate(entries[i].rio_num, mem_unit, local, remote) {
            Some((f, unit)) => if f.file_type == crate::constants::TYPE_MP3 {
                seq![(f, i as usize, unit)] + rest
            } else {
                rest
            },
            None => rest,
        }
    }
}

/// Whether `p` is the playlist song made of record `f` at `index` on `unit`.
pub open spec fn is_playlist_song(p: PlaylistSong, f: RioFile, index: usize, unit: u8) -> bool {
    &&& p.index == index
    &&& p.mem_unit == unit
    &&& p.song.file_no == f.file_no
    &&& p.song.size == f.size
    &&& p.song.time == f.time
    &&& p.song.bit_rate == f.bit_rate / 128
    &&& p.song.sample_rate == f.sample_rate
    &&& p.song.name@ == f.name@
    &&& p.song.title@ == f.title@
    &&& p.song.artist@ == f.artist@
    &&& p.song.album@ == f.album@
}

/// The songs of a playlist's entries, in playlist order, given the files of
/// the playlist's memory unit (`local`) and of the other one (`remote`).
pub fn resolve_playlist_songs(entries: &[FidlEntry], mem_unit: u8, local: &[RioFile], remote: &[RioFile]) -> (r: Vec<PlaylistSong>)
    ensures
        r@.len() == songs_from(entries@.map_values(|e: FidlEntry| e@), 0, mem_unit, local@, remote@).len(),
        forall|k: int| 0 <= k < r@.len() ==> {
            let s = songs_from(entries@.map_values(|e: FidlEntry| e@), 0, mem_unit, local@, remote@)[k];
            is_playlist_song(#[trigger] r@[k], s.0, s.1, s.2)
        },
{
    let ghost es = entries@.map_values(|e: FidlEntry| e@);
    let other: u8 = if mem_unit == 0 { 1 } else { 0 };
    let mut r: Vec<PlaylistSong> = Vec::new();
    let mut i: usize = 0;
    let ghost mut done: Seq<(RioFile, usize, u8)> = Seq::empty();
    while i < entries.len()
        invariant
            i <= entries@.len(),
            es == entries@.map_values(|e: FidlEntry| e@),
            other == other_unit(mem_unit),
            songs_from(es, 0, mem_unit, local@, remote@) == done + songs_from(es, i as int, mem_unit, local@, remote@),
            r@.len() == done.len(),
            forall|k: int| 0 <= k < r@.len() ==> is_playlist_song(#[trigger] r@[k], done[k].0, done[k].1, done[k].2),
        decreases entries@.len() - i,
    {
        let rio_num = entries[i].rio_num;
        let off: u32 = if rio_num >= RIO_NUM_OFFSET { rio_num - RIO_NUM_OFFSET } else { 0 };
        let found: Option<(usize, bool)> = match find_last_exec(local, off) {
            Some(j) => Some((j, true)),
            None => match find_last_exec(local, rio_num) {
                Some(j) => Some((j, true)),
                None => match find_last_exec(remote, off) {
                    Some(j) => Some((j, false)),
                    None => match find_last_exec(remote, rio_num) {
                        Some(j) => Some((j, false)),
                        None => None,
                    },
                },
            },
        };
        let ghost rest = songs_from(es, i + 1, mem_unit, local@, remote@);
        match found {
            Some((j, is_local)) => {
                let f = if is_local { &local[j] } else { &remote[j] };
                let unit = if is_local { mem_unit } else { other };
                if is_mp3_file(f) {
                    let song = rio_file_to_song(f);
                    r.push(PlaylistSong { song, index: i, mem_unit: unit });
                    proof {
                        let item = (*f, i, unit);
                        assert(songs_from(es, i as int, mem_unit, local@, remote@) == seq![item] + rest);
                        assert(done + (seq![item] + rest) =~= done.push(item) + rest);
                        done = done.push(item);
                    }
                } else {
                    assert(songs_from(es, i as int, mem_unit, local@, remote@) == rest);
                }
            },
            None => {
                assert(songs_from(es, i as int, mem_unit, local@, remote@) == rest);
            },
        }
        i = i + 1;
    }
    assert(songs_from(es, i as int, mem_unit, local@, remote@) =~= Seq::<(RioFile, usize, u8)>::empty());
    assert(done + Seq::<(RioFile, usize, u8)>::empty() =~= done);
    r
}

/// The flags of a new entry: [0, 0, 0] when song and playlist are on the
/// same memory unit, [0, 0, 1] otherwise.
pub fn playlist_sflags(song_mem_unit: u8, playlist_mem_unit: u8) -> (f: [u8; 3])
    ensures
        f@ == (if song_mem_unit == playlist_mem_unit { seq![0u8, 0, 0] } else { seq![0u8, 0, 1] }),
{
    let f: [u8; 3] = if song_mem_unit == playlist_mem_unit { [0, 0, 0] } else { [0, 0, 1] };
    assert(f@ =~= (if song_mem_unit == playlist_mem_unit { seq![0u8, 0, 0] } else { seq![0u8, 0, 1] }));
    f
}

/// The number an entry stores for a song: its file number on the SD card
/// (which already holds the 0x4000 offset), the file number plus 0x4000 in
/// internal memory.
pub open spec fn spec_rio_num(song_file_no: u32, song_mem_unit: u8) -> int {
    if song_mem_unit == 1 {
        song_file_no as int
    } else {
        song_file_no + RIO_NUM_OFFSET
    }
}

/// The entry number of a song (see `spec_rio_num`).
pub fn playlist_rio_num(song_file_no: u32, song_mem_unit: u8) -> (n: u32)
    requires
        spec_rio_num(song_file_no, song_mem_unit) <= u32::MAX,
    ensures
        n == spec_rio_num(song_file_no, song_mem_unit),
{
    if song_mem_unit == 1 {
        song_file_no
    } else {
        song_file_no + RIO_NUM_OFFSET
    }
}

/// A playlist's data with the song appended (flags and number as above);
/// fails as the playlist parse does.
pub fn add_song_to_fidl(data: &[u8], song_file_no: u32, song_mem_unit: u8, playlist_mem_unit: u8) -> (r: Result<Vec<u8>, CyrioError>)
    requires
        data@.len() + 6 <= usize::MAX,
        spec_rio_num(song_file_no, song_mem_unit) <= u32::MAX,
    ensures
        r is Ok <==> fidl_header_valid(data@),
        r matches Ok(v) ==> v@ == spec_serialize_fidl(
            spec_parse_fidl_entries(data@).push(
                FidlEntryView {
                    rio_num: spec_rio_num(song_file_no, song_mem_unit) as u32,
                    sflags: if song_mem_unit == playlist_mem_unit { seq![0u8, 0, 0] } else { seq![0u8, 0, 1] },
                },
            ),
        ),
        r matches Err(e) ==> e matches CyrioError::Parse(m) && m@ == fidl_error_message(data@),
{
    let sflags = playlist_sflags(song_mem_unit, playlist_mem_unit);
    let rio_num = playlist_rio_num(song_file_no, song_mem_unit);
    append_to_fidl(data, rio_num, sflags)
}

/// The message when the entry to remove does not exist.
pub open spec fn remove_range_message(index: nat, n: nat) -> Seq<char> {
    "remove_from_playlist: index "@ + dec_digits(index) + " out of range (entries="@ + dec_digits(n) + ")"@
}

/// A playlist's data with the entry at `index` removed. Fails as the parse
/// does, or with `Other` when there is no such entry.
pub fn remove_fidl_entry(data: &[u8], index: usize) -> (r: Result<Vec<u8>, CyrioError>)
    ensures
        !fidl_header_valid(data@) ==> (r matches Err(CyrioError::Parse(m)) && m@ == fidl_error_message(data@)),
        fidl_header_valid(data@) && index >= spec_parse_fidl_entries(data@).len() ==> (r matches Err(CyrioError::Other(m))
            && m@ == remove_range_message(index as nat, spec_parse_fidl_entries(data@).len())),
        fidl_header_valid(data@) && index < spec_parse_fidl_entries(data@).len() ==> (r matches Ok(v)
            && v@ == spec_serialize_fidl(spec_parse_fidl_entries(data@).remove(index as int))),
{
    let mut playlist = match parse_fidl(data) {
        Ok(p) => p,
        Err(e) => {
            return Err(e);
        },
    };
    let n = playlist.entries.len();
    if index >= n {
        let mut out: Vec<char> = Vec::new();
        push_str(&mut out, "remove_from_playlist: index ");
        push_decimal(&mut out, index as u64);
        push_str(&mut out, " out of range (entries=");
        push_decimal(&mut out, n as u64);
        push_str(&mut out, ")");
        assert(out@ =~= remove_range_message(index as nat, n as nat));
        return Err(CyrioError::Other(string_from_chars(out.as_slice())));
    }
    let ghost before = playlist@;
    playlist.entries.remove(index);
    assert(playlist@ =~= before.remove(index as int));
    Ok(serialize_fidl(&playlist))
}

/// The header of a new, empty playlist named `name` of `size` bytes: type
/// PLS, name and title `name`, modification time `now`; the device assigns
/// file number and start.
pub fn new_playlist_header(name: &str, size: u32, now: u32) -> (h: RioFile)
    ensures
        h@ == (RioFileView {
            file_no: 0,
            start: 0,
            size,
            time: 0,
            mod_date: now,
            bits: 0,
            file_type: TYPE_PLS,
            sample_rate: 0,
            bit_rate: 0,
            name: name@,
            title: name@,
            artist: Seq::empty(),
            album: Seq::empty(),
        }),
{
    RioFile {
        file_no: 0,
        start: 0,
        size,
        time: 0,
        mod_date: now,
        bits: 0,
        file_type: TYPE_PLS,
        sample_rate: 0,
        bit_rate: 0,
        name: name.to_owned(),
        title: name.to_owned(),
        artist: String::new(),
        album: String::new(),
    }
}

/// What creating playlist `name` of `size` bytes gives once the device
/// assigned `file_no`.
pub fn created_playlist(file_no: u32, name: &str, size: u32) -> (r: CreatePlaylistResult)
    ensures
        r.file_no == file_no,
        r.playlist.file_no == file_no,
        r.playlist.size == size,
        r.playlist.name@ == name@,
        r.playlist.title@ == name@,
{
    CreatePlaylistResult {
        file_no,
        playlist: Playlist { file_no, size, name: name.to_owned(), title: name.to_owned() },
    }
}

/// A playlist header after its data changed: new size and modification
/// time, all else kept.
pub fn resized_header(header: RioFile, size: u32, now: u32) -> (h: RioFile)
    ensures
        h@ == (RioFileView { size, mod_date: now, ..header@ }),
{
    let mut h = header;
    h.size = size;
    h.mod_date = now;
    h
}

/// Removing an entry and reading the playlist back gives the old entries
/// without the removed one, in the same order.
pub proof fn law_remove_then_parse(buf: Seq<u8>, index: int)
    requires
        fidl_header_valid(buf),
        0 <= index < spec_parse_fidl_entries(buf).len(),
    ensures
        spec_parse_fidl_entries(spec_serialize_fidl(spec_parse_fidl_entries(buf).remove(index)))
            == spec_parse_fidl_entries(buf).remove(index),
{
    let es = spec_parse_fidl_entries(buf).remove(index);
    let all = spec_parse_fidl_entries(buf);
    assert forall|k: int| 0 <= k < all.len() implies (#[trigger] all[k]).rio_num < 0x1000000 && all[k].sflags.len() == 3 by {
        let off = 12 + 6 * k;
        assert(buf[off] + buf[off + 1] * 256 + buf[off + 2] * 65536 < 0x1000000);
    }
    assert forall|k: int| 0 <= k < es.len() implies (#[trigger] es[k]).rio_num < 0x1000000 && es[k].sflags.len() == 3 by {
        if k < index {
            assert(es[k] == all[k]);
        } else {
            assert(es[k] == all[k + 1]);
        }
    }
    assert(fidl_entry_count(buf) < 0x1000000);
    law_fidl_roundtrip(es);
}

} // verus!

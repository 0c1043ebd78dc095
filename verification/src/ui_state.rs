//! How the desktop front end reacts to what the device task reports: the
//! next view state for each event, and the commands and audio actions it
//! then issues.
use vstd::prelude::*;
use crate::app_state::{
    Command, ProgressInfo, SongEntry, StorageStatus, UploadFileEntry, UploadFileStatus, MEM_UNIT_INTERNAL,
    MEM_UNIT_SD, other_units, tagged, merge_listed, new_upload_files, upload_started, upload_finished,
    upload_progress,
};
use crate::error::{CyrioError, error_message};
use crate::kana::string_views;
use crate::playlist::PlaylistSong;
use crate::rename::RenameResult;
use crate::rio_file::RioFile;
use crate::rio_mem::RioMem;
use crate::strings::{push_str, push_chars, push_decimal, str_chars, string_from_chars, dec_digits};
use crate::upload::UploadResult;

verus! {

/// A USB device found by a scan.
#[derive(Debug, Clone)]
pub struct UsbDevice {
    /// Vendor id.
    pub vid: u16,
    /// Product id.
    pub pid: u16,
    /// Product name.
    pub name: String,
    /// Manufacturer.
    pub manufacturer: String,
}

/// The upload dialog: its files, the one being sent, and whether the batch
/// has finished (the dialog then closes shortly after).
#[derive(Debug, Clone)]
pub struct UploadDialog {
    /// The files of the batch.
    pub files: Vec<UploadFileEntry>,
    /// Index of the file being sent.
    pub current_index: usize,
    /// Whether the batch has finished.
    pub finished: bool,
}

/// What the front end shows and keeps between events.
#[derive(Debug)]
pub struct UiState {
    /// The page shown.
    pub page_path: String,
    /// Whether a device is connected.
    pub connected: bool,
    /// Whether a connection is being made.
    pub connecting: bool,
    /// Whether the audio thread runs.
    pub audio_running: bool,
    /// USB devices found by the last scan.
    pub usb_devices: Vec<UsbDevice>,
    /// Whether a scan is running.
    pub scanning: bool,
    /// Internal memory, once read.
    pub internal_mem: Option<RioMem>,
    /// SD card, once read.
    pub sd_mem: Option<RioMem>,
    /// Songs of both memory units.
    pub songs: Vec<SongEntry>,
    /// Playlists of both memory units.
    pub playlists: Vec<SongEntry>,
    /// File numbers of the selected songs.
    pub selected_song_ids: Vec<u32>,
    /// The song row clicked last.
    pub last_clicked_song_index: Option<usize>,
    /// Songs of the open playlist.
    pub playlist_songs: Vec<PlaylistSong>,
    /// Whether the open playlist is being read.
    pub loading_playlist_songs: bool,
    /// The song playing.
    pub current_playing_file_no: Option<u32>,
    /// The text of the loading overlay, when shown.
    pub show_loading_modal: Option<String>,
    /// Progress of the running transfer.
    pub progress: Option<ProgressInfo>,
    /// The upload dialog, when open.
    pub upload_transfer: Option<UploadDialog>,
    /// The status line.
    pub status_message: Option<String>,
    /// The notice toast.
    pub notice_message: Option<String>,
    /// Whether the notice is new (its display time starts at the next frame).
    pub notice_fresh: bool,
    /// The log, at most the last 1000 messages.
    pub logs: Vec<String>,
    /// Whether song or playlist lists are being read.
    pub loading: bool,
    /// Song lists still to arrive.
    pub pending_song_loads: u8,
    /// Playlist lists still to arrive.
    pub pending_playlist_loads: u8,
    /// The rename dialog (file number, unit, title), when open.
    pub show_rename_dialog: Option<(u32, u8, String)>,
    /// The text typed in the rename dialog.
    pub rename_input: String,
}

/// What the device task reports.
#[derive(Debug)]
pub enum Event {
    /// The device was opened, or could not be.
    DeviceOpened(Result<(), CyrioError>),
    /// The device was closed.
    DeviceClosed,
    /// A USB scan finished.
    DevicesScanned(Vec<UsbDevice>),
    /// The songs of a memory unit were listed.
    SongsListedForMem { songs: Vec<RioFile>, mem_unit: u8 },
    /// The playlists of a memory unit were listed.
    PlaylistsListedForMem { playlists: Vec<RioFile>, mem_unit: u8 },
    /// The songs of a playlist were listed.
    PlaylistSongsListed(Result<Vec<PlaylistSong>, CyrioError>),
    /// Byte progress of the file being uploaded.
    UploadProgress { sent_bytes: u64, total_bytes: u64 },
    /// A batch upload of these files started.
    UploadBatchStarted { names: Vec<String> },
    /// The file at `index` of the batch started.
    UploadFileStarted { index: usize, name: String },
    /// The file at `index` of the batch ended.
    UploadFileCompleted { index: usize, success: bool },
    /// A single upload ended (the new file number on success).
    UploadCompleted(Result<u32, CyrioError>),
    /// A batch upload ended.
    UploadBatchCompleted(Vec<UploadResult>),
    /// Byte progress of a download.
    DownloadProgress { received_bytes: u64, total_bytes: u64 },
    /// A download to a file ended.
    DownloadCompleted(Result<(), CyrioError>),
    /// A song was downloaded to be played.
    SongDownloaded(Result<Vec<u8>, CyrioError>),
    /// A delete ended.
    DeleteCompleted(Result<(), CyrioError>),
    /// Adding to a playlist ended.
    AddToPlaylistCompleted(Result<(), CyrioError>),
    /// Creating a playlist ended (its file number on success).
    CreatePlaylistCompleted(Result<u32, CyrioError>),
    /// Repairing a playlist ended.
    PlaylistRepaired(Result<(), CyrioError>),
    /// A rename ended.
    RenameCompleted(Result<(), CyrioError>),
    /// A bulk rename or repair ended.
    BatchOperationCompleted { kind: String, results: Vec<RenameResult> },
    /// The storage of both units was read.
    StorageStatusGot(Result<StorageStatus, CyrioError>),
    /// A message for the log.
    Log(String),
}

/// What the front end does after an event besides changing its state.
#[derive(Debug)]
pub enum UiAction {
    /// Send a command to the device task.
    Send(Command),
    /// Start the audio thread.
    StartAudio,
    /// Stop playback and end the audio thread.
    StopAudio,
    /// Play this MP3 data.
    PlayAudio(Vec<u8>),
    /// Clear the audio thread's loading mark.
    AudioLoaded,
}

/// The most messages the log keeps.
pub const LOG_LIMIT: usize = 1000;

/// The last `n` items of `x` (all of them when there are fewer).
pub open spec fn keep_last(x: Seq<Seq<char>>, n: nat) -> Seq<Seq<char>> {
    if x.len() > n {
        x.skip(x.len() - n)
    } else {
        x
    }
}

/// `r` is `t` showing `m` as status and as a new notice.
pub open spec fn with_status(t: UiState, m: Seq<char>, r: UiState) -> bool {
    &&& r.status_message matches Some(x) && x@ == m
    &&& r.notice_message matches Some(y) && y@ == m
    &&& r == UiState { status_message: r.status_message, notice_message: r.notice_message, notice_fresh: true, ..t }
}

/// `r` is `t` showing `m` as status and notice, with `m` also logged.
pub open spec fn with_status_logged(t: UiState, m: Seq<char>, r: UiState) -> bool {
    &&& string_views(r.logs@) == keep_last(string_views(t.logs@).push(m), LOG_LIMIT as nat)
    &&& with_status(UiState { logs: r.logs, ..t }, m, r)
}

/// Commands that reload the song lists of both units.
pub open spec fn reload_songs() -> Seq<UiAction> {
    seq![UiAction::Send(Command::ListSongs(MEM_UNIT_INTERNAL)), UiAction::Send(Command::ListSongs(MEM_UNIT_SD))]
}

/// Commands that reload the playlists of both units.
pub open spec fn reload_playlists() -> Seq<UiAction> {
    seq![
        UiAction::Send(Command::ListPlaylists(MEM_UNIT_INTERNAL)),
        UiAction::Send(Command::ListPlaylists(MEM_UNIT_SD)),
    ]
}

/// One less, but not below zero.
pub open spec fn one_less(n: u8) -> u8 {
    if n > 0 { (n - 1) as u8 } else { 0 }
}

/// Uploads of a batch that succeeded.
pub open spec fn upload_successes(rs: Seq<UploadResult>) -> nat
    decreases rs.len(),
{
    if rs.len() == 0 {
        0
    } else {
        upload_successes(rs.drop_last()) + if rs.last().success { 1nat } else { 0nat }
    }
}

/// Renames of a batch that succeeded.
pub open spec fn rename_successes(rs: Seq<RenameResult>) -> nat
    decreases rs.len(),
{
    if rs.len() == 0 {
        0
    } else {
        rename_successes(rs.drop_last()) + if rs.last().success { 1nat } else { 0nat }
    }
}

/// "成功 {ok}，失败 {failed}".
pub open spec fn tally(ok: nat, failed: nat) -> Seq<char> {
    "成功 "@ + dec_digits(ok) + "，失败 "@ + dec_digits(failed)
}

/// The files of a dialog after the file at `i` started.
pub open spec fn started_files(f: Seq<UploadFileEntry>, i: int) -> Seq<UploadFileEntry> {
    if 0 <= i < f.len() { f.update(i, UploadFileEntry { status: UploadFileStatus::Uploading, ..f[i] }) } else { f }
}

/// The files of a dialog after the file at `i` ended.
pub open spec fn finished_files(f: Seq<UploadFileEntry>, i: int, ok: bool) -> Seq<UploadFileEntry> {
    if 0 <= i < f.len() {
        f.update(i, UploadFileEntry {
            status: if ok { UploadFileStatus::Done } else { UploadFileStatus::Failed },
            transferred: if ok { f[i].total } else { f[i].transferred },
            ..f[i]
        })
    } else {
        f
    }
}

/// The files of a dialog after progress of the file at `i`.
pub open spec fn progressed_files(f: Seq<UploadFileEntry>, i: int, sent: u64, total: u64) -> Seq<UploadFileEntry> {
    if 0 <= i < f.len() { f.update(i, UploadFileEntry { transferred: sent, total, ..f[i] }) } else { f }
}

/// `r` is `s` with the progress bar, if shown, at `cur` of `total`.
pub open spec fn progress_at(s: Option<ProgressInfo>, cur: u64, total: u64) -> Option<ProgressInfo> {
    match s {
        Some(p) => Some(ProgressInfo { current: cur, total, ..p }),
        None => None,
    }
}

/// The record of a memory unit as the storage status describes it.
pub open spec fn mem_of(size: u64, used: u64, free: u64, r: RioMem) -> bool {
    r.size == size as u32 && r.used == used as u32 && r.free == free as u32 && r.system == 0
}

/// How the state `s` changes on event `e` into `r`, with actions `a`.
pub open spec fn steps_to(s: UiState, e: Event, r: UiState, a: Seq<UiAction>) -> bool {
    match e {
        Event::DeviceOpened(Ok(_)) => {
            &&& r.page_path@ == "songs"@
            &&& with_status_logged(
                UiState {
                    connected: true,
                    connecting: false,
                    audio_running: true,
                    page_path: r.page_path,
                    pending_song_loads: 2,
                    pending_playlist_loads: 2,
                    loading: true,
                    ..s
                },
                "设备已连接"@,
                r,
            )
            &&& a == seq![UiAction::StartAudio, UiAction::Send(Command::GetStorageStatus)] + reload_songs() + reload_playlists()
        },
        Event::DeviceOpened(Err(err)) => {
            &&& with_status_logged(UiState { connected: false, connecting: false, ..s }, "连接失败："@ + error_message(err), r)
            &&& a == Seq::<UiAction>::empty()
        },
        Event::DeviceClosed => {
            &&& r.songs@.len() == 0 && r.playlists@.len() == 0 && r.selected_song_ids@.len() == 0
            &&& with_status(
                UiState {
                    connected: false,
                    connecting: false,
                    audio_running: false,
                    songs: r.songs,
                    playlists: r.playlists,
                    internal_mem: None,
                    sd_mem: None,
                    selected_song_ids: r.selected_song_ids,
                    last_clicked_song_index: None,
                    current_playing_file_no: None,
                    ..s
                },
                "设备已断开"@,
                r,
            )
            &&& a == if s.audio_running { seq![UiAction::StopAudio] } else { Seq::<UiAction>::empty() }
        },
        Event::DevicesScanned(devices) => {
            &&& r == UiState { usb_devices: devices, scanning: false, ..s }
            &&& a == Seq::<UiAction>::empty()
        },
        Event::SongsListedForMem { songs, mem_unit } => {
            &&& r.songs@ == other_units(s.songs@, mem_unit) + tagged(songs@, mem_unit)
            &&& with_status(
                UiState {
                    songs: r.songs,
                    pending_song_loads: one_less(s.pending_song_loads),
                    loading: if one_less(s.pending_song_loads) == 0 { false } else { s.loading },
                    ..s
                },
                "已加载 "@ + dec_digits(r.songs@.len()) + " 首歌曲"@,
                r,
            )
            &&& a == Seq::<UiAction>::empty()
        },
        Event::PlaylistsListedForMem { playlists, mem_unit } => {
            &&& r.playlists@ == other_units(s.playlists@, mem_unit) + tagged(playlists@, mem_unit)
            &&& with_status(
                UiState {
                    playlists: r.playlists,
                    pending_playlist_loads: one_less(s.pending_playlist_loads),
                    loading: if one_less(s.pending_playlist_loads) == 0 { false } else { s.loading },
                    ..s
                },
                "已加载 "@ + dec_digits(r.playlists@.len()) + " 个歌单"@,
                r,
            )
            &&& a == Seq::<UiAction>::empty()
        },
        Event::PlaylistSongsListed(Ok(songs)) => {
            &&& with_status(
                UiState { loading_playlist_songs: false, playlist_songs: songs, ..s },
                "已加载歌单内 "@ + dec_digits(songs@.len()) + " 首歌曲"@,
                r,
            )
            &&& a == Seq::<UiAction>::empty()
        },
        Event::PlaylistSongsListed(Err(err)) => {
            &&& with_status(UiState { loading_playlist_songs: false, ..s }, "加载歌单内容失败："@ + error_message(err), r)
            &&& a == Seq::<UiAction>::empty()
        },
        Event::UploadProgress { sent_bytes, total_bytes } => {
            &&& match s.upload_transfer {
                Some(x) => r.upload_transfer matches Some(y) && y.current_index == x.current_index
                    && y.finished == x.finished
                    && y.files@ == progressed_files(x.files@, x.current_index as int, sent_bytes, total_bytes),
                None => r.upload_transfer is None,
            }
            &&& r == UiState {
                progress: progress_at(s.progress, sent_bytes, total_bytes),
                upload_transfer: r.upload_transfer,
                ..s
            }
            &&& a == Seq::<UiAction>::empty()
        },
        Event::UploadBatchStarted { names } => {
            &&& r.upload_transfer matches Some(d) && d.current_index == 0 && !d.finished
                && d.files@.len() == names@.len()
                && forall|k: int| 0 <= k < d.files@.len() ==> {
                    &&& (#[trigger] d.files@[k]).name@ == names@[k]@
                    &&& d.files@[k].transferred == 0 && d.files@[k].total == 0
                    &&& d.files@[k].status == UploadFileStatus::Pending
                }
            &&& r == UiState { upload_transfer: r.upload_transfer, ..s }
            &&& a == Seq::<UiAction>::empty()
        },
        Event::UploadFileStarted { index, name: _ } => {
            &&& match s.upload_transfer {
                Some(x) => r.upload_transfer matches Some(y) && y.current_index == index && y.finished == x.finished
                    && y.files@ == started_files(x.files@, index as int),
                None => r.upload_transfer is None,
            }
            &&& r == UiState { upload_transfer: r.upload_transfer, ..s }
            &&& a == Seq::<UiAction>::empty()
        },
        Event::UploadFileCompleted { index, success } => {
            &&& match s.upload_transfer {
                Some(x) => r.upload_transfer matches Some(y) && y.current_index == x.current_index
                    && y.finished == x.finished && y.files@ == finished_files(x.files@, index as int, success),
                None => r.upload_transfer is None,
            }
            &&& r == UiState { upload_transfer: r.upload_transfer, ..s }
            &&& a == Seq::<UiAction>::empty()
        },
        Event::UploadCompleted(Ok(no)) => {
            &&& with_status(UiState { progress: None, ..s }, "上传完成，新文件号 "@ + dec_digits(no as nat), r)
            &&& a == reload_songs()
        },
        Event::UploadCompleted(Err(err)) => {
            &&& with_status(UiState { progress: None, ..s }, "上传失败："@ + error_message(err), r)
            &&& a == Seq::<UiAction>::empty()
        },
        Event::UploadBatchCompleted(results) => {
            let ok = upload_successes(results@);
            &&& match s.upload_transfer {
                Some(x) => r.upload_transfer matches Some(y) && y.current_index == x.current_index && y.finished
                    && y.files == x.files,
                None => r.upload_transfer is None,
            }
            &&& with_status(
                UiState { progress: None, show_loading_modal: None, upload_transfer: r.upload_transfer, ..s },
                "批量上传完成："@ + tally(ok, (results@.len() - ok) as nat),
                r,
            )
            &&& a == reload_songs()
        },
        Event::DownloadProgress { received_bytes, total_bytes } => {
            &&& r == UiState { progress: progress_at(s.progress, received_bytes, total_bytes), ..s }
            &&& a == Seq::<UiAction>::empty()
        },
        Event::DownloadCompleted(Ok(_)) => {
            &&& with_status(UiState { progress: None, ..s }, "下载完成"@, r)
            &&& a == Seq::<UiAction>::empty()
        },
        Event::DownloadCompleted(Err(err)) => {
            &&& with_status(UiState { progress: None, ..s }, "下载失败："@ + error_message(err), r)
            &&& a == Seq::<UiAction>::empty()
        },
        Event::SongDownloaded(Ok(data)) => {
            &&& with_status(s, "开始播放"@, r)
            &&& a == if s.audio_running {
                seq![UiAction::PlayAudio(data), UiAction::AudioLoaded]
            } else {
                Seq::<UiAction>::empty()
            }
        },
        Event::SongDownloaded(Err(err)) => {
            &&& with_status(s, "播放下载失败："@ + error_message(err), r)
            &&& a == if s.audio_running { seq![UiAction::AudioLoaded] } else { Seq::<UiAction>::empty() }
        },
        Event::DeleteCompleted(Ok(_)) => {
            &&& with_status(UiState { progress: None, ..s }, "删除完成"@, r)
            &&& a == reload_songs() + reload_playlists()
        },
        Event::DeleteCompleted(Err(err)) => {
            &&& with_status(UiState { progress: None, ..s }, "删除失败："@ + error_message(err), r)
            &&& a == Seq::<UiAction>::empty()
        },
        Event::AddToPlaylistCompleted(Ok(_)) => {
            &&& with_status(s, "已加入歌单"@, r)
            &&& a == Seq::<UiAction>::empty()
        },
        Event::AddToPlaylistCompleted(Err(err)) => {
            &&& with_status(s, "加入歌单失败："@ + error_message(err), r)
            &&& a == Seq::<UiAction>::empty()
        },
        Event::CreatePlaylistCompleted(Ok(no)) => {
            &&& with_status(s, "已创建歌单，文件号 "@ + dec_digits(no as nat), r)
            &&& a == reload_playlists()
        },
        Event::CreatePlaylistCompleted(Err(err)) => {
            &&& with_status(s, "创建歌单失败："@ + error_message(err), r)
            &&& a == Seq::<UiAction>::empty()
        },
        Event::PlaylistRepaired(Ok(_)) => {
            &&& with_status(s, "歌单编码已修复"@, r)
            &&& a == reload_playlists()
        },
        Event::PlaylistRepaired(Err(err)) => {
            &&& with_status(s, "修复失败："@ + error_message(err), r)
            &&& a == Seq::<UiAction>::empty()
        },
        Event::RenameCompleted(Ok(_)) => {
            &&& r.rename_input@.len() == 0
            &&& with_status(UiState { show_rename_dialog: None, rename_input: r.rename_input, ..s }, "已重命名"@, r)
            &&& a == reload_songs()
        },
        Event::RenameCompleted(Err(err)) => {
            &&& with_status(s, "重命名失败："@ + error_message(err), r)
            &&& a == Seq::<UiAction>::empty()
        },
        Event::BatchOperationCompleted { kind, results } => {
            let ok = rename_successes(results@);
            &&& with_status(
                UiState { progress: None, show_loading_modal: None, ..s },
                kind@ + " 完成："@ + tally(ok, (results@.len() - ok) as nat),
                r,
            )
            &&& a == reload_songs()
        },
        Event::StorageStatusGot(Ok(st)) => {
            &&& r.internal_mem matches Some(m) && mem_of(st.internal.size, st.internal.used, st.internal.free, m)
                && m.name == st.internal.name && m.model == st.internal.model
            &&& r.sd_mem matches Some(m) && mem_of(st.sd_card.size, st.sd_card.used, st.sd_card.free, m)
                && m.name == st.sd_card.name && m.model == st.sd_card.model
            &&& r == UiState { internal_mem: r.internal_mem, sd_mem: r.sd_mem, ..s }
            &&& a == Seq::<UiAction>::empty()
        },
        Event::StorageStatusGot(Err(err)) => {
            &&& with_status(s, "读取存储信息失败："@ + error_message(err), r)
            &&& a == Seq::<UiAction>::empty()
        },
        Event::Log(msg) => {
            &&& string_views(r.logs@) == keep_last(string_views(s.logs@).push(msg@), LOG_LIMIT as nat)
            &&& r == UiState { logs: r.logs, ..s }
            &&& a == Seq::<UiAction>::empty()
        },
    }
}

fn count_upload_successes(rs: &Vec<UploadResult>) -> (n: usize)
    ensures
        n == upload_successes(rs@),
        n <= rs@.len(),
{
    let mut n: usize = 0;
    let mut i: usize = 0;
    while i < rs.len()
        invariant
            i <= rs@.len(),
            n == upload_successes(rs@.take(i as int)),
            n <= i,
        decreases rs@.len() - i,
    {
        assert(rs@.take(i + 1).drop_last() =~= rs@.take(i as int));
        if rs[i].success {
            n = n + 1;
        }
        i = i + 1;
    }
    assert(rs@.take(rs@.len() as int) =~= rs@);
    n
}

fn count_rename_successes(rs: &Vec<RenameResult>) -> (n: usize)
    ensures
        n == rename_successes(rs@),
        n <= rs@.len(),
{
    let mut n: usize = 0;
    let mut i: usize = 0;
    while i < rs.len()
        invariant
            i <= rs@.len(),
            n == rename_successes(rs@.take(i as int)),
            n <= i,
        decreases rs@.len() - i,
    {
        assert(rs@.take(i + 1).drop_last() =~= rs@.take(i as int));
        if rs[i].success {
            n = n + 1;
        }
        i = i + 1;
    }
    assert(rs@.take(rs@.len() as int) =~= rs@);
    n
}

fn push_tally(out: &mut Vec<char>, ok: usize, failed: usize)
    ensures
        final(out)@ == old(out)@ + tally(ok as nat, failed as nat),
{
    let ghost o = out@;
    push_str(out, "成功 ");
    push_decimal(out, ok as u64);
    push_str(out, "，失败 ");
    push_decimal(out, failed as u64);
    assert(out@ =~= o + tally(ok as nat, failed as nat));
}

fn text_err(prefix: &str, e: &CyrioError) -> (v: Vec<char>)
    ensures
        v@ == prefix@ + error_message(*e),
{
    let mut v: Vec<char> = Vec::new();
    push_str(&mut v, prefix);
    let m = e.to_string();
    push_str(&mut v, m.as_str());
    v
}

fn text_num(a: &str, n: u64, b: &str) -> (v: Vec<char>)
    ensures
        v@ == a@ + dec_digits(n as nat) + b@,
{
    let mut v: Vec<char> = Vec::new();
    push_str(&mut v, a);
    push_decimal(&mut v, n);
    push_str(&mut v, b);
    v
}

fn text_then_num(a: &str, n: u64) -> (v: Vec<char>)
    ensures
        v@ == a@ + dec_digits(n as nat),
{
    let mut v: Vec<char> = Vec::new();
    push_str(&mut v, a);
    push_decimal(&mut v, n);
    v
}

fn text(a: &str) -> (v: Vec<char>)
    ensures
        v@ == a@,
{
    str_chars(a)
}

fn show_status(s: UiState, m: &Vec<char>) -> (r: UiState)
    ensures
        with_status(s, m@, r),
{
    let mut s = s;
    s.status_message = Some(string_from_chars(m.as_slice()));
    s.notice_message = Some(string_from_chars(m.as_slice()));
    s.notice_fresh = true;
    s
}

fn push_log(s: UiState, m: &Vec<char>) -> (r: UiState)
    ensures
        string_views(r.logs@) == keep_last(string_views(s.logs@).push(m@), LOG_LIMIT as nat),
        r == (UiState { logs: r.logs, ..s }),
{
    let mut s = s;
    let mut logs = s.logs;
    let ghost old_views = string_views(logs@);
    logs.push(string_from_chars(m.as_slice()));
    let ghost full = string_views(logs@);
    assert(full =~= old_views.push(m@));
    assert(full.skip(0) =~= full);
    while logs.len() > LOG_LIMIT
        invariant
            logs@.len() <= full.len(),
            string_views(logs@) == full.skip(full.len() - logs@.len()),
            full.len() > LOG_LIMIT ==> logs@.len() >= LOG_LIMIT,
            full.len() <= LOG_LIMIT ==> logs@.len() == full.len(),
        decreases logs@.len(),
    {
        let ghost before = logs@;
        logs.remove(0);
        assert(logs@ =~= before.skip(1));
        assert(string_views(logs@) =~= string_views(before).skip(1));
        assert(full.skip(full.len() - before.len()).skip(1) =~= full.skip(full.len() - logs@.len()));
    }
    s.logs = logs;
    s
}

fn status_logged(s: UiState, m: &Vec<char>) -> (r: UiState)
    ensures
        with_status_logged(s, m@, r),
{
    let s = push_log(s, m);
    show_status(s, m)
}

fn reload_songs_actions(a: &mut Vec<UiAction>)
    ensures
        final(a)@ == old(a)@ + reload_songs(),
{
    let ghost o = a@;
    a.push(UiAction::Send(Command::ListSongs(MEM_UNIT_INTERNAL)));
    a.push(UiAction::Send(Command::ListSongs(MEM_UNIT_SD)));
    assert(a@ =~= o + reload_songs());
}

fn reload_playlists_actions(a: &mut Vec<UiAction>)
    ensures
        final(a)@ == old(a)@ + reload_playlists(),
{
    let ghost o = a@;
    a.push(UiAction::Send(Command::ListPlaylists(MEM_UNIT_INTERNAL)));
    a.push(UiAction::Send(Command::ListPlaylists(MEM_UNIT_SD)));
    assert(a@ =~= o + reload_playlists());
}

/// The state after event `e` and what the front end does next: the
/// transitions are those of `steps_to`. Status messages are also shown as a
/// notice; the log keeps its last 1000 messages.
#[verifier::rlimit(60)]
pub fn next_state(s: UiState, e: Event) -> (r: (UiState, Vec<UiAction>))
    ensures
        steps_to(s, e, r.0, r.1@),
{
    let mut a: Vec<UiAction> = Vec::new();
    match e {
        Event::DeviceOpened(Ok(())) => {
            let mut t = s;
            t.connected = true;
            t.connecting = false;
            t.audio_running = true;
            t.page_path = string_from_chars(text("songs").as_slice());
            t.pending_song_loads = 2;
            t.pending_playlist_loads = 2;
            t.loading = true;
            let r = status_logged(t, &text("设备已连接"));
            a.push(UiAction::StartAudio);
            a.push(UiAction::Send(Command::GetStorageStatus));
            reload_songs_actions(&mut a);
            reload_playlists_actions(&mut a);
            assert(a@ =~= seq![UiAction::StartAudio, UiAction::Send(Command::GetStorageStatus)] + reload_songs()
                + reload_playlists());
            (r, a)
        },
        Event::DeviceOpened(Err(err)) => {
            let mut t = s;
            t.connected = false;
            t.connecting = false;
            let r = status_logged(t, &text_err("连接失败：", &err));
            (r, a)
        },
        Event::DeviceClosed => {
            let mut t = s;
            if t.audio_running {
                a.push(UiAction::StopAudio);
            }
            t.connected = false;
            t.connecting = false;
            t.audio_running = false;
            t.songs = Vec::new();
            t.playlists = Vec::new();
            t.internal_mem = None;
            t.sd_mem = None;
            t.selected_song_ids = Vec::new();
            t.last_clicked_song_index = None;
            t.current_playing_file_no = None;
            let r = show_status(t, &text("设备已断开"));
            (r, a)
        },
        Event::DevicesScanned(devices) => {
            let mut t = s;
            t.usb_devices = devices;
            t.scanning = false;
            (t, a)
        },
        Event::SongsListedForMem { songs, mem_unit } => {
            let mut t = s;
            let old = t.songs;
            t.songs = merge_listed(old, songs, mem_unit);
            if t.pending_song_loads > 0 {
                t.pending_song_loads = t.pending_song_loads - 1;
            }
            if t.pending_song_loads == 0 {
                t.loading = false;
            }
            let n = t.songs.len();
            let r = show_status(t, &text_num("已加载 ", n as u64, " 首歌曲"));
            (r, a)
        },
        Event::PlaylistsListedForMem { playlists, mem_unit } => {
            let mut t = s;
            let old = t.playlists;
            t.playlists = merge_listed(old, playlists, mem_unit);
            if t.pending_playlist_loads > 0 {
                t.pending_playlist_loads = t.pending_playlist_loads - 1;
            }
            if t.pending_playlist_loads == 0 {
                t.loading = false;
            }
            let n = t.playlists.len();
            let r = show_status(t, &text_num("已加载 ", n as u64, " 个歌单"));
            (r, a)
        },
        Event::PlaylistSongsListed(Ok(songs)) => {
            let mut t = s;
            t.loading_playlist_songs = false;
            let n = songs.len();
            t.playlist_songs = songs;
            let r = show_status(t, &text_num("已加载歌单内 ", n as u64, " 首歌曲"));
            (r, a)
        },
        Event::PlaylistSongsListed(Err(err)) => {
            let mut t = s;
            t.loading_playlist_songs = false;
            let r = show_status(t, &text_err("加载歌单内容失败：", &err));
            (r, a)
        },
        Event::UploadProgress { sent_bytes, total_bytes } => {
            let mut t = s;
            t.progress = match t.progress {
                Some(p) => Some(ProgressInfo { kind: p.kind, current: sent_bytes, total: total_bytes }),
                None => None,
            };
            t.upload_transfer = match t.upload_transfer {
                Some(d) => {
                    let mut files = d.files;
                    upload_progress(&mut files, d.current_index, sent_bytes, total_bytes);
                    Some(UploadDialog { files, current_index: d.current_index, finished: d.finished })
                },
                None => None,
            };
            (t, a)
        },
        Event::UploadBatchStarted { names } => {
            let mut t = s;
            let files = new_upload_files(names.as_slice());
            t.upload_transfer = Some(UploadDialog { files, current_index: 0, finished: false });
            (t, a)
        },
        Event::UploadFileStarted { index, name: _ } => {
            let mut t = s;
            t.upload_transfer = match t.upload_transfer {
                Some(d) => {
                    let mut files = d.files;
                    upload_started(&mut files, index);
                    Some(UploadDialog { files, current_index: index, finished: d.finished })
                },
                None => None,
            };
            (t, a)
        },
        Event::UploadFileCompleted { index, success } => {
            let mut t = s;
            t.upload_transfer = match t.upload_transfer {
                Some(d) => {
                    let mut files = d.files;
                    upload_finished(&mut files, index, success);
                    Some(UploadDialog { files, current_index: d.current_index, finished: d.finished })
                },
                None => None,
            };
            (t, a)
        },
        Event::UploadCompleted(Ok(no)) => {
            let mut t = s;
            t.progress = None;
            let r = show_status(t, &text_then_num("上传完成，新文件号 ", no as u64));
            reload_songs_actions(&mut a);
            assert(a@ =~= reload_songs());
            (r, a)
        },
        Event::UploadCompleted(Err(err)) => {
            let mut t = s;
            t.progress = None;
            let r = show_status(t, &text_err("上传失败：", &err));
            (r, a)
        },
        Event::UploadBatchCompleted(results) => {
            let mut t = s;
            t.progress = None;
            t.show_loading_modal = None;
            let ok = count_upload_successes(&results);
            let failed = results.len() - ok;
            t.upload_transfer = match t.upload_transfer {
                Some(d) => Some(UploadDialog { files: d.files, current_index: d.current_index, finished: true }),
                None => None,
            };
            let mut m = text("批量上传完成：");
            push_tally(&mut m, ok, failed);
            let r = show_status(t, &m);
            reload_songs_actions(&mut a);
            assert(a@ =~= reload_songs());
            (r, a)
        },
        Event::DownloadProgress { received_bytes, total_bytes } => {
            let mut t = s;
            t.progress = match t.progress {
                Some(p) => Some(ProgressInfo { kind: p.kind, current: received_bytes, total: total_bytes }),
                None => None,
            };
            (t, a)
        },
        Event::DownloadCompleted(Ok(())) => {
            let mut t = s;
            t.progress = None;
            let r = show_status(t, &text("下载完成"));
            (r, a)
        },
        Event::DownloadCompleted(Err(err)) => {
            let mut t = s;
            t.progress = None;
            let r = show_status(t, &text_err("下载失败：", &err));
            (r, a)
        },
        Event::SongDownloaded(Ok(data)) => {
            if s.audio_running {
                let ghost d = data;
                a.push(UiAction::PlayAudio(data));
                a.push(UiAction::AudioLoaded);
                assert(a@ =~= seq![UiAction::PlayAudio(d), UiAction::AudioLoaded]);
            }
            let r = show_status(s, &text("开始播放"));
            (r, a)
        },
        Event::SongDownloaded(Err(err)) => {
            if s.audio_running {
                a.push(UiAction::AudioLoaded);
                assert(a@ =~= seq![UiAction::AudioLoaded]);
            }
            let r = show_status(s, &text_err("播放下载失败：", &err));
            (r, a)
        },
        Event::DeleteCompleted(Ok(())) => {
            let mut t = s;
            t.progress = None;
            let r = show_status(t, &text("删除完成"));
            reload_songs_actions(&mut a);
            reload_playlists_actions(&mut a);
            assert(a@ =~= reload_songs() + reload_playlists());
            (r, a)
        },
        Event::DeleteCompleted(Err(err)) => {
            let mut t = s;
            t.progress = None;
            let r = show_status(t, &text_err("删除失败：", &err));
            (r, a)
        },
        Event::AddToPlaylistCompleted(Ok(())) => {
            let r = show_status(s, &text("已加入歌单"));
            (r, a)
        },
        Event::AddToPlaylistCompleted(Err(err)) => {
            let r = show_status(s, &text_err("加入歌单失败：", &err));
            (r, a)
        },
        Event::CreatePlaylistCompleted(Ok(no)) => {
            let r = show_status(s, &text_then_num("已创建歌单，文件号 ", no as u64));
            reload_playlists_actions(&mut a);
            assert(a@ =~= reload_playlists());
            (r, a)
        },
        Event::CreatePlaylistCompleted(Err(err)) => {
            let r = show_status(s, &text_err("创建歌单失败：", &err));
            (r, a)
        },
        Event::PlaylistRepaired(Ok(())) => {
            let r = show_status(s, &text("歌单编码已修复"));
            reload_playlists_actions(&mut a);
            assert(a@ =~= reload_playlists());
            (r, a)
        },
        Event::PlaylistRepaired(Err(err)) => {
            let r = show_status(s, &text_err("修复失败：", &err));
            (r, a)
        },
        Event::RenameCompleted(Ok(())) => {
            let mut t = s;
            t.show_rename_dialog = None;
            t.rename_input = String::new();
            let r = show_status(t, &text("已重命名"));
            reload_songs_actions(&mut a);
            assert(a@ =~= reload_songs());
            (r, a)
        },
        Event::RenameCompleted(Err(err)) => {
            let r = show_status(s, &text_err("重命名失败：", &err));
            (r, a)
        },
        Event::BatchOperationCompleted { kind, results } => {
            let mut t = s;
            t.progress = None;
            t.show_loading_modal = None;
            let ok = count_rename_successes(&results);
            let failed = results.len() - ok;
            let mut m = str_chars(kind.as_str());
            push_str(&mut m, " 完成：");
            push_tally(&mut m, ok, failed);
            let r = show_status(t, &m);
            reload_songs_actions(&mut a);
            assert(a@ =~= reload_songs());
            (r, a)
        },
        Event::StorageStatusGot(Ok(st)) => {
            let mut t = s;
            t.internal_mem = Some(RioMem {
                size: st.internal.size as u32,
                used: st.internal.used as u32,
                free: st.internal.free as u32,
                system: 0,
                name: st.internal.name,
                model: st.internal.model,
            });
            t.sd_mem = Some(RioMem {
                size: st.sd_card.size as u32,
                used: st.sd_card.used as u32,
                free: st.sd_card.free as u32,
                system: 0,
                name: st.sd_card.name,
                model: st.sd_card.model,
            });
            (t, a)
        },
        Event::StorageStatusGot(Err(err)) => {
            let r = show_status(s, &text_err("读取存储信息失败：", &err));
            (r, a)
        },
        Event::Log(msg) => {
            let r = push_log(s, &str_chars(msg.as_str()));
            (r, a)
        },
    }
}

} // verus!

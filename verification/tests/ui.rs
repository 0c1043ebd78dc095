use cyrio::app_state::{Command, SongEntry, UploadFileStatus};
use cyrio::constants::TYPE_MP3;
use cyrio::error::CyrioError;
use cyrio::rio_file::RioFile;
use cyrio::ui_state::{next_state, Event, UiAction, UiState};

fn fresh() -> UiState {
    UiState {
        page_path: "connect".to_string(),
        connected: false,
        connecting: true,
        audio_running: false,
        usb_devices: Vec::new(),
        scanning: false,
        internal_mem: None,
        sd_mem: None,
        songs: Vec::new(),
        playlists: Vec::new(),
        selected_song_ids: Vec::new(),
        last_clicked_song_index: None,
        playlist_songs: Vec::new(),
        loading_playlist_songs: false,
        current_playing_file_no: None,
        show_loading_modal: None,
        progress: None,
        upload_transfer: None,
        status_message: None,
        notice_message: None,
        notice_fresh: false,
        logs: Vec::new(),
        loading: false,
        pending_song_loads: 0,
        pending_playlist_loads: 0,
        show_rename_dialog: None,
        rename_input: String::new(),
    }
}

fn song(no: u32) -> RioFile {
    let mut f = RioFile::empty();
    f.file_no = no;
    f.file_type = TYPE_MP3;
    f
}

#[test]
fn device_opened_requests_both_units() {
    let (s, actions) = next_state(fresh(), Event::DeviceOpened(Ok(())));
    assert!(s.connected && !s.connecting && s.audio_running && s.loading);
    assert_eq!(s.page_path, "songs");
    assert_eq!(s.status_message.as_deref(), Some("设备已连接"));
    assert_eq!(s.logs, vec!["设备已连接".to_string()]);
    assert_eq!((s.pending_song_loads, s.pending_playlist_loads), (2, 2));
    assert_eq!(actions.len(), 6);
    assert!(matches!(actions[0], UiAction::StartAudio));
    assert!(matches!(actions[1], UiAction::Send(Command::GetStorageStatus)));
    assert!(matches!(actions[3], UiAction::Send(Command::ListSongs(1))));
    assert!(matches!(actions[5], UiAction::Send(Command::ListPlaylists(1))));
}

#[test]
fn listing_counts_down_pending_loads() {
    let (s, _) = next_state(fresh(), Event::DeviceOpened(Ok(())));
    let (s, _) = next_state(s, Event::SongsListedForMem { songs: vec![song(1), song(2)], mem_unit: 0 });
    assert_eq!(s.pending_song_loads, 1);
    assert!(s.loading);
    assert_eq!(s.status_message.as_deref(), Some("已加载 2 首歌曲"));
    let (s, _) = next_state(s, Event::SongsListedForMem { songs: vec![song(0x4001)], mem_unit: 1 });
    assert_eq!(s.pending_song_loads, 0);
    assert!(!s.loading);
    assert_eq!(s.songs.len(), 3);
    let (s, _) = next_state(s, Event::SongsListedForMem { songs: vec![song(7)], mem_unit: 0 });
    assert_eq!(s.pending_song_loads, 0);
    let nos: Vec<u32> = s.songs.iter().map(|e: &SongEntry| e.file.file_no).collect();
    assert_eq!(nos, vec![0x4001, 7]);
}

#[test]
fn upload_batch_events_drive_the_dialog() {
    let (s, _) = next_state(fresh(), Event::UploadBatchStarted { names: vec!["a.mp3".into(), "b.mp3".into()] });
    let (s, _) = next_state(s, Event::UploadFileStarted { index: 1, name: "b.mp3".into() });
    let (s, _) = next_state(s, Event::UploadProgress { sent_bytes: 5, total_bytes: 9 });
    let (s, _) = next_state(s, Event::UploadFileCompleted { index: 1, success: true });
    let d = s.upload_transfer.as_ref().unwrap();
    assert_eq!(d.current_index, 1);
    assert_eq!(d.files[1].status, UploadFileStatus::Done);
    assert_eq!((d.files[1].transferred, d.files[1].total), (9, 9));
    assert_eq!(d.files[0].status, UploadFileStatus::Pending);
    let (s, actions) = next_state(s, Event::UploadBatchCompleted(Vec::new()));
    assert!(s.upload_transfer.as_ref().unwrap().finished);
    assert_eq!(s.status_message.as_deref(), Some("批量上传完成：成功 0，失败 0"));
    assert_eq!(actions.len(), 2);
}

#[test]
fn closing_clears_lists_and_stops_audio() {
    let (s, _) = next_state(fresh(), Event::DeviceOpened(Ok(())));
    let (s, _) = next_state(s, Event::SongsListedForMem { songs: vec![song(1)], mem_unit: 0 });
    let (s, actions) = next_state(s, Event::DeviceClosed);
    assert!(!s.connected && !s.audio_running);
    assert!(s.songs.is_empty());
    assert_eq!(s.status_message.as_deref(), Some("设备已断开"));
    assert!(matches!(actions[0], UiAction::StopAudio));
    assert_eq!(actions.len(), 1);
}

#[test]
fn failures_are_reported_with_the_error() {
    let (s, actions) = next_state(fresh(), Event::DeleteCompleted(Err(CyrioError::Other("x".into()))));
    assert!(s.status_message.unwrap().starts_with("删除失败："));
    assert!(actions.is_empty());
    let (s, _) = next_state(fresh(), Event::CreatePlaylistCompleted(Ok(12)));
    assert_eq!(s.status_message.as_deref(), Some("已创建歌单，文件号 12"));
}

#[test]
fn log_keeps_last_thousand() {
    let mut s = fresh();
    for i in 0..1005 {
        s = next_state(s, Event::Log(format!("m{}", i))).0;
    }
    assert_eq!(s.logs.len(), 1000);
    assert_eq!(s.logs[0], "m5");
    assert_eq!(s.logs[999], "m1004");
}

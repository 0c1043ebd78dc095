use cyrio::audio::Mp3Info;
use cyrio::constants::{TYPE_MP3, TYPE_PLS};
use cyrio::dto::{forced_device_info, playlist_song_info, song_detail, song_infos, tray_tooltip, usb_device_item};
use cyrio::error::CyrioError;
use cyrio::playlist::PlaylistSong;
use cyrio::rename::list_failed_rename;
use cyrio::rio_file::RioFile;
use cyrio::types::rio_file_to_song;

fn record(no: u32, ty: u32, title: &str) -> RioFile {
    let mut f = RioFile::empty();
    f.file_no = no;
    f.file_type = ty;
    f.size = 1000 + no;
    f.time = 60 + no;
    f.bit_rate = 128 << 7;
    f.mod_date = 1_700_000_000;
    f.name = format!("{}.mp3", title);
    f.title = title.to_string();
    f.artist = "Artist".to_string();
    f.album = "Album".to_string();
    f
}

#[test]
fn tooltip_for_each_state() {
    assert_eq!(tray_tooltip(false, None), "cyrio - 未连接设备");
    assert_eq!(tray_tooltip(true, None), "cyrio - 已连接 Rio S-Series");
    assert_eq!(tray_tooltip(true, Some((3, 10))), "cyrio - 正在传输 (3/10)");
    assert_eq!(tray_tooltip(false, Some((0, 0))), "cyrio - 未连接设备");
}

#[test]
fn usb_ids_in_hex() {
    let d = usb_device_item(0x045a, 0x5006, "Rio".to_string(), "Diamond".to_string());
    assert_eq!(d.vid, "0x045a");
    assert_eq!(d.pid, "0x5006");
    assert!(d.is_diamond);
    assert_eq!(d.vid_num, 0x045a);
    let o = usb_device_item(0x1234, 0xabcd, String::new(), String::new());
    assert_eq!(o.pid, "0xabcd");
    assert!(!o.is_diamond);
}

#[test]
fn forced_device_model() {
    let info = forced_device_info(0x1d6b, 0x0002);
    assert!(info.connected);
    assert_eq!(info.model, "USB 0x1d6b:0x0002");
}

#[test]
fn song_list_of_one_type() {
    let files = vec![record(1, TYPE_MP3, "a"), record(2, TYPE_PLS, "list"), record(3, TYPE_MP3, "b")];
    let songs = song_infos(&files, 1, TYPE_MP3);
    assert_eq!(songs.len(), 2);
    assert_eq!(songs[0].file_no, 1);
    assert_eq!(songs[1].title, "b");
    assert_eq!(songs[1].mem_unit, 1);
    let lists = song_infos(&files, 0, TYPE_PLS);
    assert_eq!(lists.len(), 1);
    assert_eq!(lists[0].name, "list.mp3");
}

#[test]
fn playlist_song_keeps_its_unit() {
    let ps = PlaylistSong { song: rio_file_to_song(&record(0x4002, TYPE_MP3, "x")), index: 0, mem_unit: 1 };
    let info = playlist_song_info(&ps);
    assert_eq!(info.file_no, 0x4002);
    assert_eq!(info.mem_unit, 1);
    assert_eq!(info.artist, "Artist");
}

#[test]
fn detail_from_header_and_scan() {
    let h = record(7, TYPE_MP3, "Song");
    let scan = Mp3Info { duration: 200, sample_rate: 44100, bit_rate: 128, layer: 3, channels: 2 };
    let d = song_detail(&h, 0, Some(scan));
    assert_eq!(d.basic.file_no, 7);
    assert_eq!(d.technical.as_ref().unwrap().sample_rate, 44100);
    assert_eq!(d.id3.title, "Song");
    assert_eq!(d.id3.year, "");
    assert!(d.cover_art.is_none());
    assert_eq!(d.mod_date, 1_700_000_000);
    assert!(song_detail(&h, 1, None).technical.is_none());
}

#[test]
fn unlisted_unit_reported() {
    let r = list_failed_rename(1, CyrioError::Device("no card".to_string()));
    assert!(!r.success);
    assert_eq!(r.file_no, 0);
    assert_eq!(r.mem_unit, 1);
    assert!(r.error.starts_with("列出 mem_unit 1 失败: "));
    assert!(r.error.ends_with("no card"));
}

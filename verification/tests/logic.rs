use cyrio::device::{
    block_sent, command_step, first_empty_scan_step, gap_scan_step, rewrite_step, CommandStep, RewriteAction,
    RewriteEvent, SlotScan,
};
use cyrio::app_state::{
    all_uploads_finished, count_with_status, format_bytes, AppSettings, ProgressInfo, ProgressKind,
    UploadFileEntry, UploadFileStatus,
};
use cyrio::constants::{TYPE_MP3, TYPE_PLS};
use cyrio::device::{
    clock_args, command_status_error, delete_request_header, download_block_count, empty_gap_step, pick_uploaded_file_no,
    status_ok, status_setup, upload_block, upload_header_buffer,
};
use cyrio::error::CyrioError;
use cyrio::fidl::{parse_fidl, serialize_fidl, FidlEntry, FidlPlaylist};
use cyrio::playlist::{
    add_song_to_fidl, new_playlist_header, playlist_rio_num, playlist_sflags, remove_fidl_entry,
    resolve_playlist_songs,
};
use cyrio::rename::{finished_rename, preview_slug, preview_strip, skipped_rename, title_update_verified};
use cyrio::rio_file::{parse_rio_file, serialize_rio_file, RioFile};
use cyrio::sync::{
    device_song_names, path_basename, record_delete, record_playlist_add, record_upload, sync_plan, SyncResult,
};
use cyrio::types::check_free_space;
use cyrio::rio_mem::RioMem;
use cyrio::upload::{build_upload_header_with, process_title, upload_result, UploadTextOptions};

fn file(no: u32, size: u32, ty: u32, date: u32, name: &str) -> RioFile {
    let mut f = RioFile::empty();
    f.file_no = no;
    f.size = size;
    f.file_type = ty;
    f.mod_date = date;
    f.name = name.to_string();
    f
}

#[test]
fn settings_custom_words_split_and_trim() {
    let mut s = AppSettings::default();
    s.custom_stop_words = "  a \r\n\n b\nc  ".to_string();
    assert_eq!(s.custom_words_vec(), vec!["a".to_string(), "b".to_string(), "c".to_string()]);
    s.custom_stop_words = String::new();
    assert!(s.custom_words_vec().is_empty());
}

#[test]
fn progress_label_formats_both_sizes() {
    let p = ProgressInfo { kind: ProgressKind::Upload, current: 1536, total: 3 * 1024 * 1024 * 1024 / 2 };
    assert_eq!(p.label(), "上传中… 1.5 KB / 1.50 GB");
    assert_eq!(format_bytes(512), "512 B");
    assert_eq!(format_bytes(5 * 1024 * 1024), "5.0 MB");
}

#[test]
fn upload_dialog_counts() {
    let e = |st| UploadFileEntry { name: "x".into(), transferred: 0, total: 1, status: st };
    let files = vec![e(UploadFileStatus::Done), e(UploadFileStatus::Failed), e(UploadFileStatus::Done)];
    assert_eq!(count_with_status(&files, UploadFileStatus::Done), 2);
    assert_eq!(count_with_status(&files, UploadFileStatus::Failed), 1);
    assert!(all_uploads_finished(&files));
    assert!(!all_uploads_finished(&[]));
    assert!(!all_uploads_finished(&[e(UploadFileStatus::Uploading)]));
}

#[test]
fn command_status_checks() {
    assert!(status_ok(&[1, 0, 0]));
    assert!(!status_ok(&[0, 1]));
    assert!(!status_ok(&[]));
    let e = command_status_error(0x69, 1, 2, &[0x00]);
    assert_eq!(e.to_string(), "device error: send_command(0x69, 1, 2): status[0]=0x00 (expected 0x01)");
    let s = status_setup(0x60, 3, 4);
    assert_eq!((s.request, s.value, s.index, s.length), (0x60, 3, 4, 12));
    assert_eq!(clock_args(0x1234_5678), (0x1234, 0x5678));
}

#[test]
fn upload_blocks_are_padded() {
    let data: Vec<u8> = (0..20000u32).map(|i| (i % 251) as u8).collect();
    let b0 = upload_block(&data, 0);
    assert_eq!(b0.len(), 16384);
    assert_eq!(&b0[..], &data[..16384]);
    let b1 = upload_block(&data, 16384);
    assert_eq!(&b1[..20000 - 16384], &data[16384..]);
    assert!(b1[20000 - 16384..].iter().all(|b| *b == 0));
}

#[test]
fn upload_header_keeps_unknown_bytes() {
    let mut orig = [0u8; 2048];
    orig[0x78] = 0xAB;
    let h = file(5, 100, TYPE_MP3, 7, "D:\\a.mp3");
    let with = upload_header_buffer(&h, Some(&orig));
    assert_eq!(with[0x78], 0xAB);
    let parsed = parse_rio_file(&with).unwrap();
    assert_eq!(parsed.size, 100);
    assert_eq!(parsed.name, "D:\\a.mp3");
    let without = upload_header_buffer(&h, None);
    assert_eq!(without, serialize_rio_file(&h));
    let del = delete_request_header(9);
    assert_eq!(parse_rio_file(&del).unwrap().file_no, 9);
}

#[test]
fn empty_slot_gap_stops_at_limit() {
    assert_eq!(empty_gap_step(0, false), (0, false));
    assert_eq!(empty_gap_step(198, true), (199, false));
    assert_eq!(empty_gap_step(199, true), (200, true));
    assert_eq!(empty_gap_step(150, false), (0, false));
}

#[test]
fn uploaded_file_number_prefers_exact_match() {
    let header = file(0, 100, TYPE_MP3, 50, "");
    let files = vec![
        file(0, 0, 0, 0, ""),
        file(10, 100, TYPE_MP3, 49, ""),
        file(12, 100, TYPE_MP3, 50, ""),
        file(30, 100, TYPE_MP3, 49, ""),
        file(11, 100, TYPE_MP3, 50, ""),
    ];
    assert_eq!(pick_uploaded_file_no(0, &files, &header).unwrap(), 12);
    let loose = vec![file(10, 100, TYPE_MP3, 1, ""), file(30, 100, TYPE_MP3, 2, "")];
    assert_eq!(pick_uploaded_file_no(0, &loose, &header).unwrap(), 30);
    let none = vec![file(10, 99, TYPE_MP3, 50, "")];
    match pick_uploaded_file_no(1, &none, &header) {
        Err(CyrioError::Device(m)) => assert_eq!(
            m,
            "上传后未找到文件：memUnit=1 已扫描 1 个文件，期望 size=100 type=0x4d504733 modDate=50。first_file: file_no=10 size=99 type=0x4d504733 modDate=50"
        ),
        other => panic!("unexpected {:?}", other),
    }
    match pick_uploaded_file_no(0, &[], &header) {
        Err(CyrioError::Device(m)) => assert!(m.ends_with("no files on device")),
        other => panic!("unexpected {:?}", other),
    }
}

#[test]
fn playlist_entries_and_numbers() {
    assert_eq!(playlist_sflags(0, 0), [0, 0, 0]);
    assert_eq!(playlist_sflags(1, 0), [0, 0, 1]);
    assert_eq!(playlist_rio_num(32, 0), 32 + 0x4000);
    assert_eq!(playlist_rio_num(0x4020, 1), 0x4020);
    let empty = serialize_fidl(&FidlPlaylist::empty());
    let one = add_song_to_fidl(&empty, 32, 0, 1).unwrap();
    let p = parse_fidl(&one).unwrap();
    assert_eq!(p.entries, vec![FidlEntry { rio_num: 0x4020, sflags: [0, 0, 1] }]);
    let removed = remove_fidl_entry(&one, 0).unwrap();
    assert!(parse_fidl(&removed).unwrap().entries.is_empty());
    match remove_fidl_entry(&one, 3) {
        Err(CyrioError::Other(m)) => assert_eq!(m, "remove_from_playlist: index 3 out of range (entries=1)"),
        other => panic!("unexpected {:?}", other),
    }
    assert!(add_song_to_fidl(&[1, 2, 3], 1, 0, 0).is_err());
    let h = new_playlist_header("Mix", 12, 99);
    assert_eq!((h.file_type, h.size, h.mod_date), (TYPE_PLS, 12, 99));
    assert_eq!(h.title, "Mix");
}

#[test]
fn playlist_songs_found_in_either_unit() {
    let entries = vec![
        FidlEntry { rio_num: 0x4000 + 16, sflags: [0, 0, 0] },
        FidlEntry { rio_num: 0x4020, sflags: [0, 0, 1] },
        FidlEntry { rio_num: 0x4000 + 99, sflags: [0, 0, 0] },
        FidlEntry { rio_num: 0x4000 + 17, sflags: [0, 0, 0] },
    ];
    let local = vec![file(16, 10, TYPE_MP3, 0, "a"), file(17, 10, TYPE_PLS, 0, "p")];
    let remote = vec![file(0x4020, 20, TYPE_MP3, 0, "b")];
    let songs = resolve_playlist_songs(&entries, 0, &local, &remote);
    assert_eq!(songs.len(), 2);
    assert_eq!((songs[0].song.file_no, songs[0].index, songs[0].mem_unit), (16, 0, 0));
    assert_eq!((songs[1].song.file_no, songs[1].index, songs[1].mem_unit), (0x4020, 1, 1));
}

#[test]
fn rename_previews_and_results() {
    let items = vec![(1u32, 0u8, "赛马".to_string()), (2, 1, "Hello".to_string())];
    let p = preview_slug(&items);
    assert_eq!(p[0].new_title, "Sai-Ma");
    assert!(p[0].changed);
    assert!(!p[1].changed);
    let s = preview_strip(&[(3, 0, "歌曲 4K".to_string())], vec![]);
    assert_eq!(s[0].new_title, "歌曲");
    let sk = skipped_rename(4, 0, "t".to_string(), "无需转换");
    assert!(sk.success);
    assert_eq!(sk.error, "无需转换");
    let f = finished_rename(5, 1, "a".into(), "b".into(), Err(CyrioError::FileNotFound(5)));
    assert!(!f.success);
    assert_eq!(f.error, CyrioError::FileNotFound(5).to_string());
    let mut h = file(5, 1, TYPE_MP3, 0, "x");
    h.title = "New".into();
    let buf = serialize_rio_file(&h);
    assert_eq!(title_update_verified(&buf, "New").unwrap(), true);
    assert_eq!(title_update_verified(&buf, "Old").unwrap(), false);
    assert!(title_update_verified(&buf[..10], "New").is_err());
}

#[test]
fn free_space_check() {
    let mut m = RioMem::default();
    match check_free_space(&m, 1, 10) {
        Err(CyrioError::Device(msg)) => assert_eq!(msg, "内存单元 1 不存在（SD 卡未插入？）"),
        other => panic!("unexpected {:?}", other),
    }
    m.size = 1 << 20;
    m.free = 2048 + 10;
    assert!(check_free_space(&m, 0, 10).is_ok());
    match check_free_space(&m, 0, 11) {
        Err(CyrioError::Device(msg)) => assert!(msg.starts_with("存储空间不足：需要 2059 字节（2.0KB），仅有 2058 字节空闲（2.0KB）。")),
        other => panic!("unexpected {:?}", other),
    }
}

#[test]
fn titles_processed_for_upload() {
    let both = UploadTextOptions {
        apply_slug: true,
        apply_strip: true,
        strip_parentheses: true,
        strip_quotes: true,
        strip_quality_tags: true,
        custom_stop_words: vec![],
    };
    assert_eq!(process_title("【洛天依 原创】Hi-Res 赛马", &both), "Sai-Ma");
    let slug_only = UploadTextOptions { apply_slug: true, ..Default::default() };
    assert_eq!(process_title("【洛天依 原创】Hi-Res 赛马", &slug_only), "【Luo-Tian-Yi Yuan-Chuang】Hi-Res Sai-Ma");
    assert_eq!(process_title("x", &UploadTextOptions::default()), "x");
}

#[test]
fn upload_header_falls_back_to_stem() {
    let data = vec![1u8; 50];
    let (h, off) = build_upload_header_with(&data, "D:\\song.mp3", &UploadTextOptions::default(), "song", 1234);
    assert_eq!(off, 0);
    assert_eq!(h.size, 50);
    assert_eq!(h.name, "D:\\song.mp3");
    assert_eq!(h.title, "song");
    assert_eq!(h.mod_date, 1234);
    let r = upload_result(std::path::PathBuf::from("a.mp3"), Ok(7));
    assert!(r.success && r.file_no == 7 && r.error.is_empty());
    let r = upload_result(std::path::PathBuf::from("a.mp3"), Err(CyrioError::Other("x".into())));
    assert!(!r.success && r.file_no == -1);
}

#[test]
fn sync_plan_mirrors_names() {
    assert_eq!(path_basename("D:\\music/a.mp3"), "a.mp3");
    assert_eq!(path_basename("plain"), "plain");
    let files = vec![
        file(1, 1, TYPE_MP3, 0, "D:\\a.mp3"),
        file(2, 1, TYPE_PLS, 0, "D:\\list"),
        file(3, 1, TYPE_MP3, 0, "D:\\b.mp3"),
        file(4, 1, TYPE_MP3, 0, "D:\\a.mp3"),
    ];
    let (names, nos) = device_song_names(&files);
    assert_eq!(names, vec!["a.mp3".to_string(), "b.mp3".to_string()]);
    assert_eq!(nos, vec![4, 3]);
    let local = vec!["b.mp3".to_string(), "c.mp3".to_string(), "c.mp3".to_string()];
    let (add, del, skip) = sync_plan(&local, &names, &nos);
    assert_eq!(add, vec!["c.mp3".to_string()]);
    assert_eq!(del, vec![("a.mp3".to_string(), 4)]);
    assert_eq!(skip, vec!["b.mp3".to_string()]);
}

#[test]
fn upload_blocks_carry_data_then_zeros() {
    let data: Vec<u8> = (0..16385u32).map(|i| (i % 251) as u8 + 1).collect();
    let n = download_block_count(data.len() as u32) as usize;
    assert_eq!(n, 2);
    let mut stream = Vec::new();
    for k in 0..n {
        let b = upload_block(&data, k * 16384);
        assert_eq!(b.len(), 16384);
        stream.extend_from_slice(&b);
    }
    assert_eq!(&stream[..data.len()], &data[..]);
    assert!(stream[data.len()..].iter().all(|&x| x == 0));
    assert_eq!(stream.len(), 2 * 16384);
}

#[test]
fn command_retries_then_gives_up() {
    assert!(matches!(command_step(0x68, 0, 0, 0, Ok(vec![1, 0])), CommandStep::Done(_)));
    match command_step(0x68, 1, 2, 0, Ok(vec![0x7f])) {
        CommandStep::Retry(CyrioError::Device(m)) => assert_eq!(m, "send_command(0x68, 1, 2): status[0]=0x7f (expected 0x01)"),
        other => panic!("unexpected {:?}", other),
    }
    assert!(matches!(command_step(0x68, 0, 0, 3, Ok(vec![])), CommandStep::Fail(CyrioError::Device(_))));
    assert!(matches!(
        command_step(0x68, 0, 0, 2, Err(CyrioError::Transport("usb".into()))),
        CommandStep::Retry(CyrioError::Transport(_))
    ));
}

#[test]
fn block_progress_counts_whole_and_last_block() {
    assert_eq!(block_sent(0, 20000, 0), 16384);
    assert_eq!(block_sent(16384, 20000, 16384), 20000);
    assert_eq!(block_sent(u32::MAX - 1, 20000, 0), u32::MAX);
}

#[test]
fn slot_scans_stop_where_they_should() {
    assert_eq!(first_empty_scan_step(0, 5), SlotScan::Missing);
    assert_eq!(first_empty_scan_step(5, 5), SlotScan::Found);
    assert_eq!(first_empty_scan_step(7, 5), SlotScan::Next);
    assert_eq!(gap_scan_step(0, 0, 5), (1, SlotScan::Next));
    assert_eq!(gap_scan_step(199, 0, 5), (200, SlotScan::Missing));
    assert_eq!(gap_scan_step(150, 5, 5), (0, SlotScan::Found));
    assert_eq!(gap_scan_step(150, 6, 5), (0, SlotScan::Next));
}

#[test]
fn rewrite_falls_back_to_upload_and_delete() {
    assert!(matches!(rewrite_step(RewriteEvent::Overwritten(Ok(()))), RewriteAction::VerifyTitle));
    assert!(matches!(
        rewrite_step(RewriteEvent::Overwritten(Err(CyrioError::Device("x".into())))),
        RewriteAction::Upload
    ));
    assert!(matches!(rewrite_step(RewriteEvent::Verified(Ok(true))), RewriteAction::Finish(Ok(()))));
    assert!(matches!(rewrite_step(RewriteEvent::Verified(Ok(false))), RewriteAction::Upload));
    assert!(matches!(rewrite_step(RewriteEvent::Uploaded(Ok(9))), RewriteAction::DeleteOld));
    assert!(matches!(
        rewrite_step(RewriteEvent::Uploaded(Err(CyrioError::Transport("t".into())))),
        RewriteAction::Finish(Err(CyrioError::Transport(_)))
    ));
    assert!(matches!(rewrite_step(RewriteEvent::Deleted(Ok(()))), RewriteAction::Finish(Ok(()))));
}

#[test]
fn sync_outcomes_are_recorded_with_their_messages() {
    let mut r = SyncResult { added: vec![], deleted: vec![], skipped: vec![], errors: vec![] };
    record_delete(&mut r, &"a.mp3".to_string(), Ok(()));
    record_delete(&mut r, &"b.mp3".to_string(), Err(CyrioError::Device("busy".into())));
    record_upload(&mut r, &"c.mp3".to_string(), &Ok(7));
    record_upload(&mut r, &"d.mp3".to_string(), &Err(CyrioError::Transport("gone".into())));
    record_playlist_add(&mut r, &"c.mp3".to_string(), Ok(()));
    record_playlist_add(&mut r, &"c.mp3".to_string(), Err(CyrioError::Parse("bad".into())));
    assert_eq!(r.deleted, vec!["a.mp3".to_string()]);
    assert_eq!(r.added, vec!["c.mp3".to_string()]);
    assert_eq!(
        r.errors,
        vec![
            "删除 b.mp3 失败: device error: busy".to_string(),
            "上传 d.mp3 失败: USB transport error: gone".to_string(),
            "加入歌单 c.mp3 失败: parse error: bad".to_string(),
        ]
    );
}

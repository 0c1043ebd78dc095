use cyrio::app_state::{
    current_upload, merge_listed, new_upload_files, sent_upload_bytes, upload_finished, upload_progress,
    upload_started, total_upload_bytes, SongEntry, UploadFileEntry, UploadFileStatus,
};
use cyrio::constants::{TYPE_MP3, TYPE_PLS};
use cyrio::display::{
    display_title, file_name_stem, filter_and_sort_playlists, filter_and_sort_songs, format_time,
    mp3_title_items, repair_previews,
};
use cyrio::rio_file::RioFile;
use cyrio::sync::{mark_synced, remove_rule, rule_position, SyncRule};

fn song(no: u32, size: u32, time: u32, name: &str, title: &str, artist: &str) -> SongEntry {
    let mut f = RioFile::empty();
    f.file_no = no;
    f.size = size;
    f.time = time;
    f.file_type = TYPE_MP3;
    f.name = name.to_string();
    f.title = title.to_string();
    f.artist = artist.to_string();
    SongEntry { file: f, mem_unit: 0 }
}

fn nos(v: &[SongEntry]) -> Vec<u32> {
    v.iter().map(|e| e.file.file_no).collect()
}

#[test]
fn title_falls_back_to_file_stem() {
    let e = song(1, 0, 0, "D:\\music\\track one.mp3", "", "");
    assert_eq!(display_title(&e.file), "track one");
    let t = song(2, 0, 0, "x.mp3", "Real Title", "");
    assert_eq!(display_title(&t.file), "Real Title");
}

#[test]
fn title_untitled_when_nothing_to_show() {
    let e = song(1, 0, 0, "", "", "");
    assert_eq!(display_title(&e.file), "(无标题)");
    let dot = song(2, 0, 0, "dir/.mp3", "", "");
    assert_eq!(display_title(&dot.file), "(无标题)");
}

#[test]
fn stem_of_path_without_extension() {
    assert_eq!(file_name_stem("D:\\a.b\\song.name.mp3"), "song.name");
    assert_eq!(file_name_stem("noext"), "noext");
    assert_eq!(file_name_stem("a/b/c.mp3"), "c");
}

#[test]
fn time_as_minutes_and_seconds() {
    assert_eq!(format_time(185), "3:05");
    assert_eq!(format_time(0), "0:00");
    assert_eq!(format_time(59), "0:59");
    assert_eq!(format_time(3600), "60:00");
}

#[test]
fn songs_filtered_case_insensitively() {
    let list = vec![
        song(1, 10, 100, "a.mp3", "Hello World", "Alice"),
        song(2, 20, 200, "b.mp3", "Other", "BOB"),
        song(3, 30, 300, "hello.mp3", "Third", "Carol"),
    ];
    assert_eq!(nos(&filter_and_sort_songs(&list, "  HELLO ", 0)), vec![1, 3]);
    assert_eq!(nos(&filter_and_sort_songs(&list, "bob", 0)), vec![2]);
    assert_eq!(nos(&filter_and_sort_songs(&list, "   ", 1)), vec![3, 2, 1]);
}

#[test]
fn songs_sorted_by_each_mode() {
    let list = vec![
        song(1, 30, 100, "a.mp3", "Charlie", ""),
        song(2, 10, 300, "b.mp3", "Alpha", ""),
        song(3, 20, 200, "c.mp3", "Bravo", ""),
    ];
    assert_eq!(nos(&filter_and_sort_songs(&list, "", 0)), vec![2, 3, 1]);
    assert_eq!(nos(&filter_and_sort_songs(&list, "", 1)), vec![1, 3, 2]);
    assert_eq!(nos(&filter_and_sort_songs(&list, "", 2)), vec![2, 3, 1]);
}

#[test]
fn equal_keys_keep_their_order() {
    let list = vec![
        song(1, 10, 0, "a.mp3", "Same", ""),
        song(2, 10, 0, "b.mp3", "Same", ""),
        song(3, 10, 0, "c.mp3", "Same", ""),
    ];
    assert_eq!(nos(&filter_and_sort_songs(&list, "", 0)), vec![1, 2, 3]);
    assert_eq!(nos(&filter_and_sort_songs(&list, "", 1)), vec![1, 2, 3]);
}

#[test]
fn playlists_ignore_artist_and_time_mode() {
    let list = vec![
        song(1, 5, 900, "p1.pls", "Zeta", "match"),
        song(2, 50, 100, "p2.pls", "Alpha", ""),
    ];
    assert!(filter_and_sort_playlists(&list, "match", 0).is_empty());
    assert_eq!(nos(&filter_and_sort_playlists(&list, "", 2)), vec![2, 1]);
    assert_eq!(nos(&filter_and_sort_playlists(&list, "", 1)), vec![2, 1]);
}

#[test]
fn title_items_only_for_songs() {
    let mut pl = RioFile::empty();
    pl.file_no = 9;
    pl.file_type = TYPE_PLS;
    pl.title = "list".to_string();
    let a = song(1, 0, 0, "x.mp3", "", "").file;
    let b = song(2, 0, 0, "y.mp3", "Why", "").file;
    let items = mp3_title_items(&[a, pl, b], 1);
    assert_eq!(items.len(), 2);
    assert_eq!(items[0].0, 1);
    assert_eq!(items[0].1, 1);
    assert_eq!(items[0].2, "x");
    assert_eq!(items[1].0, 2);
    assert_eq!(items[1].2, "Why");
}

#[test]
fn repair_previews_list_flagged_files() {
    let mut a = song(1, 0, 0, "x.mp3", "One", "").file;
    a.bits = 0x01;
    let b = song(2, 0, 0, "y.mp3", "Two", "").file;
    let previews = repair_previews(&[a, b], 0);
    assert_eq!(previews.len(), 1);
    assert_eq!(previews[0].file_no, 1);
    assert_eq!(previews[0].original, previews[0].new_title);
}

fn rule(id: &str) -> SyncRule {
    SyncRule {
        id: id.to_string(),
        local_path: format!("/music/{}", id),
        mem_unit: 0,
        playlist_file_no: None,
        last_sync_at: None,
    }
}

#[test]
fn sync_rules_removed_by_id() {
    let rules = vec![rule("a"), rule("b"), rule("a"), rule("c")];
    let left = remove_rule(rules, "a");
    let ids: Vec<&str> = left.iter().map(|r| r.id.as_str()).collect();
    assert_eq!(ids, vec!["b", "c"]);
    let same = remove_rule(vec![rule("x")], "y");
    assert_eq!(same.len(), 1);
}

#[test]
fn sync_rule_marked_with_run_time() {
    let mut rules = vec![rule("a"), rule("b"), rule("b")];
    assert_eq!(rule_position(&rules, "b"), Some(1));
    assert_eq!(rule_position(&rules, "z"), None);
    mark_synced(&mut rules, "b", 1_700_000_000);
    assert_eq!(rules[0].last_sync_at, None);
    assert_eq!(rules[1].last_sync_at, Some(1_700_000_000));
    assert_eq!(rules[2].last_sync_at, None);
    assert_eq!(rules[1].local_path, "/music/b");
    mark_synced(&mut rules, "z", 5);
    assert_eq!(rules.len(), 3);
}

fn entry(sent: u64, total: u64, status: UploadFileStatus) -> UploadFileEntry {
    UploadFileEntry { name: "a.mp3".to_string(), transferred: sent, total, status }
}

#[test]
fn upload_dialog_byte_sums() {
    let files = vec![
        entry(100, 100, UploadFileStatus::Done),
        entry(50, 200, UploadFileStatus::Uploading),
        entry(0, 300, UploadFileStatus::Pending),
    ];
    assert_eq!(total_upload_bytes(&files), 600);
    assert_eq!(sent_upload_bytes(&files), 150);
    assert_eq!(total_upload_bytes(&[]), 0);
}

#[test]
fn upload_dialog_current_file() {
    let files = vec![entry(100, 100, UploadFileStatus::Done), entry(50, 200, UploadFileStatus::Uploading)];
    assert_eq!(current_upload(&files, 1), Some(1));
    assert_eq!(current_upload(&files, 0), None);
    assert_eq!(current_upload(&files, 2), None);
}

#[test]
fn upload_dialog_lifecycle() {
    let names = vec!["a.mp3".to_string(), "b.mp3".to_string()];
    let mut files = new_upload_files(&names);
    assert_eq!(files.len(), 2);
    assert_eq!(files[1].name, "b.mp3");
    assert_eq!(files[0].status, UploadFileStatus::Pending);
    upload_started(&mut files, 0);
    assert_eq!(files[0].status, UploadFileStatus::Uploading);
    upload_progress(&mut files, 0, 10, 40);
    assert_eq!((files[0].transferred, files[0].total), (10, 40));
    upload_finished(&mut files, 0, true);
    assert_eq!(files[0].status, UploadFileStatus::Done);
    assert_eq!(files[0].transferred, 40);
    upload_started(&mut files, 1);
    upload_progress(&mut files, 1, 5, 90);
    upload_finished(&mut files, 1, false);
    assert_eq!(files[1].status, UploadFileStatus::Failed);
    assert_eq!(files[1].transferred, 5);
    upload_started(&mut files, 7);
    upload_finished(&mut files, 7, true);
    assert_eq!(files.len(), 2);
}

#[test]
fn listing_one_unit_keeps_the_other() {
    let mut sd = song(0x4001, 1, 1, "s.mp3", "S", "");
    sd.mem_unit = 1;
    let old_internal = song(3, 1, 1, "old.mp3", "Old", "");
    let list = vec![old_internal, sd];
    let fresh = vec![song(5, 1, 1, "n1.mp3", "N1", "").file, song(6, 1, 1, "n2.mp3", "N2", "").file];
    let merged = merge_listed(list, fresh, 0);
    let ids: Vec<(u32, u8)> = merged.iter().map(|e| (e.file.file_no, e.mem_unit)).collect();
    assert_eq!(ids, vec![(0x4001, 1), (5, 0), (6, 0)]);
}

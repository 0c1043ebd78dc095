use cyrio::app_state::{Command, ConfirmAction, SongEntry};
use cyrio::rio_file::RioFile;
use cyrio::songs_page::{page_window, songs_step, SongsAction, SongsEvent, SongsView};

fn entry(file_no: u32, mem_unit: u8, title: &str) -> SongEntry {
    let mut f = RioFile::empty();
    f.file_no = file_no;
    f.title = title.to_string();
    f.name = format!("{}.mp3", file_no);
    SongEntry { file: f, mem_unit }
}

fn view() -> SongsView {
    SongsView { selected: Vec::new(), last_clicked: None, current_page: 0, playing: None }
}

fn list() -> Vec<SongEntry> {
    vec![entry(10, 0, "a"), entry(11, 0, "b"), entry(12, 1, "c"), entry(13, 1, "d"), entry(14, 0, "")]
}

#[test]
fn click_toggles_and_shift_click_selects_a_range() {
    let songs = list();
    let (v, a) = songs_step(view(), &songs, &songs, 10, SongsEvent::RowClicked { index: 1, shift: false });
    assert!(a.is_empty());
    assert_eq!(v.selected, vec![11]);
    assert_eq!(v.last_clicked, Some(1));
    let (v, _) = songs_step(v, &songs, &songs, 10, SongsEvent::RowClicked { index: 3, shift: true });
    assert_eq!(v.selected, vec![11, 12, 13]);
    assert_eq!(v.last_clicked, Some(3));
    let (v, _) = songs_step(v, &songs, &songs, 10, SongsEvent::RowClicked { index: 0, shift: true });
    assert_eq!(v.selected, vec![10, 11, 12, 13]);
    let (v, _) = songs_step(v, &songs, &songs, 10, SongsEvent::RowClicked { index: 2, shift: false });
    assert_eq!(v.selected, vec![10, 11, 13]);
    let (v, _) = songs_step(v, &songs, &songs, 10, SongsEvent::ClearSelection);
    assert!(v.selected.is_empty());
    assert_eq!(v.last_clicked, None);
    let (v, _) = songs_step(v, &songs, &songs, 10, SongsEvent::RowClicked { index: 4, shift: true });
    assert_eq!(v.selected, vec![14]);
}

#[test]
fn select_all_adds_every_song_once() {
    let songs = list();
    let mut v = view();
    v.selected = vec![12];
    let (v, _) = songs_step(v, &songs, &songs, 10, SongsEvent::SelectAll);
    assert_eq!(v.selected, vec![12, 10, 11, 13, 14]);
}

#[test]
fn double_click_plays_then_stops() {
    let songs = list();
    let (v, a) = songs_step(view(), &songs, &songs, 10, SongsEvent::RowDoubleClicked { index: 2 });
    assert_eq!(v.playing, Some(12));
    assert_eq!(a.len(), 2);
    assert!(matches!(a[0], SongsAction::StopAudio));
    assert!(matches!(a[1], SongsAction::Play { file_no: 12, mem_unit: 1 }));
    let (v, a) = songs_step(v, &songs, &songs, 10, SongsEvent::RowDoubleClicked { index: 2 });
    assert_eq!(v.playing, None);
    assert_eq!(a.len(), 1);
}

#[test]
fn pages_are_clamped() {
    assert_eq!(page_window(25, 10, 7), (20, 25, 3, 2));
    assert_eq!(page_window(25, 10, 1), (10, 20, 3, 1));
    assert_eq!(page_window(0, 10, 3), (0, 0, 1, 0));
    assert_eq!(page_window(30, 10, 2), (20, 30, 3, 2));
    let songs = list();
    let mut v = view();
    v.current_page = 9;
    let (v, _) = songs_step(v, &songs, &songs, 2, SongsEvent::NextPage);
    assert_eq!(v.current_page, 9);
    let (v, _) = songs_step(v, &songs, &songs, 2, SongsEvent::PrevPage);
    assert_eq!(v.current_page, 1);
    let (v, _) = songs_step(v, &songs, &songs, 2, SongsEvent::NextPage);
    assert_eq!(v.current_page, 2);
}

#[test]
fn batch_delete_takes_the_first_unit() {
    let songs = list();
    let mut v = view();
    v.selected = vec![13, 10, 12, 99];
    let (_, a) = songs_step(v, &songs, &songs, 10, SongsEvent::DeleteSelected);
    assert_eq!(a.len(), 1);
    match &a[0] {
        SongsAction::Confirm(d) => {
            assert_eq!(d.message, "确认删除选中的 3 首歌曲？");
            match &d.action {
                ConfirmAction::DeleteSongsBatch { file_nos, mem_unit } => {
                    assert_eq!(file_nos, &vec![13, 12]);
                    assert_eq!(*mem_unit, 1);
                }
                other => panic!("unexpected {:?}", other),
            }
        }
        other => panic!("unexpected {:?}", other),
    }
    let (_, a) = songs_step(view(), &songs, &songs, 10, SongsEvent::DeleteSelected);
    assert!(a.is_empty());
}

#[test]
fn batch_pinyin_sends_shown_titles() {
    let songs = list();
    let (_, a) = songs_step(view(), &songs, &songs, 10, SongsEvent::SlugSelected);
    assert!(a.is_empty());
    let mut v = view();
    v.selected = vec![14, 11];
    let (_, a) = songs_step(v, &songs, &songs, 10, SongsEvent::SlugSelected);
    match &a[0] {
        SongsAction::Send(Command::BatchSlugSongs { items }) => {
            assert_eq!(items, &vec![(14, 0, "14".to_string()), (11, 0, "b".to_string())]);
        }
        other => panic!("unexpected {:?}", other),
    }
    let mut v = view();
    v.selected = vec![10];
    let (_, a) = songs_step(v, &songs, &songs, 10, SongsEvent::StripSelected { custom_words: vec!["x".into()] });
    match &a[0] {
        SongsAction::Send(Command::BatchStripSongs { items, custom_words }) => {
            assert_eq!(items, &vec![(10, 0, "a".to_string())]);
            assert_eq!(custom_words, &vec!["x".to_string()]);
        }
        other => panic!("unexpected {:?}", other),
    }
}

#[test]
fn batch_download_and_playlist_use_the_selection() {
    let songs = list();
    let mut v = view();
    v.selected = vec![12, 77, 10];
    let (v, a) = songs_step(v, &songs, &songs, 10, SongsEvent::DownloadSelected);
    match &a[0] {
        SongsAction::DownloadEach(ps) => assert_eq!(ps, &vec![(12, 1), (10, 0)]),
        other => panic!("unexpected {:?}", other),
    }
    let (_, a) = songs_step(v, &songs, &songs, 10, SongsEvent::AddSelectedToPlaylist);
    assert!(matches!(a[0], SongsAction::ChoosePlaylistFor(12)));
    let (_, a) = songs_step(view(), &songs, &songs, 10, SongsEvent::AddSelectedToPlaylist);
    assert!(a.is_empty());
}

use cyrio::constants::{MAGIC_SRIONOFL, PKT_BLOCK, RIO_FILE_SIZE, TYPE_MP3, TYPE_PLS};
use cyrio::device::{download_block_count, is_no_file_response, DownloadResult, UploadProgress};
use cyrio::playlist::{CreatePlaylistResult, PlaylistSong};
use cyrio::rio_file::RioFile;
use cyrio::rio_mem::RioMem;
use cyrio::types::{Playlist, Song};
use cyrio::upload::{build_upload_header, decode_id3_text, read_id3_tags, UploadTextOptions};
use cyrio::app_state::convert_mem;

#[test]
fn read_id3_tags_returns_empty_for_no_tag() {
    let buf = [0u8; 100];
    let tags = read_id3_tags(&buf);
    assert!(tags.title.is_empty());
    assert!(tags.artist.is_empty());
    assert!(tags.album.is_empty());
}

#[test]
fn read_id3_tags_parses_utf8_title() {
    let title = "测试歌曲";
    let title_bytes = title.as_bytes();
    let frame_size = 1 + title_bytes.len();
    let total_size = 10 + 10 + frame_size;

    let mut buf = vec![0u8; total_size];
    buf[0..3].copy_from_slice(b"ID3");
    buf[3] = 3;
    let body_size = total_size - 10;
    buf[6] = ((body_size >> 21) & 0x7f) as u8;
    buf[7] = ((body_size >> 14) & 0x7f) as u8;
    buf[8] = ((body_size >> 7) & 0x7f) as u8;
    buf[9] = (body_size & 0x7f) as u8;

    buf[10..14].copy_from_slice(b"TIT2");
    buf[14..18].copy_from_slice(&(frame_size as u32).to_be_bytes());
    buf[18..20].copy_from_slice(&[0, 0]);
    buf[20] = 3; // UTF-8
    buf[21..21 + title_bytes.len()].copy_from_slice(title_bytes);

    let tags = read_id3_tags(&buf);
    assert_eq!(tags.title, title);
}

#[test]
fn decode_id3_text_handles_utf8() {
    let data = [3, b'H', b'i', 0];
    assert_eq!(decode_id3_text(&data), "Hi");
}

#[test]
fn decode_id3_text_handles_empty() {
    assert_eq!(decode_id3_text(&[]), "");
}

#[test]
fn build_upload_header_strips_id3v2() {
    // 构造 ID3v2 头 + 少量音频数据
    let title = "Test";
    let title_bytes = title.as_bytes();
    let frame_size = 1 + title_bytes.len();
    let id3_size = 10 + 10 + frame_size;
    let audio_size = 100;
    let mut buf = vec![0u8; id3_size + audio_size];
    buf[0..3].copy_from_slice(b"ID3");
    buf[3] = 3;
    let body_size = id3_size - 10;
    buf[6] = ((body_size >> 21) & 0x7f) as u8;
    buf[7] = ((body_size >> 14) & 0x7f) as u8;
    buf[8] = ((body_size >> 7) & 0x7f) as u8;
    buf[9] = (body_size & 0x7f) as u8;
    buf[10..14].copy_from_slice(b"TIT2");
    buf[14..18].copy_from_slice(&(frame_size as u32).to_be_bytes());
    buf[18..20].copy_from_slice(&[0, 0]);
    buf[20] = 3;
    buf[21..21 + title_bytes.len()].copy_from_slice(title_bytes);

    let (header, offset) = build_upload_header(&buf, "test.mp3", &UploadTextOptions::default());
    assert_eq!(offset, id3_size);
    assert_eq!(header.size as usize, audio_size);
    assert_eq!(header.title, "Test");
    assert_eq!(header.name, "D:\\test.mp3");
    assert_eq!(header.file_type, TYPE_MP3);
}

#[test]
fn is_no_file_response_detects_srionofl() {
    let mut buf = [0u8; 64];
    buf[..MAGIC_SRIONOFL.len()].copy_from_slice(MAGIC_SRIONOFL);
    assert!(is_no_file_response(&buf));

    // SRIORDY 不是 NOFL
    let mut buf = [0u8; 64];
    buf[..7].copy_from_slice(b"SRIORDY");
    assert!(!is_no_file_response(&buf));
}

#[test]
fn download_block_count_for_typical_sizes() {
    // 0 字节：0 块（但实际协议下至少 1 块，这里只算数学上界）
    assert_eq!(download_block_count(0), 0);
    // 1 字节：1 块
    assert_eq!(download_block_count(1), 1);
    // 16384 字节：1 块
    assert_eq!(download_block_count(16384), 1);
    // 16385 字节：2 块
    assert_eq!(download_block_count(16385), 2);
    // 5MB：~320 块
    assert_eq!(download_block_count(5 * 1024 * 1024), 320);
}

#[test]
fn download_block_count_uses_ceil() {
    // 验证向上取整
    assert_eq!(download_block_count(PKT_BLOCK as u32), 1);
    assert_eq!(download_block_count(PKT_BLOCK as u32 + 1), 2);
    assert_eq!(download_block_count(2 * PKT_BLOCK as u32), 2);
    assert_eq!(download_block_count(2 * PKT_BLOCK as u32 + 1), 3);
}

#[test]
fn upload_progress_struct_is_copy() {
    let p = UploadProgress { transferred: 100, total: 1000 };
    let p2 = p;
    assert_eq!(p2.transferred, 100);
    assert_eq!(p2.total, 1000);
    // Copy trait 允许 p 仍然可用
    assert_eq!(p.transferred, 100);
}

#[test]
fn download_result_fields_accessible() {
    let header = RioFile::empty();
    let header_buffer = Box::new([0u8; RIO_FILE_SIZE]);
    let data = vec![0u8; 100];
    let r = DownloadResult {
        header: header.clone(),
        header_buffer,
        data: data.clone(),
    };
    assert_eq!(r.header, header);
    assert_eq!(r.header_buffer.len(), RIO_FILE_SIZE);
    assert_eq!(r.data, data);
}

#[test]
fn playlist_song_struct_fields() {
    let s = Song {
        file_no: 48,
        size: 1024,
        time: 180,
        bit_rate: 128,
        sample_rate: 44100,
        name: "test.mp3".to_string(),
        title: "Test".to_string(),
        artist: "Artist".to_string(),
        album: "Album".to_string(),
    };
    let ps = PlaylistSong {
        song: s.clone(),
        index: 3,
        mem_unit: 0,
    };
    assert_eq!(ps.song.file_no, 48);
    assert_eq!(ps.index, 3);
    assert_eq!(ps.mem_unit, 0);
}

#[test]
fn create_playlist_result_fields() {
    let r = CreatePlaylistResult {
        file_no: 224,
        playlist: Playlist {
            file_no: 224,
            size: 12,
            name: "TESTING".to_string(),
            title: "TESTING".to_string(),
        },
    };
    assert_eq!(r.file_no, 224);
    assert_eq!(r.playlist.name, "TESTING");
}

#[test]
fn convert_mem_sets_mem_unit() {
    let mem = RioMem {
        size: 1024,
        used: 512,
        free: 512,
        ..Default::default()
    };
    let unit = convert_mem(&mem, 1);
    assert_eq!(unit.mem_unit, 1);
    assert_eq!(unit.size, 1024);
    assert_eq!(unit.free, 512);
}

#[test]
fn decode_id3_text_each_encoding() {
    assert_eq!(decode_id3_text(&[0, 0xE9]), "é");
    assert_eq!(decode_id3_text(&[0, b'a', 0, b'b']), "a");
    assert_eq!(decode_id3_text(&[1, b'H', 0, b'i', 0]), "Hi");
    assert_eq!(decode_id3_text(&[1, b'H', 0, 0, 0, b'i', 0]), "H");
    assert_eq!(decode_id3_text(&[2, 0, b'H', 0, b'i', 0]), "Hi");
    assert_eq!(decode_id3_text(&[1, 0x2D, 0x4E]), "中");
    assert_eq!(decode_id3_text(&[9, b'x']), "");
}

#[test]
fn read_id3_tags_oversized_tag_is_empty() {
    let buf = [b'I', b'D', b'3', 3, 0, 0, 0x7f, 0x7f, 0x7f, 0x7f];
    let t = read_id3_tags(&buf);
    assert_eq!(t.title, "");
    assert_eq!(t.artist, "");
    assert!(t.cover_art.is_none());
}

#[test]
fn upload_header_title_falls_back_to_stem() {
    let data = vec![0u8; 50];
    let opts = UploadTextOptions::default();
    let (h, skipped) = build_upload_header(&data, "my song.v2.mp3", &opts);
    assert_eq!(skipped, 0);
    assert_eq!(h.title, "my song.v2");
    assert_eq!(h.name, "D:\\my song.v2.mp3");
    assert_eq!(h.size, 50);
    let (h, _) = build_upload_header(&data, ".hidden", &opts);
    assert_eq!(h.title, ".hidden");
}

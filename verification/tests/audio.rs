use cyrio::player::{AudioCommand, AudioState};
use std::sync::atomic::{AtomicBool, AtomicU32};
use std::sync::{mpsc, Arc, Mutex};
use cyrio::audio::{parse_mp3_info, skip_id3v2, AudioError};
use cyrio::constants::TYPE_MP3;
use cyrio::rio_file::RioFile;
use cyrio::types::{format_bytes, is_mp3_file, is_playlist_file, rio_file_to_playlist, rio_file_to_song};
use cyrio::id3::get_id3v2_size;

#[test]
fn skip_id3v2_returns_zero_for_no_tag() {
    let buf = [0u8; 100];
    assert_eq!(skip_id3v2(&buf), 0);
}

#[test]
fn skip_id3v2_parses_valid_tag() {
    let mut buf = [0u8; 30];
    buf[0] = b'I';
    buf[1] = b'D';
    buf[2] = b'3';
    buf[6] = 0;
    buf[7] = 0;
    buf[8] = 0;
    buf[9] = 5;
    assert_eq!(skip_id3v2(&buf), 15);
}

#[test]
fn parse_mp3_info_returns_none_for_empty() {
    assert!(parse_mp3_info(&[]).is_none());
}

#[test]
fn parse_mp3_info_returns_none_for_random_data() {
    let buf = [0u8; 1000];
    assert!(parse_mp3_info(&buf).is_none());
}

#[test]
fn parse_mp3_info_parses_simple_frame() {
    // 构造一个最小的 MPEG1 Layer III 128kbps 44100Hz 帧
    // 帧头: 0xFF 0xFB 0x90 0x00
    //   0xFF = sync
    //   0xFB = 1111 1011 -> MPEG1 (11), Layer III (01), no CRC (1)
    //   0x90 = 1001 0000 -> bitrate idx 9 (128kbps), sample rate idx 0 (44100), no padding
    //   0x00 = 0000 0000 -> channel mode 00 (stereo)
    let mut buf = vec![0u8; 4 + 417]; // 帧头 + 帧数据（128kbps/44100Hz -> 417 字节）
    buf[0] = 0xFF;
    buf[1] = 0xFB;
    buf[2] = 0x90;
    buf[3] = 0x00;
    // 计算预期帧长度：144 * 128000 / 44100 = 417.6 -> 417
    let info = parse_mp3_info(&buf);
    assert!(info.is_some(), "should parse MP3 info");
    let info = info.unwrap();
    assert_eq!(info.bit_rate, 128);
    assert_eq!(info.sample_rate, 44100);
    assert_eq!(info.layer, 3);
    assert_eq!(info.channels, 2);
    // 单帧时长：1152 / 44100 = 0.026s
    assert_eq!(info.duration, 0);
}

#[test]
fn parse_mp3_info_handles_multiple_frames() {
    // 两帧 MPEG1 Layer III 128kbps 44100Hz
    let frame_size = 417;
    let mut buf = vec![0u8; frame_size * 2];
    for i in 0..2 {
        buf[i * frame_size] = 0xFF;
        buf[i * frame_size + 1] = 0xFB;
        buf[i * frame_size + 2] = 0x90;
        buf[i * frame_size + 3] = 0x00;
    }
    let info = parse_mp3_info(&buf).expect("should parse");
    // 两帧 × 0.026s = 0.052s，向下取整 = 0
    assert_eq!(info.duration, 0);
}

#[test]
fn rio_file_to_song_converts_bit_rate() {
    let mut f = RioFile::empty();
    f.file_no = 48;
    f.size = 1024;
    f.bit_rate = 16384; // 128kbps << 7
    f.name = "test.mp3".to_string();
    let s = rio_file_to_song(&f);
    assert_eq!(s.file_no, 48);
    assert_eq!(s.bit_rate, 128);
    assert_eq!(s.name, "test.mp3");
}

#[test]
fn is_mp3_file_detects_type() {
    let mut f = RioFile::empty();
    f.file_type = TYPE_MP3;
    assert!(is_mp3_file(&f));
    f.file_type = 0;
    assert!(!is_mp3_file(&f));
}

#[test]
fn format_bytes_thresholds() {
    assert_eq!(format_bytes(0), "0B");
    assert_eq!(format_bytes(1023), "1023B");
    assert_eq!(format_bytes(1024), "1.0KB");
    assert_eq!(format_bytes(1024 * 1024), "1.0MB");
    assert_eq!(format_bytes(1024 * 1024 * 5), "5.0MB");
}

#[test]
fn get_id3v2_size_returns_zero_for_no_tag() {
    let buf = [0u8; 100];
    assert_eq!(get_id3v2_size(&buf), 0);
}

#[test]
fn get_id3v2_size_returns_zero_for_short_buffer() {
    let buf = [0u8; 5];
    assert_eq!(get_id3v2_size(&buf), 0);
}

#[test]
fn get_id3v2_size_parses_valid_header() {
    let mut buf = vec![0u8; 110];
    buf[0..3].copy_from_slice(b"ID3");
    buf[3] = 3;
    buf[4] = 0;
    buf[5] = 0;
    buf[6] = 0;
    buf[7] = 0;
    buf[8] = 0;
    buf[9] = 100;
    assert_eq!(get_id3v2_size(&buf), 110);
}

#[test]
fn mp3_layer1_mono_frame() {
    // MPEG-1 Layer I (0xFF 0xFF), 32 kbps at 44100 Hz, channel mode 3 (mono)
    let mut buf = vec![0u8; 200];
    buf[0] = 0xFF;
    buf[1] = 0xFF;
    buf[2] = 0x10;
    buf[3] = 0xC0;
    let info = parse_mp3_info(&buf).unwrap();
    assert_eq!(info.layer, 1);
    assert_eq!(info.bit_rate, 32);
    assert_eq!(info.sample_rate, 44100);
    assert_eq!(info.channels, 1);
}

#[test]
fn mp3_frames_after_id3_and_junk() {
    // ID3 tag of 10 + 5 bytes, two junk bytes, then frames of 417 bytes each
    // (MPEG-1 Layer III, 128 kbps, 44100 Hz): 1000 frames last 26.1 s.
    let mut buf = vec![0u8; 15 + 2 + 417 * 1000];
    buf[0] = b'I';
    buf[1] = b'D';
    buf[2] = b'3';
    buf[9] = 5;
    for i in 0..1000 {
        let at = 17 + i * 417;
        buf[at] = 0xFF;
        buf[at + 1] = 0xFB;
        buf[at + 2] = 0x90;
        buf[at + 3] = 0x00;
    }
    let info = parse_mp3_info(&buf).unwrap();
    assert_eq!(info.duration, 26);
    assert_eq!(info.bit_rate, 128);
}

#[test]
fn mp3_reserved_version_is_no_frame() {
    let mut buf = vec![0u8; 100];
    buf[0] = 0xFF;
    buf[1] = 0xEB; // version bits 01: reserved
    buf[2] = 0x90;
    assert!(parse_mp3_info(&buf).is_none());
}

#[test]
fn id3_size_over_limit_is_ignored() {
    let mut buf = vec![0u8; 20];
    buf[0] = b'I';
    buf[1] = b'D';
    buf[2] = b'3';
    buf[6] = 0x7f;
    assert_eq!(get_id3v2_size(&buf), 0);
    buf[6] = 0x08; // exactly 16 MiB
    assert_eq!(get_id3v2_size(&buf), 10 + 16 * 1024 * 1024);
}

#[test]
fn playlist_record_conversion() {
    let mut f = RioFile::empty();
    f.file_no = 7;
    f.size = 30;
    f.name = "My List".to_string();
    f.title = "Title".to_string();
    f.file_type = cyrio::constants::TYPE_PLS;
    assert!(is_playlist_file(&f));
    assert!(!is_mp3_file(&f));
    let p = rio_file_to_playlist(&f);
    assert_eq!(p.file_no, 7);
    assert_eq!(p.size, 30);
    assert_eq!(p.name, "My List");
    assert_eq!(p.title, "Title");
}

#[test]
fn format_bytes_rounding() {
    assert_eq!(format_bytes(1536), "1.5KB");
    assert_eq!(format_bytes(1024 * 1024 - 1), "1024.0KB");
    assert_eq!(format_bytes(1024 * 1024 * 3 / 2), "1.5MB");
}

#[test]
fn audio_error_messages() {
    assert_eq!(AudioError::Decode("bad frame".to_string()).to_string(), "decode error: bad frame");
    assert_eq!(AudioError::Playback("no device".to_string()).to_string(), "playback error: no device");
}

#[test]
fn parse_mp3_info_truncated_tag_is_none() {
    let data = [0x49, 0x44, 0x33, 0, 0, 0, 0, 0, 0, 5];
    assert!(parse_mp3_info(&data).is_none());
}

#[test]
fn audio_handle_sends_each_command() {
    let (tx, rx) = mpsc::channel();
    let mut a = AudioState::new(
        tx,
        Arc::new(AtomicBool::new(false)),
        Arc::new(AtomicU32::new(0)),
        Arc::new(Mutex::new(None)),
        Arc::new(AtomicU32::new(0)),
        Arc::new(AtomicBool::new(false)),
    );
    assert!(a.play(vec![1, 2, 3]).is_ok());
    assert!(a.pause().is_ok());
    assert!(a.resume().is_ok());
    assert!(a.stop().is_ok());
    assert!(a.quit().is_ok());
    assert!(matches!(rx.recv().unwrap(), AudioCommand::Play(d) if d == vec![1, 2, 3]));
    assert!(matches!(rx.recv().unwrap(), AudioCommand::Pause));
    assert!(matches!(rx.recv().unwrap(), AudioCommand::Resume));
    assert!(matches!(rx.recv().unwrap(), AudioCommand::Stop));
    assert!(matches!(rx.recv().unwrap(), AudioCommand::Quit));
    drop(rx);
    assert_eq!(a.play(Vec::new()), Err("音频线程已关闭".to_string()));
}

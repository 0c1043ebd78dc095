use cyrio::bytes::{read_u24_le, read_u32_le, write_u24_le, write_u32_le};
use cyrio::constants::{
    BITS_REQUIRED, FIDL_ENTRY_SIZE, FIDL_HEADER_SIZE, FIDL_OFF_RIO_NUM, MAGIC_CRIOABRT, MAGIC_CRIODATA,
    MAGIC_CRIOINFO, MAGIC_SRIODONE, MAGIC_SRIORDY, OFF_BITS, OFF_BIT_RATE, OFF_FILE_NO, OFF_MEM_FREE,
    OFF_MEM_NAME, OFF_MEM_SIZE, OFF_MEM_SYSTEM, OFF_MEM_USED, OFF_MOD_DATE, OFF_NAME, OFF_SAMPLE_RATE,
    OFF_SIZE, OFF_TITLE, OFF_TYPE, PRODUCT_RIO_S50, RIO_FILE_SIZE, RIO_MEM_SIZE, RIO_NUM_OFFSET,
    RIO_STRING_LEN, SUPPORTED_PIDS, TYPE_MP3, TYPE_PLS,
};
use cyrio::crc32::{crc32, crc32_update};
use cyrio::error::CyrioError;
use cyrio::fidl::{append_to_fidl, parse_fidl, serialize_fidl, FidlEntry, FidlPlaylist};
use cyrio::packets::{build_crio_abort, build_crio_data, build_crio_info, expect_magic, parse_magic};
use cyrio::rio_file::{overwrite_rio_file_fields, parse_rio_file, read_fixed_string, serialize_rio_file, RioFile, RioFileUpdates};
use cyrio::rio_mem::{parse_rio_mem, serialize_rio_mem, RioMem};

// ---------------------------------------------------------------- error

#[test]
fn error_display_works() {
    let e = CyrioError::FileNotFound(48);
    assert_eq!(e.to_string(), "file not found: fileNo=48");
}

// ---------------------------------------------------------------- constants

#[test]
fn supported_pids_contains_s50() {
    assert!(SUPPORTED_PIDS.contains(&PRODUCT_RIO_S50));
    assert_eq!(SUPPORTED_PIDS.len(), 4);
}

#[test]
fn magic_lengths_are_8_bytes() {
    assert_eq!(MAGIC_CRIODATA.len(), 8);
    assert_eq!(MAGIC_CRIOINFO.len(), 8);
    assert_eq!(MAGIC_CRIOABRT.len(), 8);
    assert_eq!(MAGIC_SRIORDY.len(), 7);
    assert_eq!(MAGIC_SRIODONE.len(), 8);
}

#[test]
fn type_mp3_value_matches_rioutil() {
    assert_eq!(TYPE_MP3, 0x4d504733);
    let fourcc = u32::from_be_bytes(*b"MPG3");
    assert_eq!(fourcc, TYPE_MP3);
}

#[test]
fn rio_num_offset_is_0x4000() {
    assert_eq!(RIO_NUM_OFFSET, 0x4000);
    assert_eq!(144 + RIO_NUM_OFFSET, 0x4090);
}

#[test]
fn bits_required_is_0x111() {
    assert_eq!(BITS_REQUIRED, 0x111);
}

// ---------------------------------------------------------------- crc32

#[test]
fn rioutil_vector_123456789() {
    assert_eq!(crc32(b"123456789"), 0x0328b978);
}

#[test]
fn empty_buffer_is_zero() {
    assert_eq!(crc32(&[]), 0x00000000);
}

#[test]
fn all_zero_16384b_is_zero() {
    assert_eq!(crc32(&[0u8; 16384]), 0x00000000);
}

#[test]
fn hello_world() {
    assert_eq!(crc32(b"Hello World"), 0x07d19dd1);
}

#[test]
fn incremental_equals_one_shot() {
    let full = b"Hello World, this is a test";
    let crc_full = crc32(full);
    let mut crc_inc = 0u32;
    crc_inc = crc32_update(crc_inc, &full[0..5]);
    crc_inc = crc32_update(crc_inc, &full[5..11]);
    crc_inc = crc32_update(crc_inc, &full[11..]);
    assert_eq!(crc_inc, crc_full);
}

#[test]
fn returns_unsigned_32bit() {
    let crc = crc32(b"some test data with high bit pattern \xff\xfe\xfd");
    assert_ne!(crc, 0);
    assert_eq!(crc, crc32(b"some test data with high bit pattern \xff\xfe\xfd"));
}

// ---------------------------------------------------------------- packets

#[test]
fn build_crio_data_writes_magic_and_be_crc() {
    let chunk = [0u8; 16384];
    let pkt = build_crio_data(&chunk);
    assert_eq!(&pkt[..8], b"CRIODATA");
    assert_eq!(&pkt[8..12], &[0, 0, 0, 0]);
    assert_eq!(&pkt[12..], &[0u8; 52]);
}

#[test]
fn build_crio_data_with_nonzero_chunk_writes_be_crc() {
    let chunk = b"123456789";
    let pkt = build_crio_data(chunk);
    assert_eq!(&pkt[8..12], &[0x03, 0x28, 0xb9, 0x78]);
}

#[test]
fn build_crio_info_has_zero_crc_field() {
    let pkt = build_crio_info();
    assert_eq!(&pkt[..8], b"CRIOINFO");
    assert_eq!(&pkt[8..12], &[0, 0, 0, 0]);
    assert_eq!(&pkt[12..], &[0u8; 52]);
}

#[test]
fn build_crio_abort_format() {
    let pkt = build_crio_abort();
    assert_eq!(&pkt[..8], b"CRIOABRT");
    assert_eq!(&pkt[8..], &[0u8; 56]);
}

#[test]
fn parse_magic_recognizes_host_magics() {
    let pkt = build_crio_data(&[0u8; 16]);
    assert_eq!(parse_magic(&pkt), "CRIODATA");
    let pkt = build_crio_info();
    assert_eq!(parse_magic(&pkt), "CRIOINFO");
    let pkt = build_crio_abort();
    assert_eq!(parse_magic(&pkt), "CRIOABRT");
}

#[test]
fn parse_magic_recognizes_device_magics() {
    let mut buf = [0u8; 64];
    buf[..7].copy_from_slice(b"SRIORDY");
    assert_eq!(parse_magic(&buf), "SRIORDY");
    let mut buf = [0u8; 64];
    buf[..8].copy_from_slice(b"SRIODONE");
    assert_eq!(parse_magic(&buf), "SRIODONE");
}

#[test]
fn parse_magic_fallback_returns_first_8_bytes_trimmed() {
    let mut buf = [0u8; 64];
    buf[..5].copy_from_slice(b"HELLO");
    assert_eq!(parse_magic(&buf), "HELLO");
}

#[test]
fn expect_magic_ok_for_matching_buf() {
    let pkt = build_crio_info();
    assert!(expect_magic(&pkt, MAGIC_CRIOINFO, "test").is_ok());
}

#[test]
fn expect_magic_err_for_mismatched_buf() {
    let pkt = build_crio_abort();
    let err = expect_magic(&pkt, MAGIC_SRIORDY, "upload init").unwrap_err();
    let msg = err.to_string();
    assert!(msg.contains("upload init"), "msg: {}", msg);
    assert!(msg.contains("SRIORDY"), "msg: {}", msg);
    assert!(msg.contains("CRIOABRT"), "msg: {}", msg);
}

#[test]
fn packets_are_64_bytes() {
    assert_eq!(build_crio_data(&[0u8; 16]).len(), 64);
    assert_eq!(build_crio_info().len(), 64);
    assert_eq!(build_crio_abort().len(), 64);
}

// ---------------------------------------------------------------- rio_file

#[test]
fn empty_rio_file_is_all_zero() {
    let f = RioFile::empty();
    assert_eq!(f.file_no, 0);
    assert_eq!(f.size, 0);
    assert_eq!(f.name, "");
}

#[test]
fn serialize_writes_known_fields_le() {
    let mut f = RioFile::empty();
    f.file_no = 48;
    f.size = 1024;
    f.mod_date = 0x12345678;
    f.file_type = TYPE_MP3;
    f.sample_rate = 44100;
    f.bit_rate = 16384;
    f.name = "test.mp3".to_string();

    let buf = serialize_rio_file(&f);

    assert_eq!(read_u32_le(&buf, OFF_FILE_NO), 48);
    assert_eq!(read_u32_le(&buf, OFF_SIZE), 1024);
    assert_eq!(read_u32_le(&buf, OFF_MOD_DATE), 0x12345678);
    assert_eq!(read_u32_le(&buf, OFF_TYPE), TYPE_MP3);
    assert_eq!(read_u32_le(&buf, OFF_SAMPLE_RATE), 44100);
    assert_eq!(read_u32_le(&buf, OFF_BIT_RATE), 16384);
    assert_eq!(&buf[OFF_NAME..OFF_NAME + 8], b"test.mp3");
    assert_eq!(buf[OFF_NAME + 8], 0);
}

#[test]
fn serialize_forces_bits_required() {
    let mut f = RioFile::empty();
    f.bits = 0;
    let buf = serialize_rio_file(&f);
    assert_eq!(read_u32_le(&buf, OFF_BITS), BITS_REQUIRED & !0x01);
    f.bits = 0x80;
    let buf = serialize_rio_file(&f);
    assert_eq!(read_u32_le(&buf, OFF_BITS), 0x80 | (BITS_REQUIRED & !0x01));
}

#[test]
fn serialize_never_sets_bit0() {
    let mut f = RioFile::empty();
    f.file_type = TYPE_PLS;
    f.bits = 0;
    f.name = "测试歌单".to_string();
    let buf = serialize_rio_file(&f);
    let bits = read_u32_le(&buf, OFF_BITS);
    assert_eq!(bits, BITS_REQUIRED & !0x01, "PLS should not set bit 0");
    assert_eq!(bits & 0x01, 0, "bit 0 must be 0 for PLS");
    assert_eq!(bits & 0x110, 0x110);

    let mut mp3 = RioFile::empty();
    mp3.file_type = TYPE_MP3;
    mp3.bits = 0;
    let mp3_buf = serialize_rio_file(&mp3);
    let mp3_bits = read_u32_le(&mp3_buf, OFF_BITS);
    assert_eq!(mp3_bits, BITS_REQUIRED & !0x01, "MP3 should also clear bit 0 (unified encoding)");
    assert_eq!(mp3_bits & 0x01, 0, "bit 0 must be 0 for MP3");
    assert_eq!(mp3_bits & 0x110, 0x110, "other required bits still set");
}

#[test]
fn parse_reads_known_fields() {
    let mut f = RioFile::empty();
    f.file_no = 144;
    f.size = 4096;
    f.file_type = TYPE_MP3;
    f.name = "song.mp3".to_string();
    f.artist = "Artist".to_string();
    let buf = serialize_rio_file(&f);
    let parsed = parse_rio_file(&buf).unwrap();
    assert_eq!(parsed.file_no, 144);
    assert_eq!(parsed.size, 4096);
    assert_eq!(parsed.file_type, TYPE_MP3);
    assert_eq!(parsed.name, "song.mp3");
    assert_eq!(parsed.artist, "Artist");
}

#[test]
fn rio_file_parse_returns_error_for_short_buffer() {
    let buf = [0u8; 100];
    let err = parse_rio_file(&buf).unwrap_err();
    assert!(matches!(err, CyrioError::Parse(_)));
    assert!(err.to_string().contains("too short"));
}

#[test]
fn rio_file_round_trip_preserves_all_fields() {
    let mut f = RioFile::empty();
    f.file_no = 224;
    f.start = 0x10000;
    f.size = 0xabcdef;
    f.time = 180;
    f.mod_date = 0x17000000;
    f.bits = 0x110;
    f.file_type = TYPE_MP3;
    f.sample_rate = 48000;
    f.bit_rate = 32000;
    f.name = "song.mp3".to_string();
    f.title = "Title".to_string();
    f.artist = "Artist".to_string();
    f.album = "Album".to_string();
    let buf = serialize_rio_file(&f);
    let parsed = parse_rio_file(&buf).unwrap();
    assert_eq!(parsed, f);
}

#[test]
fn utf8_encoding_handles_chinese() {
    let mut f = RioFile::empty();
    f.title = "测试".to_string();
    let buf = serialize_rio_file(&f);
    assert_eq!(buf[OFF_TITLE], 0xE6);
    assert_eq!(buf[OFF_TITLE + 1], 0xB5);
    assert_eq!(buf[OFF_TITLE + 2], 0x8B);
    assert_eq!(buf[OFF_TITLE + 3], 0xE8);
    assert_eq!(buf[OFF_TITLE + 4], 0xAF);
    assert_eq!(buf[OFF_TITLE + 5], 0x95);
    let parsed = parse_rio_file(&buf).unwrap();
    assert_eq!(parsed.title, "测试");
}

#[test]
fn utf8_roundtrip_playlist_name_chinese() {
    let mut f = RioFile::empty();
    f.file_type = TYPE_PLS;
    f.name = "测试歌单".to_string();
    f.title = "测试歌单".to_string();
    let buf = serialize_rio_file(&f);
    assert_eq!(
        &buf[OFF_NAME..OFF_NAME + 12],
        &[0xE6, 0xB5, 0x8B, 0xE8, 0xAF, 0x95, 0xE6, 0xAD, 0x8C, 0xE5, 0x8D, 0x95]
    );
    let parsed = parse_rio_file(&buf).unwrap();
    assert_eq!(parsed.name, "测试歌单");
    assert_eq!(parsed.title, "测试歌单");
}

#[test]
fn utf8_double_encoding_backward_compat() {
    let original = "测试歌单";
    let utf8_bytes = original.as_bytes();
    let latin1_str: String = utf8_bytes.iter().map(|&b| b as char).collect();
    let double_encoded = latin1_str.as_bytes();
    let mut device_buf = [0u8; RIO_FILE_SIZE];
    device_buf[OFF_TITLE..OFF_TITLE + double_encoded.len()].copy_from_slice(double_encoded);
    let parsed = parse_rio_file(&device_buf).unwrap();
    assert_eq!(parsed.title, "测试歌单");
}

#[test]
fn utf8_encoding_handles_latin1_chars() {
    let mut f = RioFile::empty();
    f.title = "caf\u{00E9}".to_string();
    let buf = serialize_rio_file(&f);
    assert_eq!(&buf[OFF_TITLE..OFF_TITLE + 5], "caf\u{00E9}".as_bytes());
    assert_eq!(buf[OFF_TITLE + 3], 0xC3);
    assert_eq!(buf[OFF_TITLE + 4], 0xA9);
}

#[test]
fn read_fixed_string_decodes_utf8_chinese() {
    let mut buf = [0u8; RIO_STRING_LEN];
    let utf8_bytes = "测试".as_bytes();
    buf[..utf8_bytes.len()].copy_from_slice(utf8_bytes);
    let s = read_fixed_string(&buf, 0, RIO_STRING_LEN);
    assert_eq!(s, "测试");
}

#[test]
fn read_fixed_string_decodes_gbk_chinese() {
    let mut buf = [0u8; RIO_STRING_LEN];
    buf[0] = 0xB2;
    buf[1] = 0xE2;
    buf[2] = 0xCA;
    buf[3] = 0xD4;
    let s = read_fixed_string(&buf, 0, RIO_STRING_LEN);
    assert_eq!(s, "测试");
}

#[test]
fn read_fixed_string_decodes_double_encoded_gbk() {
    let double_encoded = "²âÊÔ¸èµ¥";
    let utf8_bytes = double_encoded.as_bytes();
    let mut buf = [0u8; RIO_STRING_LEN];
    buf[..utf8_bytes.len()].copy_from_slice(utf8_bytes);
    let s = read_fixed_string(&buf, 0, RIO_STRING_LEN);
    assert_eq!(s, "测试歌单");
}

#[test]
fn string_truncates_when_too_long() {
    let mut f = RioFile::empty();
    let long_name = "a".repeat(80);
    f.name = long_name.clone();
    let buf = serialize_rio_file(&f);
    assert_eq!(&buf[OFF_NAME..OFF_NAME + RIO_STRING_LEN], &[b'a'; 64]);
    let parsed = parse_rio_file(&buf).unwrap();
    assert_eq!(parsed.name, "a".repeat(64));
}

#[test]
fn read_fixed_string_handles_no_nul() {
    let mut buf = [b'x'; 64];
    let s = read_fixed_string(&buf, 0, 64);
    assert_eq!(s, "x".repeat(64));
    buf[10] = 0;
    let s = read_fixed_string(&buf, 0, 64);
    assert_eq!(s, "xxxxxxxxxx");
}

#[test]
fn overwrite_preserves_unknown_fields() {
    let mut original = [0u8; RIO_FILE_SIZE];
    for b in original.iter_mut().take(0x24).skip(0x1c) {
        *b = 0xAB;
    }
    write_u32_le(&mut original, OFF_FILE_NO, 100);
    let updates = RioFileUpdates { file_no: Some(200), size: Some(2048), ..Default::default() };
    overwrite_rio_file_fields(&mut original, &updates);
    assert_eq!(read_u32_le(&original, OFF_FILE_NO), 200);
    assert_eq!(read_u32_le(&original, OFF_SIZE), 2048);
    assert_eq!(&original[0x1c..0x24], &[0xAB; 8]);
}

#[test]
fn overwrite_bits_still_forces_required() {
    let mut buf = [0u8; RIO_FILE_SIZE];
    let updates = RioFileUpdates { bits: Some(0), ..Default::default() };
    overwrite_rio_file_fields(&mut buf, &updates);
    assert_eq!(read_u32_le(&buf, OFF_BITS), BITS_REQUIRED & !0x01);

    let mut pls_buf = [0u8; RIO_FILE_SIZE];
    write_u32_le(&mut pls_buf, OFF_TYPE, TYPE_PLS);
    let pls_updates = RioFileUpdates { bits: Some(0), ..Default::default() };
    overwrite_rio_file_fields(&mut pls_buf, &pls_updates);
    assert_eq!(read_u32_le(&pls_buf, OFF_BITS), BITS_REQUIRED & !0x01, "PLS overwrite should not set bit 0");

    let mut old_buf = [0u8; RIO_FILE_SIZE];
    let old_updates = RioFileUpdates { bits: Some(0x11000111), ..Default::default() };
    overwrite_rio_file_fields(&mut old_buf, &old_updates);
    assert_eq!(read_u32_le(&old_buf, OFF_BITS) & 0x01, 0, "overwrite must clear bit 0 even if input has it set");

    let mut mp3_buf = [0u8; RIO_FILE_SIZE];
    write_u32_le(&mut mp3_buf, OFF_TYPE, TYPE_MP3);
    let mp3_updates = RioFileUpdates { bits: Some(0x111), ..Default::default() };
    overwrite_rio_file_fields(&mut mp3_buf, &mp3_updates);
    assert_eq!(read_u32_le(&mp3_buf, OFF_BITS) & 0x01, 0, "MP3 overwrite must clear bit 0");
}

#[test]
fn overwrite_fixes_double_encoded_name() {
    let original_utf8 = "测试歌单";
    let utf8_bytes = original_utf8.as_bytes();
    let latin1_str: String = utf8_bytes.iter().map(|&b| b as char).collect();
    let double_encoded = latin1_str.as_bytes();
    let mut buf = [0u8; RIO_FILE_SIZE];
    write_u32_le(&mut buf, OFF_TYPE, TYPE_PLS);
    write_u32_le(&mut buf, OFF_BITS, 0x11000111);
    buf[OFF_NAME..OFF_NAME + double_encoded.len()].copy_from_slice(double_encoded);
    buf[OFF_TITLE..OFF_TITLE + double_encoded.len()].copy_from_slice(double_encoded);
    let parsed = parse_rio_file(&buf).unwrap();
    assert_eq!(parsed.name, "测试歌单");
    let updates = RioFileUpdates {
        name: Some(parsed.name.clone()),
        title: Some(parsed.title.clone()),
        bits: Some(parsed.bits),
        ..Default::default()
    };
    overwrite_rio_file_fields(&mut buf, &updates);
    let name_bytes = &buf[OFF_NAME..OFF_NAME + utf8_bytes.len()];
    assert_eq!(name_bytes, utf8_bytes, "name should be correct UTF-8");
    assert_eq!(read_u32_le(&buf, OFF_BITS) & 0x01, 0, "bit 0 should be cleared");
}

// ---------------------------------------------------------------- rio_mem

#[test]
fn empty_rio_mem_is_all_zero() {
    let m = RioMem::empty();
    assert_eq!(m.size, 0);
    assert_eq!(m.used, 0);
    assert_eq!(m.free, 0);
    assert_eq!(m.name, "");
    assert!(!m.is_present());
}

#[test]
fn serialize_writes_fields_le() {
    let mut m = RioMem::empty();
    m.size = 64 * 1024 * 1024;
    m.used = 10 * 1024 * 1024;
    m.free = 50 * 1024 * 1024;
    m.system = 4 * 1024 * 1024;
    m.name = "Internal Memory".to_string();
    m.model = "Rio S50".to_string();
    let buf = serialize_rio_mem(&m);
    assert_eq!(read_u32_le(&buf, OFF_MEM_SIZE), 64 * 1024 * 1024);
    assert_eq!(read_u32_le(&buf, OFF_MEM_USED), 10 * 1024 * 1024);
    assert_eq!(read_u32_le(&buf, OFF_MEM_FREE), 50 * 1024 * 1024);
    assert_eq!(read_u32_le(&buf, OFF_MEM_SYSTEM), 4 * 1024 * 1024);
    assert_eq!(&buf[OFF_MEM_NAME..OFF_MEM_NAME + 15], b"Internal Memory");
    assert_eq!(buf[OFF_MEM_NAME + 15], 0);
}

#[test]
fn parse_reads_fields() {
    let mut m = RioMem::empty();
    m.size = 128 * 1024 * 1024;
    m.used = 30 * 1024 * 1024;
    m.free = 90 * 1024 * 1024;
    m.system = 8 * 1024 * 1024;
    m.name = "SD Card".to_string();
    m.model = "Rio S30S".to_string();
    let buf = serialize_rio_mem(&m);
    let parsed = parse_rio_mem(&buf).unwrap();
    assert_eq!(parsed, m);
    assert!(parsed.is_present());
}

#[test]
fn rio_mem_parse_returns_error_for_short_buffer() {
    let buf = [0u8; 100];
    let err = parse_rio_mem(&buf).unwrap_err();
    assert!(matches!(err, CyrioError::Parse(_)));
    assert!(err.to_string().contains("too short"));
}

#[test]
fn all_zero_buffer_means_not_present() {
    let buf = [0u8; RIO_MEM_SIZE];
    let m = parse_rio_mem(&buf).unwrap();
    assert!(!m.is_present());
    assert_eq!(m.size, 0);
}

#[test]
fn format_size_renders_mb() {
    let mut m = RioMem::empty();
    m.size = 64 * 1024 * 1024;
    m.used = 10 * 1024 * 1024;
    m.free = 50 * 1024 * 1024;
    let s = m.format_size();
    assert!(s.contains("10.0MB used"));
    assert!(s.contains("50.0MB free"));
    assert!(s.contains("64.0MB total"));
}

#[test]
fn rio_mem_round_trip_preserves_all_fields() {
    let mut m = RioMem::empty();
    m.size = 0x10000000;
    m.used = 0x8000000;
    m.free = 0x4000000;
    m.system = 0x2000000;
    m.name = "测试内存".to_string();
    m.model = "Rio S35S".to_string();
    let buf = serialize_rio_mem(&m);
    let parsed = parse_rio_mem(&buf).unwrap();
    assert_eq!(parsed, m);
}

// ---------------------------------------------------------------- fidl

#[test]
fn empty_playlist_serializes_to_header_only() {
    let p = FidlPlaylist::empty();
    let buf = serialize_fidl(&p);
    assert_eq!(buf.len(), FIDL_HEADER_SIZE);
    assert_eq!(&buf[0..4], b"FIDL");
    assert_eq!(&buf[4..6], b"ST");
    assert_eq!(buf[6], 0x01);
    assert_eq!(buf[7], 0x00);
    assert_eq!(buf[8], 0x00);
    assert_eq!(read_u24_le(&buf, 9), 0);
}

#[test]
fn parse_empty_buffer_returns_error() {
    let buf = [];
    let err = parse_fidl(&buf).unwrap_err();
    assert!(matches!(err, CyrioError::Parse(_)));
    assert!(err.to_string().contains("too short"));
}

#[test]
fn parse_bad_magic_returns_error() {
    let mut buf = serialize_fidl(&FidlPlaylist::empty());
    buf[0] = b'X';
    let err = parse_fidl(&buf).unwrap_err();
    assert!(err.to_string().contains("bad magic"));
}

#[test]
fn parse_bad_subtype_returns_error() {
    let mut buf = serialize_fidl(&FidlPlaylist::empty());
    buf[4] = b'X';
    let err = parse_fidl(&buf).unwrap_err();
    assert!(err.to_string().contains("bad subtype"));
}

#[test]
fn parse_bad_version_returns_error() {
    let mut buf = serialize_fidl(&FidlPlaylist::empty());
    buf[6] = 0x02;
    let err = parse_fidl(&buf).unwrap_err();
    assert!(err.to_string().contains("unsupported version"));
}

#[test]
fn round_trip_with_entries() {
    let mut p = FidlPlaylist::empty();
    p.entries.push(FidlEntry { rio_num: 0x4090, sflags: [0, 0, 0] });
    p.entries.push(FidlEntry { rio_num: 0x40a0, sflags: [1, 0, 0] });
    p.entries.push(FidlEntry { rio_num: 0x40b0, sflags: [0xff, 0xee, 0xdd] });
    let buf = serialize_fidl(&p);
    assert_eq!(buf.len(), FIDL_HEADER_SIZE + 3 * FIDL_ENTRY_SIZE);
    let parsed = parse_fidl(&buf).unwrap();
    assert_eq!(parsed, p);
}

#[test]
fn nsongs_field_matches_entries_len() {
    let mut p = FidlPlaylist::empty();
    for i in 0..5 {
        p.entries.push(FidlEntry { rio_num: 0x4000 + i, sflags: [0; 3] });
    }
    let buf = serialize_fidl(&p);
    assert_eq!(read_u24_le(&buf, 9), 5);
}

#[test]
fn parse_handles_truncated_entries() {
    let mut buf = vec![0u8; FIDL_HEADER_SIZE + 2 * FIDL_ENTRY_SIZE];
    buf[0..4].copy_from_slice(b"FIDL");
    buf[4..6].copy_from_slice(b"ST");
    buf[6] = 0x01;
    buf[7] = 0x00;
    buf[8] = 0x00;
    write_u24_le(&mut buf, 9, 5);
    write_u24_le(&mut buf, FIDL_HEADER_SIZE + FIDL_OFF_RIO_NUM, 0x4001);
    write_u24_le(&mut buf, FIDL_HEADER_SIZE + FIDL_ENTRY_SIZE + FIDL_OFF_RIO_NUM, 0x4002);
    let parsed = parse_fidl(&buf).unwrap();
    assert_eq!(parsed.entries.len(), 2);
    assert_eq!(parsed.entries[0].rio_num, 0x4001);
    assert_eq!(parsed.entries[1].rio_num, 0x4002);
}

#[test]
fn append_to_fidl_adds_entry() {
    let mut p = FidlPlaylist::empty();
    p.entries.push(FidlEntry { rio_num: 0x4001, sflags: [0; 3] });
    let original = serialize_fidl(&p);
    let appended = append_to_fidl(&original, 0x4002, [0; 3]).unwrap();
    let parsed = parse_fidl(&appended).unwrap();
    assert_eq!(parsed.entries.len(), 2);
    assert_eq!(parsed.entries[0].rio_num, 0x4001);
    assert_eq!(parsed.entries[1].rio_num, 0x4002);
}

#[test]
fn read_write_u24_le_round_trip() {
    let mut buf = [0u8; 4];
    write_u24_le(&mut buf, 0, 0x123456);
    assert_eq!(buf[0], 0x56);
    assert_eq!(buf[1], 0x34);
    assert_eq!(buf[2], 0x12);
    assert_eq!(read_u24_le(&buf, 0), 0x123456);
}

#[test]
fn u24_handles_max_value() {
    let mut buf = [0u8; 3];
    write_u24_le(&mut buf, 0, 0xFFFFFF);
    assert_eq!(buf, [0xff, 0xff, 0xff]);
    assert_eq!(read_u24_le(&buf, 0), 0xFFFFFF);
}

#[test]
fn u24_truncates_high_byte() {
    let mut buf = [0u8; 4];
    write_u24_le(&mut buf, 0, 0x01020304);
    assert_eq!(buf[0], 0x04);
    assert_eq!(buf[1], 0x03);
    assert_eq!(buf[2], 0x02);
    assert_eq!(buf[3], 0x00);
}

#[test]
fn serialize_clears_bit0_of_old_headers() {
    let mut f = RioFile::empty();
    f.bits = 0x111;
    let buf = serialize_rio_file(&f);
    assert_eq!(read_u32_le(&buf, OFF_BITS), 0x110);
    f.bits = 0x81;
    let buf = serialize_rio_file(&f);
    assert_eq!(read_u32_le(&buf, OFF_BITS), 0x190);
}

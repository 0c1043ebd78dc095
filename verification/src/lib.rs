//! Verified core of a manager for Diamond Rio S-Series USB MP3 players:
//! the USB protocol's binary formats, the checksum, the device session's
//! decisions, text clean-up of song titles, MP3 frame-header parsing, and
//! how the front end reacts to the device task's events.
#![allow(unused_imports)]

pub mod crc32;
pub mod constants;
pub mod strings;
pub mod error;
pub mod bytes;
pub mod packets;
pub mod numfmt;
pub mod fixed_str;
pub mod rio_mem;
pub mod utf8;
pub mod rio_file;
pub mod fidl;
pub mod kana;
pub mod rules;
pub mod chars;
pub mod slug;
pub mod textops;
pub mod strip;
pub mod id3;
pub mod audio;
pub mod player;
pub mod types;
pub mod upload;
pub mod rename;
pub mod playlist;
pub mod device;
pub mod app_state;
pub mod dto;
pub mod sync;
pub mod display;
pub mod ui_state;
pub mod transfer;
pub mod songs_page;

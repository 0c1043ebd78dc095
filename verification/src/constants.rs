//! Constants of the Rio S-Series USB protocol: device ids, endpoints, opcodes,
//! handshake magics, file types and the byte offsets of the on-device records.
//! Multi-byte integers on the wire are little-endian unless stated otherwise.
use vstd::prelude::*;

verus! {

/// USB vendor id of Diamond / DNNA.
pub const VENDOR_DIAMOND: u16 = 0x045a;

/// Product id of the Rio S10.
pub const PRODUCT_RIO_S10: u16 = 0x5005;

/// Product id of the Rio S50.
pub const PRODUCT_RIO_S50: u16 = 0x5006;

/// Product id of the Rio S35S.
pub const PRODUCT_RIO_S35S: u16 = 0x5007;

/// Product id of the Rio S30S.
pub const PRODUCT_RIO_S30S: u16 = 0x5009;

/// Product ids recognised when scanning for devices.
pub const SUPPORTED_PIDS: &'static [u16; 4] = &[0x5005u16, 0x5006, 0x5007, 0x5009];

/// Generation tag of the S-Series.
pub const RIO_GENERATION_S_SERIES: u8 = 4;

/// USB configuration to select.
pub const USB_CONFIG: u8 = 1;

/// USB interface to claim.
pub const USB_INTERFACE: u8 = 0;

/// Bulk IN endpoint.
pub const EP_IN: u8 = 0x81;

/// Bulk OUT endpoint.
pub const EP_OUT: u8 = 0x02;

/// bmRequestType of the vendor control transfers (device to host).
pub const CONTROL_REQUEST_TYPE: u8 = 0xc0;

/// Length of the status buffer of a control transfer.
pub const CONTROL_STATUS_LENGTH: usize = 0x0c;

/// Control transfer timeout in milliseconds.
pub const CONTROL_TIMEOUT_MS: u64 = 15000;

/// Bulk transfer timeout in milliseconds.
pub const BULK_TIMEOUT_MS: u64 = 8000;

/// First status byte of a successful command.
pub const COMMAND_SUCCESS_BYTE: u8 = 0x01;

/// Retries of a failed command.
pub const COMMAND_MAX_RETRIES: u32 = 3;

/// Pause between retries in milliseconds.
pub const COMMAND_RETRY_DELAY_MS: u64 = 50;

/// Size of every handshake packet.
pub const PKT_HANDSHAKE: usize = 64;

/// Size of a file header record.
pub const PKT_HEADER: usize = 2048;

/// Size of a data block.
pub const PKT_BLOCK: usize = 16384;

/// Size of the 2 KB metadata records.
pub const PKT_META: usize = 2048;

/// Handshake / upload finalisation.
pub const OP_UNKNOWN00: u8 = 0x60;

/// Poll device state.
pub const OP_RIO_POLLD: u8 = 0x61;

/// Read the device description.
pub const OP_RIO_DESCP: u8 = 0x62;

/// Query supported file types.
pub const OP_RIO_TYPEQ: u8 = 0x63;

/// Sent once while opening; required.
pub const OP_UNKNOWN65: u8 = 0x65;

/// Read memory unit information.
pub const OP_RIO_MEMRI: u8 = 0x68;

/// Read file information of a slot.
pub const OP_RIO_FILEI: u8 = 0x69;

/// Format a memory unit.
pub const OP_RIO_FORMT: u8 = 0x6a;

/// Firmware update (not used).
pub const OP_RIO_UPDAT: u8 = 0x6b;

/// Upload a new file.
pub const OP_RIO_WRITE: u8 = 0x6c;

/// Download a file.
pub const OP_RIO_READF: u8 = 0x70;

/// Delete a file.
pub const OP_RIO_DELET: u8 = 0x78;

/// Write device preferences.
pub const OP_RIO_PREFS: u8 = 0x79;

/// Read device preferences.
pub const OP_RIO_PREFR: u8 = 0x7a;

/// Set the device clock.
pub const OP_RIO_TIMES: u8 = 0x7b;

/// Group id query (not used).
pub const OP_RIO_GIDS: u8 = 0x7c;

/// Change the metadata of an existing file.
pub const OP_RIO_CHGIN: u8 = 0x85;

/// Song database information (not used).
pub const OP_RIO_NINFO: u8 = 0x87;

/// Overwrite an existing file.
pub const OP_RIO_OVWRT: u8 = 0x88;

/// Lead packet of a data block (magic, 4-byte big-endian CRC, zero padding).
pub const MAGIC_CRIODATA: &'static [u8; 8] = &[0x43u8, 0x52, 0x49, 0x4f, 0x44, 0x41, 0x54, 0x41];

/// Lead packet of a file header (magic, 4 zero bytes, zero padding).
pub const MAGIC_CRIOINFO: &'static [u8; 8] = &[0x43u8, 0x52, 0x49, 0x4f, 0x49, 0x4e, 0x46, 0x4f];

/// Abort packet (magic followed by zeros).
pub const MAGIC_CRIOABRT: &'static [u8; 8] = &[0x43u8, 0x52, 0x49, 0x4f, 0x41, 0x42, 0x52, 0x54];

/// Device ready.
pub const MAGIC_SRIORDY: &'static [u8; 7] = &[0x53u8, 0x52, 0x49, 0x4f, 0x52, 0x44, 0x59];

/// Device acknowledges a data block.
pub const MAGIC_SRIODATA: &'static [u8; 8] = &[0x53u8, 0x52, 0x49, 0x4f, 0x44, 0x41, 0x54, 0x41];

/// Transfer complete.
pub const MAGIC_SRIODONE: &'static [u8; 8] = &[0x53u8, 0x52, 0x49, 0x4f, 0x44, 0x4f, 0x4e, 0x45];

/// File does not exist.
pub const MAGIC_SRIONOFL: &'static [u8; 8] = &[0x53u8, 0x52, 0x49, 0x4f, 0x4e, 0x4f, 0x46, 0x4c];

/// Delete started.
pub const MAGIC_SRIODELS: &'static [u8; 8] = &[0x53u8, 0x52, 0x49, 0x4f, 0x44, 0x45, 0x4c, 0x53];

/// Delete finished.
pub const MAGIC_SRIODELD: &'static [u8; 8] = &[0x53u8, 0x52, 0x49, 0x4f, 0x44, 0x45, 0x4c, 0x44];

/// Format finished.
pub const MAGIC_SRIOFMTD: &'static [u8; 8] = &[0x53u8, 0x52, 0x49, 0x4f, 0x46, 0x4d, 0x54, 0x44];

/// Playlist header magic.
pub const FIDL_MAGIC: &'static [u8; 4] = &[0x46u8, 0x49, 0x44, 0x4c];

/// Playlist subtype.
pub const FIDL_SUBTYPE: &'static [u8; 2] = &[0x53u8, 0x54];

/// File type "MPG3".
pub const TYPE_MP3: u32 = 0x4d504733;

/// File type "WMA ".
pub const TYPE_WMA: u32 = 0x20414d57;

/// File type of WAV files.
pub const TYPE_WAV: u32 = 0x504c4341;

/// Alternative file type of WAV files.
pub const TYPE_WAVE: u32 = 0x45564157;

/// File type of playlists.
pub const TYPE_PLS: u32 = 0x504c5320;

/// Size of the file header record.
pub const RIO_FILE_SIZE: usize = 2048;

/// Offset of the file number.
pub const OFF_FILE_NO: usize = 0x0000;

/// Offset of the flash start offset.
pub const OFF_START: usize = 0x0004;

/// Offset of the file size.
pub const OFF_SIZE: usize = 0x0008;

/// Offset of the duration in seconds.
pub const OFF_TIME: usize = 0x000c;

/// Offset of the modification time.
pub const OFF_MOD_DATE: usize = 0x0010;

/// Offset of the flag bits.
pub const OFF_BITS: usize = 0x0014;

/// Offset of the file type.
pub const OFF_TYPE: usize = 0x0018;

/// Offset of the sample rate.
pub const OFF_SAMPLE_RATE: usize = 0x0024;

/// Offset of the bit rate (kbps shifted left by 7).
pub const OFF_BIT_RATE: usize = 0x0028;

/// Offset of the file name field.
pub const OFF_NAME: usize = 0x00c0;

/// Offset of the title field.
pub const OFF_TITLE: usize = 0x0100;

/// Offset of the artist field.
pub const OFF_ARTIST: usize = 0x0140;

/// Offset of the album field.
pub const OFF_ALBUM: usize = 0x0180;

/// Length of each string field.
pub const RIO_STRING_LEN: usize = 64;

/// Bits that every written header carries (0x111; bit 0 is cleared on write).
pub const BITS_REQUIRED: u32 = 0x111;

/// The file may be downloaded.
pub const BITS_DOWNLOADABLE: u32 = 0x00000080;

/// The device does not show the name.
pub const BITS_HIDE_NAME: u32 = 0x00400000;

/// Size of the memory unit record.
pub const RIO_MEM_SIZE: usize = 256;

/// Offset of the reserved words of the memory record.
pub const OFF_MEM_FOO: usize = 0x0000;

/// Offset of the total size.
pub const OFF_MEM_SIZE: usize = 0x0010;

/// Offset of the used bytes.
pub const OFF_MEM_USED: usize = 0x0014;

/// Offset of the free bytes.
pub const OFF_MEM_FREE: usize = 0x0018;

/// Offset of the bytes reserved by the system.
pub const OFF_MEM_SYSTEM: usize = 0x001c;

/// Offset of the memory unit name.
pub const OFF_MEM_NAME: usize = 0x0040;

/// Offset of the model string.
pub const OFF_MEM_MODEL: usize = 0x00c0;

/// Internal flash.
pub const MEM_UNIT_INTERNAL: u8 = 0;

/// SD/MMC card.
pub const MEM_UNIT_SDCARD: u8 = 1;

/// Number of memory units.
pub const MAX_MEM_UNITS: u8 = 2;

/// Smallest file number (0 marks an empty slot).
pub const FILE_NO_MIN: u32 = 1;

/// Largest file number / number of slots.
pub const FILE_NO_MAX: u32 = 3000;

/// Consecutive empty slots after which a slot scan stops.
pub const LIST_FILES_EMPTY_GAP: u32 = 200;

/// Offset between a playlist entry's number and the internal memory's file number.
pub const RIO_NUM_OFFSET: u32 = 0x4000;

/// Playlist format major version.
pub const FIDL_VERSION_MAJOR: u8 = 0x01;

/// Playlist format minor version.
pub const FIDL_VERSION_MINOR: u8 = 0x00;

/// Size of the playlist header.
pub const FIDL_HEADER_SIZE: usize = 12;

/// Size of one playlist entry.
pub const FIDL_ENTRY_SIZE: usize = 6;

/// Offset of the number within an entry.
pub const FIDL_OFF_RIO_NUM: usize = 0;

/// Offset of the flags within an entry.
pub const FIDL_OFF_SFLAGS: usize = 3;

} // verus!

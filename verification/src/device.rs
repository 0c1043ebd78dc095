//! The decisions of the device session: the USB setup of a command, the
//! check of its status, the blocks and headers of a transfer, the end of a
//! slot scan and the file number found after an upload. The session that
//! performs the transfers drives these.
use vstd::prelude::*;
use vstd::utf8::encode_utf8;
use crate::constants::{
    COMMAND_SUCCESS_BYTE, CONTROL_STATUS_LENGTH, PKT_BLOCK, LIST_FILES_EMPTY_GAP, MAGIC_SRIONOFL,
    COMMAND_MAX_RETRIES,
};
use crate::error::CyrioError;
use crate::packets::{parse_magic, spec_parse_magic, zeros};
use crate::rio_file::{
    RioFile, RioFileView, RioFileUpdates, RioFileUpdatesView, serialize_rio_file, spec_serialize_rio_file,
    overwrite_rio_file_fields, spec_overwrite_rio_file_fields, empty_rio_file_view,
};
use crate::strings::{push_str, push_decimal, push_hex, push_hex2, string_from_chars, dec_digits, hex_digits, hex2};

verus! {

/// Direction of a USB control transfer.
#[derive(Debug, Clone, Copy, PartialEq, Eq, Structural)]
pub enum ControlDirection {
    /// Host to device.
    Out,
    /// Device to host.
    In,
}

/// The fields of a USB control setup packet.
#[derive(Debug, Clone, Copy)]
pub struct ControlSetup {
    /// Request type (the high five bits of bmRequestType).
    pub request_type: u8,
    /// bRequest: the operation code.
    pub request: u8,
    /// wValue.
    pub value: u16,
    /// wIndex.
    pub index: u16,
    /// wLength: the length of the data stage.
    pub length: u16,
}

/// Progress of an upload or download.
#[derive(Debug, Clone, Copy)]
pub struct UploadProgress {
    /// Bytes of the file transferred so far (padding not counted).
    pub transferred: u32,
    /// Bytes of the file in all.
    pub total: u32,
}

/// What a download gives.
#[derive(Debug, Clone)]
pub struct DownloadResult {
    /// The file's header.
    pub header: RioFile,
    /// The header as the device sent it, unknown fields included (to send
    /// back when the file is overwritten).
    pub header_buffer: Box<[u8; 2048]>,
    /// The file's data (as many bytes as the header's size).
    pub data: Vec<u8>,
}

/// The setup of a command: vendor request `opcode` with `value` and
/// `index`, reading the 12-byte status.
pub fn status_setup(opcode: u8, value: u16, index: u16) -> (s: ControlSetup)
    ensures
        s.request_type == 0,
        s.request == opcode,
        s.value == value,
        s.index == index,
        s.length == CONTROL_STATUS_LENGTH,
{
    ControlSetup { request_type: 0, request: opcode, value, index, length: CONTROL_STATUS_LENGTH as u16 }
}

/// The clock-setting command's arguments for Unix time `now`: its high and
/// low 16 bits.
pub fn clock_args(now: u32) -> (r: (u16, u16))
    ensures
        r.0 == now / 0x1_0000,
        r.1 == now % 0x1_0000,
{
    ((now / 0x1_0000) as u16, (now % 0x1_0000) as u16)
}

/// Whether a command's status reports success: its first byte is 0x01.
pub fn status_ok(status: &[u8]) -> (b: bool)
    ensures
        b == (status@.len() > 0 && status@[0] == COMMAND_SUCCESS_BYTE),
{
    status.len() > 0 && status[0] == COMMAND_SUCCESS_BYTE
}

/// The message of a command whose status reports failure.
pub open spec fn status_error_message(opcode: u8, arg1: u16, arg2: u16, status: Seq<u8>) -> Seq<char> {
    "send_command(0x"@ + hex2(opcode) + ", "@ + dec_digits(arg1 as nat) + ", "@ + dec_digits(arg2 as nat)
        + "): status[0]=0x"@ + hex2(if status.len() > 0 { status[0] } else { 0u8 }) + " (expected 0x"@
        + hex2(COMMAND_SUCCESS_BYTE) + ")"@
}

/// The error of a command whose status reports failure.
pub fn command_status_error(opcode: u8, arg1: u16, arg2: u16, status: &[u8]) -> (e: CyrioError)
    ensures
        e matches CyrioError::Device(m) && m@ == status_error_message(opcode, arg1, arg2, status@),
{
    let mut out: Vec<char> = Vec::new();
    push_str(&mut out, "send_command(0x");
    push_hex2(&mut out, opcode);
    push_str(&mut out, ", ");
    push_decimal(&mut out, arg1 as u64);
    push_str(&mut out, ", ");
    push_decimal(&mut out, arg2 as u64);
    push_str(&mut out, "): status[0]=0x");
    let first: u8 = if status.len() > 0 { status[0] } else { 0 };
    push_hex2(&mut out, first);
    push_str(&mut out, " (expected 0x");
    push_hex2(&mut out, COMMAND_SUCCESS_BYTE);
    push_str(&mut out, ")");
    assert(out@ =~= status_error_message(opcode, arg1, arg2, status@));
    CyrioError::Device(string_from_chars(out.as_slice()))
}

/// The number of 16 KiB blocks a download of `file_size` bytes takes.
pub fn download_block_count(file_size: u32) -> (n: u32)
    ensures
        n == (file_size as int + PKT_BLOCK - 1) / (PKT_BLOCK as int),
{
    let size = file_size as u64;
    ((size + 16383) / 16384) as u32
}

/// Whether a handshake packet says the file does not exist (SRIONOFL).
pub fn is_no_file_response(buf: &[u8]) -> (b: bool)
    ensures
        b == (encode_utf8(spec_parse_magic(buf@)) == MAGIC_SRIONOFL@),
{
    let m = parse_magic(buf);
    let bytes = m.as_str().as_bytes();
    if bytes.len() != MAGIC_SRIONOFL.len() {
        return false;
    }
    let mut i: usize = 0;
    while i < bytes.len()
        invariant
            bytes@ == encode_utf8(m@),
            m@ == spec_parse_magic(buf@),
            bytes@.len() == MAGIC_SRIONOFL@.len(),
            i <= bytes@.len(),
            forall|k: int| 0 <= k < i ==> bytes@[k] == MAGIC_SRIONOFL@[k],
        decreases bytes@.len() - i,
    {
        if bytes[i] != MAGIC_SRIONOFL[i] {
            return false;
        }
        i = i + 1;
    }
    assert(bytes@ =~= MAGIC_SRIONOFL@);
    true
}

/// The 16 KiB block of an upload that starts at `off`: the data from there,
/// zero-padded to full length at the end of the file.
pub open spec fn spec_upload_block(data: Seq<u8>, off: int) -> Seq<u8> {
    let end = if off + PKT_BLOCK < data.len() { off + PKT_BLOCK } else { data.len() as int };
    data.subrange(off, end) + zeros((PKT_BLOCK - (end - off)) as nat)
}

/// The upload block at `off` (see `spec_upload_block`).
pub fn upload_block(data: &[u8], off: usize) -> (b: Vec<u8>)
    requires
        off < data@.len(),
    ensures
        b@ == spec_upload_block(data@, off as int),
        b@.len() == PKT_BLOCK,
{
    let end: usize = if data.len() - off > PKT_BLOCK { off + PKT_BLOCK } else { data.len() };
    let mut b: Vec<u8> = Vec::new();
    let mut i: usize = off;
    while i < end
        invariant
            off <= i <= end <= data@.len(),
            end - off <= PKT_BLOCK,
            b@ == data@.subrange(off as int, i as int),
        decreases end - i,
    {
        b.push(data[i]);
        i = i + 1;
        assert(b@ =~= data@.subrange(off as int, i as int));
    }
    let ghost head = b@;
    while b.len() < PKT_BLOCK
        invariant
            head.len() <= b@.len() <= PKT_BLOCK,
            b@ == head + zeros((b@.len() - head.len()) as nat),
        decreases PKT_BLOCK - b@.len(),
    {
        b.push(0);
        assert(b@ =~= head + zeros((b@.len() - head.len()) as nat));
    }
    b
}

/// The updates that put `header`'s fields into an upload's header buffer.
pub open spec fn upload_updates(h: RioFileView) -> RioFileUpdatesView {
    RioFileUpdatesView {
        file_no: Some(h.file_no),
        start: Some(h.start),
        size: Some(h.size),
        time: Some(h.time),
        mod_date: Some(h.mod_date),
        bits: Some(h.bits),
        file_type: Some(h.file_type),
        sample_rate: Some(h.sample_rate),
        bit_rate: Some(h.bit_rate),
        name: Some(h.name),
        title: Some(h.title),
        artist: Some(h.artist),
        album: Some(h.album),
    }
}

/// The updates that an overwrite of file `file_no` writes into the header
/// buffer it got from the device (type, rates, time and start are kept).
pub open spec fn overwrite_updates(file_no: u32, h: RioFileView) -> RioFileUpdatesView {
    RioFileUpdatesView {
        file_no: Some(file_no),
        start: None,
        size: Some(h.size),
        time: None,
        mod_date: Some(h.mod_date),
        bits: Some(h.bits),
        file_type: None,
        sample_rate: None,
        bit_rate: None,
        name: Some(h.name),
        title: Some(h.title),
        artist: Some(h.artist),
        album: Some(h.album),
    }
}

/// The 2048-byte header sent after an upload's data: with an original
/// header buffer, that buffer with all known fields set from `header`
/// (unknown fields kept); without, `header` serialized.
pub fn upload_header_buffer(header: &RioFile, original: Option<&[u8; 2048]>) -> (b: [u8; 2048])
    ensures
        b@ == match original {
            Some(o) => spec_overwrite_rio_file_fields(o@, upload_updates(header@)),
            None => spec_serialize_rio_file(header@),
        },
{
    match original {
        Some(o) => {
            let mut buf: [u8; 2048] = *o;
            let updates = RioFileUpdates {
                file_no: Some(header.file_no),
                start: Some(header.start),
                size: Some(header.size),
                time: Some(header.time),
                mod_date: Some(header.mod_date),
                bits: Some(header.bits),
                file_type: Some(header.file_type),
                sample_rate: Some(header.sample_rate),
                bit_rate: Some(header.bit_rate),
                name: Some(header.name.clone()),
                title: Some(header.title.clone()),
                artist: Some(header.artist.clone()),
                album: Some(header.album.clone()),
            };
            assert(updates@ == upload_updates(header@));
            overwrite_rio_file_fields(&mut buf, &updates);
            buf
        },
        None => serialize_rio_file(header),
    }
}

/// The 2048-byte header sent after an overwrite's data: with an original
/// header buffer, that buffer with file number `file_no` and the header's
/// size, time, flags and texts (see `overwrite_updates`); without,
/// `header` serialized.
pub fn overwrite_header_buffer(file_no: u32, header: &RioFile, original: Option<&[u8; 2048]>) -> (b: [u8; 2048])
    ensures
        b@ == match original {
            Some(o) => spec_overwrite_rio_file_fields(o@, overwrite_updates(file_no, header@)),
            None => spec_serialize_rio_file(header@),
        },
{
    match original {
        Some(o) => {
            let mut buf: [u8; 2048] = *o;
            let updates = RioFileUpdates {
                file_no: Some(file_no),
                start: None,
                size: Some(header.size),
                time: None,
                mod_date: Some(header.mod_date),
                bits: Some(header.bits),
                file_type: None,
                sample_rate: None,
                bit_rate: None,
                name: Some(header.name.clone()),
                title: Some(header.title.clone()),
                artist: Some(header.artist.clone()),
                album: Some(header.album.clone()),
            };
            assert(updates@ == overwrite_updates(file_no, header@));
            overwrite_rio_file_fields(&mut buf, &updates);
            buf
        },
        None => serialize_rio_file(header),
    }
}

/// The header a delete sends: an empty record with the file number.
pub fn delete_request_header(file_no: u32) -> (b: [u8; 2048])
    ensures
        b@ == spec_serialize_rio_file(RioFileView { file_no, ..empty_rio_file_view() }),
{
    let mut h = RioFile::empty();
    h.file_no = file_no;
    serialize_rio_file(&h)
}

/// One step of a slot scan: the run of consecutive empty slots after a slot
/// that was `empty` or not, and whether the scan ends (at 200 in a row).
pub fn empty_gap_step(consecutive: u32, empty: bool) -> (r: (u32, bool))
    requires
        consecutive < LIST_FILES_EMPTY_GAP,
    ensures
        r.0 == (if empty { consecutive + 1 } else { 0 }),
        r.1 == (empty && consecutive + 1 >= LIST_FILES_EMPTY_GAP),
{
    if empty {
        (consecutive + 1, consecutive + 1 >= LIST_FILES_EMPTY_GAP)
    } else {
        (0, false)
    }
}

/// What a slot search does after reading one slot.
#[derive(Debug, Clone, Copy, PartialEq, Eq, Structural)]
pub enum SlotScan {
    /// Read the next slot.
    Next,
    /// This slot holds the file.
    Found,
    /// The search ends without the file.
    Missing,
}

/// One step of the search for file `target` that stops at the first empty
/// slot (file number 0): found, missing, or on to the next slot.
pub fn first_empty_scan_step(slot_file_no: u32, target: u32) -> (r: SlotScan)
    ensures
        r == (if slot_file_no == 0 {
            SlotScan::Missing
        } else if slot_file_no == target {
            SlotScan::Found
        } else {
            SlotScan::Next
        }),
{
    if slot_file_no == 0 {
        SlotScan::Missing
    } else if slot_file_no == target {
        SlotScan::Found
    } else {
        SlotScan::Next
    }
}

/// One step of the search for file `target` that skips empty slots and
/// ends after 200 of them in a row (see `empty_gap_step`): the new run of
/// empty slots, and found, missing, or on to the next slot.
pub fn gap_scan_step(consecutive: u32, slot_file_no: u32, target: u32) -> (r: (u32, SlotScan))
    requires
        consecutive < LIST_FILES_EMPTY_GAP,
    ensures
        r.0 == (if slot_file_no == 0 { consecutive + 1 } else { 0 }),
        r.1 == (if slot_file_no == 0 {
            if consecutive + 1 >= LIST_FILES_EMPTY_GAP { SlotScan::Missing } else { SlotScan::Next }
        } else if slot_file_no == target {
            SlotScan::Found
        } else {
            SlotScan::Next
        }),
{
    let (next, stop) = empty_gap_step(consecutive, slot_file_no == 0);
    if slot_file_no == 0 {
        (next, if stop { SlotScan::Missing } else { SlotScan::Next })
    } else if slot_file_no == target {
        (next, SlotScan::Found)
    } else {
        (next, SlotScan::Next)
    }
}

/// What came of the last step of a rewrite (overwrite, with a fresh upload
/// as the fallback).
#[derive(Debug)]
pub enum RewriteEvent {
    /// The overwrite ended.
    Overwritten(Result<(), CyrioError>),
    /// The header was read back: whether it holds the new title.
    Verified(Result<bool, CyrioError>),
    /// The fallback upload ended (the new file number).
    Uploaded(Result<u32, CyrioError>),
    /// The old file's delete ended.
    Deleted(Result<(), CyrioError>),
}

/// What a rewrite does next.
#[derive(Debug)]
pub enum RewriteAction {
    /// Read the header back to check the title.
    VerifyTitle,
    /// Upload the file afresh.
    Upload,
    /// Delete the old file.
    DeleteOld,
    /// The rewrite ends with this result.
    Finish(Result<(), CyrioError>),
}

/// The rewrite of a song's header: an overwrite whose title reads back is
/// done; otherwise (the overwrite or the check failed, or the title did not
/// change) the song is uploaded afresh and the old file deleted; a failed
/// upload ends the rewrite with its error, and the delete's result is the
/// rewrite's.
pub fn rewrite_step(ev: RewriteEvent) -> (a: RewriteAction)
    ensures
        match ev {
            RewriteEvent::Overwritten(r) => a == if r is Ok { RewriteAction::VerifyTitle } else { RewriteAction::Upload },
            RewriteEvent::Verified(r) => a == if r == Ok::<bool, CyrioError>(true) {
                RewriteAction::Finish(Ok(()))
            } else {
                RewriteAction::Upload
            },
            RewriteEvent::Uploaded(r) => match r {
                Ok(_) => a == RewriteAction::DeleteOld,
                Err(e) => a == RewriteAction::Finish(Err(e)),
            },
            RewriteEvent::Deleted(r) => a == RewriteAction::Finish(r),
        },
{
    match ev {
        RewriteEvent::Overwritten(r) => match r {
            Ok(()) => RewriteAction::VerifyTitle,
            Err(_) => RewriteAction::Upload,
        },
        RewriteEvent::Verified(r) => match r {
            Ok(true) => RewriteAction::Finish(Ok(())),
            _ => RewriteAction::Upload,
        },
        RewriteEvent::Uploaded(r) => match r {
            Ok(_) => RewriteAction::DeleteOld,
            Err(e) => RewriteAction::Finish(Err(e)),
        },
        RewriteEvent::Deleted(r) => RewriteAction::Finish(r),
    }
}

/// Size and type agree with the uploaded header.
pub open spec fn loose_match(f: RioFile, h: RioFile) -> bool {
    f.size == h.size && f.file_type == h.file_type
}

/// Size, type and modification time agree with the uploaded header.
pub open spec fn exact_match(f: RioFile, h: RioFile) -> bool {
    loose_match(f, h) && f.mod_date == h.mod_date
}

/// The matching after the records `files` (empty slots, file number 0,
/// skipped): the largest file number of an exact match, and the largest of
/// a loose match seen while there was no exact one yet.
pub open spec fn match_scan(files: Seq<RioFile>, h: RioFile) -> (u32, u32)
    decreases files.len(),
{
    if files.len() == 0 {
        (0, 0)
    } else {
        let (e0, f0) = match_scan(files.drop_last(), h);
        let f = files.last();
        if f.file_no == 0 {
            (e0, f0)
        } else {
            let e1 = if exact_match(f, h) && f.file_no > e0 { f.file_no } else { e0 };
            let f1 = if loose_match(f, h) && e1 == 0 && f.file_no > f0 { f.file_no } else { f0 };
            (e1, f1)
        }
    }
}

/// The records that are not empty slots.
pub open spec fn occupied(files: Seq<RioFile>) -> Seq<RioFile>
    decreases files.len(),
{
    if files.len() == 0 {
        Seq::empty()
    } else if files.last().file_no != 0 {
        occupied(files.drop_last()).push(files.last())
    } else {
        occupied(files.drop_last())
    }
}

/// The part of the message that describes the first file scanned.
pub open spec fn first_file_info(files: Seq<RioFile>) -> Seq<char> {
    if occupied(files).len() == 0 {
        "no files on device"@
    } else {
        let f = occupied(files)[0];
        "first_file: file_no="@ + dec_digits(f.file_no as nat) + " size="@ + dec_digits(f.size as nat)
            + " type=0x"@ + hex_digits(f.file_type as nat) + " modDate="@ + dec_digits(f.mod_date as nat)
    }
}

/// The message when no scanned file matches the upload.
pub open spec fn not_found_message(mem_unit: u8, files: Seq<RioFile>, h: RioFile) -> Seq<char> {
    "上传后未找到文件：memUnit="@ + dec_digits(mem_unit as nat) + " 已扫描 "@ + dec_digits(occupied(files).len())
        + " 个文件，期望 size="@ + dec_digits(h.size as nat) + " type=0x"@ + hex_digits(h.file_type as nat)
        + " modDate="@ + dec_digits(h.mod_date as nat) + "。"@ + first_file_info(files)
}

fn push_first_file_info(out: &mut Vec<char>, f: &RioFile)
    ensures
        final(out)@ == old(out)@ + "first_file: file_no="@ + dec_digits(f.file_no as nat) + " size="@
            + dec_digits(f.size as nat) + " type=0x"@ + hex_digits(f.file_type as nat) + " modDate="@
            + dec_digits(f.mod_date as nat),
{
    push_str(out, "first_file: file_no=");
    push_decimal(out, f.file_no as u64);
    push_str(out, " size=");
    push_decimal(out, f.size as u64);
    push_str(out, " type=0x");
    push_hex(out, f.file_type as u64);
    push_str(out, " modDate=");
    push_decimal(out, f.mod_date as u64);
}

/// The file number the device gave an upload, from the slot records read
/// after it, in slot order: the largest file number whose size, type and
/// modification time match `header`; failing that, the largest whose size
/// and type match (the device may replace the time). A `Device` error when
/// none matches.
pub fn pick_uploaded_file_no(mem_unit: u8, files: &[RioFile], header: &RioFile) -> (r: Result<u32, CyrioError>)
    ensures
        ({
            let (e, f) = match_scan(files@, *header);
            let best = if e > 0 { e } else { f };
            &&& best > 0 ==> r == Ok::<u32, CyrioError>(best)
            &&& best == 0 ==> (r matches Err(CyrioError::Device(m)) && m@ == not_found_message(mem_unit, files@, *header))
        }),
{
    let mut exact_best: u32 = 0;
    let mut fuzzy_best: u32 = 0;
    let mut scanned: u64 = 0;
    let mut first: Option<usize> = None;
    let mut i: usize = 0;
    while i < files.len()
        invariant
            i <= files@.len(),
            (exact_best, fuzzy_best) == match_scan(files@.take(i as int), *header),
            scanned == occupied(files@.take(i as int)).len(),
            scanned <= i,
            match first {
                Some(j) => j < i && files@[j as int].file_no != 0 && occupied(files@.take(i as int)).len() > 0
                    && occupied(files@.take(i as int))[0] == files@[j as int],
                None => occupied(files@.take(i as int)).len() == 0,
            },
        decreases files@.len() - i,
    {
        let ghost prev = files@.take(i as int);
        assert(files@.take(i + 1).drop_last() =~= prev);
        assert(files@.take(i + 1).last() == files@[i as int]);
        let f = &files[i];
        if f.file_no != 0 {
            scanned = scanned + 1;
            if first.is_none() {
                first = Some(i);
            }
            let loose = f.size == header.size && f.file_type == header.file_type;
            if loose && f.mod_date == header.mod_date && f.file_no > exact_best {
                exact_best = f.file_no;
            }
            if loose && exact_best == 0 && f.file_no > fuzzy_best {
                fuzzy_best = f.file_no;
            }
        }
        i = i + 1;
    }
    assert(files@.take(files@.len() as int) =~= files@);
    let best = if exact_best > 0 { exact_best } else { fuzzy_best };
    if best > 0 {
        return Ok(best);
    }
    let mut out: Vec<char> = Vec::new();
    push_str(&mut out, "上传后未找到文件：memUnit=");
    push_decimal(&mut out, mem_unit as u64);
    push_str(&mut out, " 已扫描 ");
    push_decimal(&mut out, scanned);
    push_str(&mut out, " 个文件，期望 size=");
    push_decimal(&mut out, header.size as u64);
    push_str(&mut out, " type=0x");
    push_hex(&mut out, header.file_type as u64);
    push_str(&mut out, " modDate=");
    push_decimal(&mut out, header.mod_date as u64);
    push_str(&mut out, "。");
    let ghost before = out@;
    match first {
        Some(j) => {
            push_first_file_info(&mut out, &files[j]);
        },
        None => {
            push_str(&mut out, "no files on device");
        },
    }
    assert(out@ =~= not_found_message(mem_unit, files@, *header));
    Err(CyrioError::Device(string_from_chars(out.as_slice())))
}

/// A scanned record (not an empty slot) matching the upload exactly.
pub open spec fn exact_at(files: Seq<RioFile>, h: RioFile, k: int) -> bool {
    0 <= k < files.len() && files[k].file_no != 0 && exact_match(files[k], h)
}

proof fn lemma_match_scan_exact(files: Seq<RioFile>, h: RioFile)
    ensures
        match_scan(files, h).0 != 0 ==> exists|k: int| #[trigger] exact_at(files, h, k) && files[k].file_no == match_scan(files, h).0,
        forall|k: int| #[trigger] exact_at(files, h, k) ==> files[k].file_no <= match_scan(files, h).0,
    decreases files.len(),
{
    if files.len() > 0 {
        let p = files.drop_last();
        lemma_match_scan_exact(p, h);
        let e0 = match_scan(p, h).0;
        let e1 = match_scan(files, h).0;
        assert forall|k: int| #[trigger] exact_at(files, h, k) implies files[k].file_no <= e1 by {
            if k < files.len() - 1 {
                assert(exact_at(p, h, k));
            }
        }
        if e1 != 0 {
            if e1 == e0 {
                let k = choose|k: int| #[trigger] exact_at(p, h, k) && p[k].file_no == e0;
                assert(exact_at(files, h, k));
            } else {
                assert(exact_at(files, h, files.len() - 1));
            }
        }
    }
}

/// After an upload, when some scanned record matches the header exactly
/// (size, type and modification time), the file number found is the
/// largest such record's, whatever loose matches there are.
pub proof fn law_upload_pick_prefers_exact(files: Seq<RioFile>, h: RioFile, k: int)
    requires
        exact_at(files, h, k),
    ensures
        match_scan(files, h).0 > 0,
        exists|j: int| #[trigger] exact_at(files, h, j) && files[j].file_no == match_scan(files, h).0,
        forall|j: int| #[trigger] exact_at(files, h, j) ==> files[j].file_no <= match_scan(files, h).0,
{
    lemma_match_scan_exact(files, h);
}

/// A scanned record (not an empty slot) matching the upload's size and type.
pub open spec fn loose_at(files: Seq<RioFile>, h: RioFile, k: int) -> bool {
    0 <= k < files.len() && files[k].file_no != 0 && loose_match(files[k], h)
}

proof fn lemma_match_scan_loose(files: Seq<RioFile>, h: RioFile)
    requires
        forall|k: int| !#[trigger] exact_at(files, h, k),
    ensures
        match_scan(files, h).0 == 0,
        match_scan(files, h).1 != 0 ==> exists|k: int| #[trigger] loose_at(files, h, k) && files[k].file_no == match_scan(files, h).1,
        forall|k: int| #[trigger] loose_at(files, h, k) ==> files[k].file_no <= match_scan(files, h).1,
    decreases files.len(),
{
    if files.len() > 0 {
        let p = files.drop_last();
        assert forall|k: int| !#[trigger] exact_at(p, h, k) by {
            if exact_at(p, h, k) {
                assert(exact_at(files, h, k));
            }
        }
        lemma_match_scan_loose(p, h);
        assert(!exact_at(files, h, files.len() - 1));
        let f0 = match_scan(p, h).1;
        let f1 = match_scan(files, h).1;
        assert forall|k: int| #[trigger] loose_at(files, h, k) implies files[k].file_no <= f1 by {
            if k < files.len() - 1 {
                assert(loose_at(p, h, k));
            }
        }
        if f1 != 0 {
            if f1 == f0 {
                let k = choose|k: int| #[trigger] loose_at(p, h, k) && p[k].file_no == f0;
                assert(loose_at(files, h, k));
            } else {
                assert(loose_at(files, h, files.len() - 1));
            }
        }
    }
}

/// When no scanned record matches the upload exactly, the file number found
/// is the largest among the records of the same size and type (0, and so
/// an error, when there is none).
pub proof fn law_upload_pick_falls_back_to_largest(files: Seq<RioFile>, h: RioFile)
    requires
        forall|k: int| !#[trigger] exact_at(files, h, k),
    ensures
        match_scan(files, h).0 == 0,
        match_scan(files, h).1 != 0 ==> exists|j: int| #[trigger] loose_at(files, h, j) && files[j].file_no == match_scan(files, h).1,
        forall|j: int| #[trigger] loose_at(files, h, j) ==> files[j].file_no <= match_scan(files, h).1,
{
    lemma_match_scan_loose(files, h);
}

/// The first `k` upload blocks, one after the other.
pub open spec fn upload_stream(data: Seq<u8>, k: nat) -> Seq<u8>
    decreases k,
{
    if k == 0 {
        Seq::empty()
    } else {
        upload_stream(data, (k - 1) as nat) + spec_upload_block(data, (k - 1) * PKT_BLOCK)
    }
}

proof fn lemma_full_blocks(data: Seq<u8>, k: nat)
    requires
        k * PKT_BLOCK <= data.len(),
    ensures
        upload_stream(data, k) == data.take(k * PKT_BLOCK),
    decreases k,
{
    if k > 0 {
        let off = (k - 1) * PKT_BLOCK;
        lemma_full_blocks(data, (k - 1) as nat);
        assert(spec_upload_block(data, off) =~= data.subrange(off, off + PKT_BLOCK));
        assert(data.take(off) + data.subrange(off, off + PKT_BLOCK) =~= data.take(k * PKT_BLOCK));
    }
}

/// The blocks an upload sends, as many as a download of that size takes,
/// carry exactly the data followed by zero padding up to a whole block.
pub proof fn law_upload_blocks_carry_data(data: Seq<u8>)
    requires
        data.len() <= u32::MAX,
    ensures
        ({
            let n = ((data.len() + PKT_BLOCK - 1) / (PKT_BLOCK as int)) as nat;
            upload_stream(data, n) == data + zeros((n * PKT_BLOCK - data.len()) as nat)
        }),
{
    let len = data.len() as int;
    let n = ((len + PKT_BLOCK - 1) / (PKT_BLOCK as int)) as nat;
    if len == 0 {
        assert(n == 0);
        assert(data + zeros(0) =~= data);
    } else {
        assert(n >= 1 && (n - 1) * PKT_BLOCK < len && len <= n * PKT_BLOCK) by (nonlinear_arith)
            requires
                len > 0,
                n == (len + 16383) / 16384,
                PKT_BLOCK == 16384,
        {
        }
        let off = (n - 1) * PKT_BLOCK;
        lemma_full_blocks(data, (n - 1) as nat);
        assert(spec_upload_block(data, off) == data.subrange(off, len) + zeros((PKT_BLOCK - (len - off)) as nat));
        assert(data.take(off) + (data.subrange(off, len) + zeros((PKT_BLOCK - (len - off)) as nat))
            =~= data + zeros((n * PKT_BLOCK - len) as nat));
    }
}

/// What the session does after one attempt of a command.
#[derive(Debug)]
pub enum CommandStep {
    /// The status reports success: the command is done.
    Done(Vec<u8>),
    /// The attempt failed; wait and try again.
    Retry(CyrioError),
    /// The last attempt failed; wait, then give up with this error.
    Fail(CyrioError),
}

/// The decision after attempt `attempt` (from 0) of a command: done when
/// the status reports success; otherwise the error (the transport's, or the
/// status error) is retried until `COMMAND_MAX_RETRIES` retries were made.
pub fn command_step(opcode: u8, arg1: u16, arg2: u16, attempt: u32, outcome: Result<Vec<u8>, CyrioError>) -> (r: CommandStep)
    ensures
        match outcome {
            Ok(st) => if st@.len() > 0 && st@[0] == COMMAND_SUCCESS_BYTE {
                r == CommandStep::Done(st)
            } else if attempt < COMMAND_MAX_RETRIES {
                r matches CommandStep::Retry(CyrioError::Device(m)) && m@ == status_error_message(opcode, arg1, arg2, st@)
            } else {
                r matches CommandStep::Fail(CyrioError::Device(m)) && m@ == status_error_message(opcode, arg1, arg2, st@)
            },
            Err(e) => r == if attempt < COMMAND_MAX_RETRIES { CommandStep::Retry(e) } else { CommandStep::Fail(e) },
        },
{
    let err = match outcome {
        Ok(st) => {
            if status_ok(st.as_slice()) {
                return CommandStep::Done(st);
            }
            command_status_error(opcode, arg1, arg2, st.as_slice())
        },
        Err(e) => e,
    };
    if attempt < COMMAND_MAX_RETRIES {
        CommandStep::Retry(err)
    } else {
        CommandStep::Fail(err)
    }
}

/// The message of a download that ended before the file's size was reached.
pub open spec fn incomplete_message(got: nat, total: nat) -> Seq<char> {
    "download_file: incomplete download ("@ + dec_digits(got) + " of "@ + dec_digits(total) + " bytes)"@
}

/// Bytes counted as sent after the upload block at `off` of `len` bytes of
/// data (a whole block, or what is left; saturating).
pub fn block_sent(sent: u32, len: usize, off: usize) -> (r: u32)
    requires
        off <= len,
    ensures
        ({
            let chunk = if len - off < PKT_BLOCK { len - off } else { PKT_BLOCK as int };
            r == (if sent + chunk > u32::MAX { u32::MAX as int } else { sent + chunk })
        }),
{
    let chunk: usize = if len - off < PKT_BLOCK { len - off } else { PKT_BLOCK };
    if chunk as u64 > (u32::MAX - sent) as u64 {
        u32::MAX
    } else {
        sent + chunk as u32
    }
}

} // verus!

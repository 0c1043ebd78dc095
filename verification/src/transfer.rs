//! The packet sequences of an upload, an overwrite, a download and a delete, as a
//! state machine: the session performs each action and reports what came
//! of it, and the next step says what to send or receive, which magic to
//! expect, and when to give up. Whatever fails, the transfer is aborted
//! (CRIOABRT sent) before the error is passed on.
use vstd::prelude::*;
use vstd::slice::slice_to_vec;
use crate::constants::{
    OP_RIO_WRITE, OP_RIO_OVWRT, OP_RIO_READF, OP_RIO_DELET, OP_UNKNOWN00, PKT_BLOCK, PKT_HANDSHAKE, MAGIC_SRIORDY,
    MAGIC_SRIODATA, MAGIC_SRIODONE, MAGIC_SRIONOFL, MAGIC_SRIODELS, MAGIC_SRIODELD,
};
use crate::device::{
    upload_block, spec_upload_block, block_sent, download_block_count, is_no_file_response, incomplete_message,
    delete_request_header,
};
use crate::error::{CyrioError, error_message};
use crate::packets::{
    build_crio_data, build_crio_info, spec_crio_data, spec_crio_info, expect_magic, magic_matches, is_mismatch,
    parse_magic, spec_parse_magic, zeros,
};
use crate::rio_file::{RioFile, RioFileView, empty_rio_file_view, parse_rio_file, spec_parse_rio_file, spec_serialize_rio_file};
use crate::strings::{push_str, push_decimal, push_chars, str_chars, string_from_chars, dec_digits};
use vstd::utf8::encode_utf8;

verus! {

/// Which transfer runs.
#[derive(Debug, Clone, Copy, PartialEq, Eq, Structural)]
pub enum TransferKind {
    /// Upload of a new file.
    Upload,
    /// Overwrite of file `file_no`.
    Overwrite { file_no: u32 },
    /// Download of file `file_no`.
    Download { file_no: u32 },
    /// Delete of file `file_no`.
    Delete { file_no: u32 },
}

/// Where a transfer stands: what it waits for.
#[derive(Debug, Clone, Copy, PartialEq, Eq, Structural)]
pub enum Phase {
    /// The write (or overwrite) command was sent.
    AwaitCommand,
    /// Waiting for SRIORDY.
    AwaitRdy,
    /// Waiting for SRIODATA before the first block.
    AwaitReady,
    /// The CRIODATA announcing the block at `off` was sent.
    SentBlockHead,
    /// The block at `off` was sent.
    SentBlock,
    /// Waiting for the SRIODATA acknowledging the block at `off`.
    AwaitAck,
    /// The CRIOINFO packet was sent.
    SentInfo,
    /// The file header was sent.
    SentHeader,
    /// Waiting for the device's answer to the header.
    AwaitFinal,
    /// The closing command was sent.
    AwaitUnlock,
    /// Waiting for the file number of the uploaded file.
    AwaitFileNo,
    /// Waiting for the header of the file to download.
    AwaitSlot,
    /// The read command was sent.
    DlAwaitCommand,
    /// Waiting for the device to take the header.
    DlAwaitReady,
    /// The header was sent.
    DlSentHeader,
    /// Waiting for the answer to the header (SRIONOFL: no such file).
    DlAwaitFileResp,
    /// A block was requested.
    DlSentRequest,
    /// Waiting for the answer to a block request (SRIODONE: the end).
    DlAwaitBlockResp,
    /// Waiting for a block.
    DlAwaitBlock,
    /// The closing empty CRIODATA was sent.
    DlSentTrailer,
    /// The delete command was sent.
    DelAwaitCommand,
    /// Waiting for SRIODELS.
    DelAwaitStart,
    /// The header naming the file to delete was sent.
    DelSentHeader,
    /// Waiting for SRIODELD.
    DelAwaitDone,
    /// The transfer succeeded.
    Finished,
    /// The transfer was aborted.
    Aborted,
}

/// A transfer in progress.
#[derive(Debug)]
pub struct TransferState {
    /// The transfer.
    pub kind: TransferKind,
    /// The memory unit.
    pub mem_unit: u8,
    /// Where it stands.
    pub phase: Phase,
    /// An upload's data; a download's data received so far.
    pub data: Vec<u8>,
    /// The 2048-byte header to send (upload, overwrite), or the one found
    /// on the device (download).
    pub header_buf: Vec<u8>,
    /// The header of the file downloaded.
    pub header: RioFile,
    /// Upload: offset of the current block. Download: blocks received.
    pub off: usize,
    /// Download: number of blocks to request.
    pub blocks: u32,
    /// Bytes transferred (saturating), for progress.
    pub sent: u32,
    /// Download: whether the device said the file is complete.
    pub complete: bool,
}

/// What the session does next.
#[derive(Debug)]
pub enum TransferAction {
    /// Send this vendor command (with its status check and retries).
    Command { opcode: u8, arg1: u16, arg2: u16 },
    /// Send this packet.
    Send(Vec<u8>),
    /// Receive a packet of this many bytes.
    Receive(usize),
    /// Find the 2048-byte header of the file to download.
    FindSlot,
    /// Find the file number the device gave the uploaded file.
    FindFileNo,
    /// Send the CRIOABRT packet, then fail with this error.
    AbortThenFail(CyrioError),
    /// The transfer succeeded (an upload's file number; otherwise 0 for an
    /// overwrite and the file size for a download).
    Done(u32),
}

/// What came of the last action.
#[derive(Debug)]
pub enum TransferEvent {
    /// The packet was sent.
    Sent,
    /// This packet was received.
    Received(Vec<u8>),
    /// The command succeeded, or the file number was found (its value).
    Completed(u32),
    /// The header search ended (the header, if the file was found).
    Found(Option<Vec<u8>>),
    /// The action failed.
    Failed(CyrioError),
}

/// "upload" or "overwrite", the context of an upload's error messages.
pub open spec fn context_of(k: TransferKind) -> Seq<char> {
    if k is Overwrite { "overwrite"@ } else { "upload"@ }
}

/// The message of a block that was not acknowledged.
pub open spec fn block_error(k: TransferKind, off: usize, inner: CyrioError) -> Seq<char> {
    context_of(k) + " block at offset "@ + dec_digits(off as nat) + ": "@ + error_message(inner)
}

/// The message of a file whose header was not found.
pub open spec fn slot_missing_message(file_no: u32, mem_unit: u8) -> Seq<char> {
    "download_file: file "@ + dec_digits(file_no as nat) + " not found on memUnit "@ + dec_digits(mem_unit as nat)
        + " (slot iteration hit empty slot)"@
}

/// The message of a file the device says does not exist.
pub open spec fn no_file_message(file_no: u32, mem_unit: u8) -> Seq<char> {
    "download_file: file "@ + dec_digits(file_no as nat) + " not found on memUnit "@ + dec_digits(mem_unit as nat)
        + " (SRIONOFL)"@
}

/// The message of an event that does not fit the transfer's state.
pub open spec fn unexpected_message() -> Seq<char> {
    "transfer: unexpected event"@
}

/// The file number of a download or overwrite.
pub open spec fn file_no_of(k: TransferKind) -> u32 {
    match k {
        TransferKind::Upload => 0,
        TransferKind::Overwrite { file_no } => file_no,
        TransferKind::Download { file_no } => file_no,
        TransferKind::Delete { file_no } => file_no,
    }
}

/// `a` sends the CRIODATA announcing `block`.
pub open spec fn sends_crio_data(a: TransferAction, block: Seq<u8>) -> bool {
    a matches TransferAction::Send(p) && p@ == spec_crio_data(block)
}

/// After the data from `off` (an upload): announce the block there, or, at
/// the end of the data, send CRIOINFO.
pub open spec fn next_block(st: TransferState, off: usize, sent: u32, r: TransferState, a: TransferAction) -> bool {
    if off < st.data@.len() {
        &&& sends_crio_data(a, spec_upload_block(st.data@, off as int))
        &&& r == TransferState { phase: Phase::SentBlockHead, off, sent, ..st }
    } else {
        &&& a matches TransferAction::Send(p) && p@ == spec_crio_info()
        &&& r == TransferState { phase: Phase::SentInfo, off, sent, ..st }
    }
}

/// The end of a download once its last block is in: the data cut to the
/// file's size and done, or aborted when less arrived.
pub open spec fn download_end(st: TransferState, r: TransferState, a: TransferAction) -> bool {
    if st.data@.len() >= st.header.size {
        &&& a == TransferAction::Done(st.header.size)
        &&& r.data@ == st.data@.take(st.header.size as int)
        &&& r == TransferState { phase: Phase::Finished, data: r.data, ..st }
    } else {
        &&& a matches TransferAction::AbortThenFail(CyrioError::Device(m))
            && m@ == incomplete_message(st.data@.len(), st.header.size as nat)
        &&& r == TransferState { phase: Phase::Aborted, ..st }
    }
}

/// Closing a download: unless the device said it was complete, an empty
/// CRIODATA is sent first.
pub open spec fn download_close(st: TransferState, r: TransferState, a: TransferAction) -> bool {
    if !st.complete {
        &&& sends_crio_data(a, zeros(PKT_BLOCK as nat))
        &&& r == TransferState { phase: Phase::DlSentTrailer, ..st }
    } else {
        download_end(st, r, a)
    }
}

/// `r` is `st` aborted with the error `e`.
pub open spec fn aborts(st: TransferState, r: TransferState, a: TransferAction) -> bool {
    &&& a matches TransferAction::AbortThenFail(_)
    &&& r == TransferState { phase: Phase::Aborted, ..st }
}

/// `r` is `st` aborted because the event does not fit its state.
pub open spec fn unexpected(st: TransferState, r: TransferState, a: TransferAction) -> bool {
    aborts(st, r, a) && (a matches TransferAction::AbortThenFail(CyrioError::Other(m)) && m@ == unexpected_message())
}

/// One step of a transfer: from `st`, on event `ev`, to `r` with action `a`.
pub open spec fn transfer_steps(st: TransferState, ev: TransferEvent, r: TransferState, a: TransferAction) -> bool {
    match ev {
        TransferEvent::Failed(e) => a == TransferAction::AbortThenFail(e) && r == TransferState { phase: Phase::Aborted, ..st },
        _ => match (st.phase, ev) {
            (Phase::AwaitCommand, TransferEvent::Completed(_)) => {
                a == TransferAction::Receive(PKT_HANDSHAKE) && r == TransferState { phase: Phase::AwaitRdy, ..st }
            },
            (Phase::AwaitRdy, TransferEvent::Received(b)) => if magic_matches(b@, MAGIC_SRIORDY@) {
                a == TransferAction::Receive(PKT_HANDSHAKE) && r == TransferState { phase: Phase::AwaitReady, ..st }
            } else {
                aborts(st, r, a) && (a matches TransferAction::AbortThenFail(e)
                    && is_mismatch(e, b@, MAGIC_SRIORDY@, context_of(st.kind) + " init"@))
            },
            (Phase::AwaitReady, TransferEvent::Received(b)) => if magic_matches(b@, MAGIC_SRIODATA@) {
                next_block(st, 0, st.sent, r, a)
            } else {
                aborts(st, r, a) && (a matches TransferAction::AbortThenFail(e)
                    && is_mismatch(e, b@, MAGIC_SRIODATA@, context_of(st.kind) + " ready"@))
            },
            (Phase::SentBlockHead, TransferEvent::Sent) => if st.off < st.data@.len() {
                &&& a matches TransferAction::Send(p) && p@ == spec_upload_block(st.data@, st.off as int)
                &&& r == TransferState { phase: Phase::SentBlock, ..st }
            } else {
                unexpected(st, r, a)
            },
            (Phase::SentBlock, TransferEvent::Sent) => {
                a == TransferAction::Receive(PKT_HANDSHAKE) && r == TransferState { phase: Phase::AwaitAck, ..st }
            },
            (Phase::AwaitAck, TransferEvent::Received(b)) => if st.off > st.data@.len() {
                unexpected(st, r, a)
            } else if magic_matches(b@, MAGIC_SRIODATA@) {
                let len = st.data@.len();
                let chunk = if len - st.off < PKT_BLOCK { len - st.off } else { PKT_BLOCK as int };
                let sent = if st.sent + chunk > u32::MAX { u32::MAX } else { (st.sent + chunk) as u32 };
                let next = if len - st.off > PKT_BLOCK { (st.off + PKT_BLOCK) as usize } else { len as usize };
                next_block(st, next, sent, r, a)
            } else {
                aborts(st, r, a) && (a matches TransferAction::AbortThenFail(CyrioError::Device(m))
                    && exists|inner: CyrioError| is_mismatch(inner, b@, MAGIC_SRIODATA@, context_of(st.kind) + " block"@)
                        && m@ == block_error(st.kind, st.off, inner))
            },
            (Phase::SentInfo, TransferEvent::Sent) => {
                (a matches TransferAction::Send(p) && p@ == st.header_buf@) && r == TransferState { phase: Phase::SentHeader, ..st }
            },
            (Phase::SentHeader, TransferEvent::Sent) => {
                a == TransferAction::Receive(PKT_HANDSHAKE) && r == TransferState { phase: Phase::AwaitFinal, ..st }
            },
            (Phase::AwaitFinal, TransferEvent::Received(_)) => {
                a == TransferAction::Command { opcode: OP_UNKNOWN00, arg1: 0, arg2: 0 }
                    && r == TransferState { phase: Phase::AwaitUnlock, ..st }
            },
            (Phase::AwaitUnlock, TransferEvent::Completed(_)) => if st.kind is Upload {
                a == TransferAction::FindFileNo && r == TransferState { phase: Phase::AwaitFileNo, ..st }
            } else {
                a == TransferAction::Done(0) && r == TransferState { phase: Phase::Finished, ..st }
            },
            (Phase::AwaitFileNo, TransferEvent::Completed(n)) => {
                a == TransferAction::Done(n) && r == TransferState { phase: Phase::Finished, ..st }
            },
            (Phase::AwaitSlot, TransferEvent::Found(None)) => {
                aborts(st, r, a) && (a matches TransferAction::AbortThenFail(CyrioError::Device(m))
                    && m@ == slot_missing_message(file_no_of(st.kind), st.mem_unit))
            },
            (Phase::AwaitSlot, TransferEvent::Found(Some(buf))) => if buf@.len() >= 2048 {
                &&& a == TransferAction::Command { opcode: OP_RIO_READF, arg1: st.mem_unit as u16, arg2: 0 }
                &&& r.header@ == spec_parse_rio_file(buf@)
                &&& r == TransferState { phase: Phase::DlAwaitCommand, header_buf: buf, header: r.header, ..st }
            } else {
                aborts(st, r, a) && (a matches TransferAction::AbortThenFail(CyrioError::Parse(_)))
            },
            (Phase::DlAwaitCommand, TransferEvent::Completed(_)) => {
                a == TransferAction::Receive(PKT_HANDSHAKE) && r == TransferState { phase: Phase::DlAwaitReady, ..st }
            },
            (Phase::DlAwaitReady, TransferEvent::Received(_)) => {
                (a matches TransferAction::Send(p) && p@ == st.header_buf@) && r == TransferState { phase: Phase::DlSentHeader, ..st }
            },
            (Phase::DlSentHeader, TransferEvent::Sent) => {
                a == TransferAction::Receive(PKT_HANDSHAKE) && r == TransferState { phase: Phase::DlAwaitFileResp, ..st }
            },
            (Phase::DlAwaitFileResp, TransferEvent::Received(b)) => {
                if encode_utf8(spec_parse_magic(b@)) == MAGIC_SRIONOFL@ {
                    aborts(st, r, a) && (a matches TransferAction::AbortThenFail(CyrioError::Device(m))
                        && m@ == no_file_message(file_no_of(st.kind), st.mem_unit))
                } else {
                    let blocks = ((st.header.size as int + PKT_BLOCK - 1) / (PKT_BLOCK as int)) as u32;
                    let s2 = TransferState { blocks, off: 0, ..st };
                    if blocks == 0 {
                        download_close(s2, r, a)
                    } else {
                        sends_crio_data(a, zeros(PKT_BLOCK as nat)) && r == TransferState { phase: Phase::DlSentRequest, ..s2 }
                    }
                }
            },
            (Phase::DlSentRequest, TransferEvent::Sent) => {
                a == TransferAction::Receive(PKT_HANDSHAKE) && r == TransferState { phase: Phase::DlAwaitBlockResp, ..st }
            },
            (Phase::DlAwaitBlockResp, TransferEvent::Received(b)) => {
                if encode_utf8(spec_parse_magic(b@)) == MAGIC_SRIODONE@ {
                    download_close(TransferState { complete: true, ..st }, r, a)
                } else {
                    a == TransferAction::Receive(PKT_BLOCK) && r == TransferState { phase: Phase::DlAwaitBlock, ..st }
                }
            },
            (Phase::DlAwaitBlock, TransferEvent::Received(block)) => {
                let sent = if st.sent + block@.len() > u32::MAX { u32::MAX } else { (st.sent + block@.len()) as u32 };
                let off = if st.off < usize::MAX { (st.off + 1) as usize } else { st.off };
                exists|d: Vec<u8>| {
                    let s2 = TransferState { data: d, sent, off, ..st };
                    &&& #[trigger] d@ == st.data@ + block@
                    &&& if (s2.off as int) < (s2.blocks as int) {
                        sends_crio_data(a, zeros(PKT_BLOCK as nat)) && r == TransferState { phase: Phase::DlSentRequest, ..s2 }
                    } else {
                        download_close(s2, r, a)
                    }
                }
            },
            (Phase::DlSentTrailer, TransferEvent::Sent) => download_end(st, r, a),
            (Phase::DelAwaitCommand, TransferEvent::Completed(_)) => {
                a == TransferAction::Receive(PKT_HANDSHAKE) && r == TransferState { phase: Phase::DelAwaitStart, ..st }
            },
            (Phase::DelAwaitStart, TransferEvent::Received(b)) => if magic_matches(b@, MAGIC_SRIODELS@) {
                &&& a matches TransferAction::Send(p) && p@ == spec_serialize_rio_file(
                    RioFileView { file_no: file_no_of(st.kind), ..empty_rio_file_view() },
                )
                &&& r == TransferState { phase: Phase::DelSentHeader, ..st }
            } else {
                aborts(st, r, a) && (a matches TransferAction::AbortThenFail(e)
                    && is_mismatch(e, b@, MAGIC_SRIODELS@, "delete init"@))
            },
            (Phase::DelSentHeader, TransferEvent::Sent) => {
                a == TransferAction::Receive(PKT_HANDSHAKE) && r == TransferState { phase: Phase::DelAwaitDone, ..st }
            },
            (Phase::DelAwaitDone, TransferEvent::Received(b)) => if magic_matches(b@, MAGIC_SRIODELD@) {
                a == TransferAction::Done(0) && r == TransferState { phase: Phase::Finished, ..st }
            } else {
                aborts(st, r, a) && (a matches TransferAction::AbortThenFail(e)
                    && is_mismatch(e, b@, MAGIC_SRIODELD@, "delete done"@))
            },
            _ => unexpected(st, r, a),
        },
    }
}

/// The phases a download passes through.
pub open spec fn download_phase(p: Phase) -> bool {
    ||| p is AwaitSlot
    ||| p is DlAwaitCommand
    ||| p is DlAwaitReady
    ||| p is DlSentHeader
    ||| p is DlAwaitFileResp
    ||| p is DlSentRequest
    ||| p is DlAwaitBlockResp
    ||| p is DlAwaitBlock
    ||| p is DlSentTrailer
    ||| p is Finished
    ||| p is Aborted
}

/// What every state of a download keeps: it stays in the download's
/// phases, and once finished its data is exactly the file's size.
pub open spec fn download_inv(st: TransferState) -> bool {
    st.kind is Download ==> {
        &&& download_phase(st.phase)
        &&& st.phase is Finished ==> st.data@.len() == st.header.size
    }
}

/// A download starts in a state that keeps the download invariant.
pub proof fn law_download_starts_well(st: TransferState)
    requires
        st.kind is Download,
        st.phase is AwaitSlot,
    ensures
        download_inv(st),
{
}

/// Every step keeps the download invariant; so a download that is done
/// hands over exactly as many bytes as its header's size, and says so.
pub proof fn law_download_data_is_file_size(st: TransferState, ev: TransferEvent, r: TransferState, a: TransferAction)
    requires
        download_inv(st),
        transfer_steps(st, ev, r, a),
    ensures
        download_inv(r),
        st.kind is Download && a is Done ==> r.phase is Finished && r.data@.len() == r.header.size
            && a == TransferAction::Done(r.header.size),
{
}

/// The phases an upload or an overwrite passes through.
pub open spec fn upload_phase(p: Phase) -> bool {
    ||| p is AwaitCommand
    ||| p is AwaitRdy
    ||| p is AwaitReady
    ||| p is SentBlockHead
    ||| p is SentBlock
    ||| p is AwaitAck
    ||| p is SentInfo
    ||| p is SentHeader
    ||| p is AwaitFinal
    ||| p is AwaitUnlock
    ||| p is AwaitFileNo
    ||| p is Finished
    ||| p is Aborted
}

/// `n` capped at `u32::MAX`.
pub open spec fn capped(n: int) -> int {
    if n > u32::MAX { u32::MAX as int } else { n }
}

/// What every state of an upload or overwrite keeps: the data before `off`
/// has been sent and acknowledged, and the progress counts exactly those
/// bytes (capped); a block is in flight only below the end of the data;
/// the header goes out only once all of the data was acknowledged.
pub open spec fn upload_inv(st: TransferState) -> bool {
    (st.kind is Upload || st.kind is Overwrite) ==> {
        &&& upload_phase(st.phase)
        &&& st.data@.len() <= usize::MAX
        &&& st.off <= st.data@.len()
        &&& st.sent == capped(st.off as int)
        &&& (st.phase is AwaitCommand || st.phase is AwaitRdy || st.phase is AwaitReady) ==> st.off == 0
        &&& (st.phase is SentBlockHead || st.phase is SentBlock || st.phase is AwaitAck) ==> st.off < st.data@.len()
        &&& (st.phase is SentInfo || st.phase is SentHeader || st.phase is AwaitFinal || st.phase is AwaitUnlock
            || st.phase is AwaitFileNo || st.phase is Finished) ==> st.off == st.data@.len()
    }
}

/// An upload or overwrite starts in a state that keeps the upload
/// invariant.
pub proof fn law_upload_starts_well(st: TransferState)
    requires
        st.kind is Upload || st.kind is Overwrite,
        st.phase is AwaitCommand,
        st.off == 0,
        st.sent == 0,
        st.data@.len() <= usize::MAX,
    ensures
        upload_inv(st),
{
}

/// Every step keeps the upload invariant: blocks go out in order, each
/// acknowledged before the next, the progress is the count of bytes
/// acknowledged, and CRIOINFO and the header follow only once all of the
/// data was acknowledged (the progress then equals the data's size, capped).
pub proof fn law_upload_sends_all_data_first(st: TransferState, ev: TransferEvent, r: TransferState, a: TransferAction)
    requires
        upload_inv(st),
        transfer_steps(st, ev, r, a),
    ensures
        upload_inv(r),
        (st.kind is Upload || st.kind is Overwrite) && r.phase is SentInfo ==> r.off == r.data@.len()
            && r.sent == capped(r.data@.len() as int) && (a matches TransferAction::Send(p) && p@ == spec_crio_info()),
{
    if (st.kind is Upload || st.kind is Overwrite) && st.phase is AwaitAck && !(ev is Failed) {
        if let TransferEvent::Received(b) = ev {
            let len = st.data@.len() as int;
            let off = st.off as int;
            if off <= len && magic_matches(b@, MAGIC_SRIODATA@) {
                let chunk = if len - off < PKT_BLOCK { len - off } else { PKT_BLOCK as int };
                let sent = if st.sent + chunk > u32::MAX { u32::MAX } else { (st.sent + chunk) as u32 };
                let next = if len - off > PKT_BLOCK { (off + PKT_BLOCK) as usize } else { len as usize };
                assert(next as int == off + chunk);
                assert(sent as int == capped(next as int));
                assert(next <= len);
            }
        }
    }
}

/// Starts an upload of `data` with the header `header_buf` (see
/// `upload_header_buffer`): the write command comes first.
pub fn begin_upload(mem_unit: u8, data: Vec<u8>, header_buf: Vec<u8>) -> (r: (TransferState, TransferAction))
    ensures
        r.1 == (TransferAction::Command { opcode: OP_RIO_WRITE, arg1: mem_unit as u16, arg2: 0 }),
        r.0.kind == TransferKind::Upload && r.0.phase == Phase::AwaitCommand && r.0.mem_unit == mem_unit,
        r.0.data == data && r.0.header_buf == header_buf && r.0.off == 0 && r.0.sent == 0,
{
    let st = TransferState {
        kind: TransferKind::Upload,
        mem_unit,
        phase: Phase::AwaitCommand,
        data,
        header_buf,
        header: RioFile::empty(),
        off: 0,
        blocks: 0,
        sent: 0,
        complete: false,
    };
    (st, TransferAction::Command { opcode: OP_RIO_WRITE, arg1: mem_unit as u16, arg2: 0 })
}

/// Starts an overwrite of file `file_no` with `data` and the header
/// `header_buf` (see `overwrite_header_buffer`): the overwrite command comes
/// first, naming the file.
pub fn begin_overwrite(mem_unit: u8, file_no: u32, data: Vec<u8>, header_buf: Vec<u8>) -> (r: (TransferState, TransferAction))
    ensures
        r.1 == (TransferAction::Command { opcode: OP_RIO_OVWRT, arg1: mem_unit as u16, arg2: file_no as u16 }),
        r.0.kind == (TransferKind::Overwrite { file_no }) && r.0.phase == Phase::AwaitCommand,
        r.0.mem_unit == mem_unit && r.0.data == data && r.0.header_buf == header_buf && r.0.off == 0 && r.0.sent == 0,
{
    let st = TransferState {
        kind: TransferKind::Overwrite { file_no },
        mem_unit,
        phase: Phase::AwaitCommand,
        data,
        header_buf,
        header: RioFile::empty(),
        off: 0,
        blocks: 0,
        sent: 0,
        complete: false,
    };
    (st, TransferAction::Command { opcode: OP_RIO_OVWRT, arg1: mem_unit as u16, arg2: file_no as u16 })
}

/// Starts a delete of file `file_no`: the delete command comes first.
pub fn begin_delete(mem_unit: u8, file_no: u32) -> (r: (TransferState, TransferAction))
    ensures
        r.1 == (TransferAction::Command { opcode: OP_RIO_DELET, arg1: mem_unit as u16, arg2: 0 }),
        r.0.kind == (TransferKind::Delete { file_no }) && r.0.phase == Phase::DelAwaitCommand,
        r.0.mem_unit == mem_unit && r.0.sent == 0,
{
    let st = TransferState {
        kind: TransferKind::Delete { file_no },
        mem_unit,
        phase: Phase::DelAwaitCommand,
        data: Vec::new(),
        header_buf: Vec::new(),
        header: RioFile::empty(),
        off: 0,
        blocks: 0,
        sent: 0,
        complete: false,
    };
    (st, TransferAction::Command { opcode: OP_RIO_DELET, arg1: mem_unit as u16, arg2: 0 })
}

/// Starts a download of file `file_no`: its header is looked up first.
pub fn begin_download(mem_unit: u8, file_no: u32) -> (r: (TransferState, TransferAction))
    ensures
        r.1 == TransferAction::FindSlot,
        r.0.kind == (TransferKind::Download { file_no }) && r.0.phase == Phase::AwaitSlot,
        r.0.mem_unit == mem_unit && r.0.data@.len() == 0 && r.0.sent == 0 && !r.0.complete,
{
    let st = TransferState {
        kind: TransferKind::Download { file_no },
        mem_unit,
        phase: Phase::AwaitSlot,
        data: Vec::new(),
        header_buf: Vec::new(),
        header: RioFile::empty(),
        off: 0,
        blocks: 0,
        sent: 0,
        complete: false,
    };
    (st, TransferAction::FindSlot)
}

fn crio_data_packet(block: &[u8]) -> (p: Vec<u8>)
    ensures
        p@ == spec_crio_data(block@),
{
    let pkt = build_crio_data(block);
    slice_to_vec(pkt.as_slice())
}

fn empty_request() -> (p: Vec<u8>)
    ensures
        p@ == spec_crio_data(zeros(PKT_BLOCK as nat)),
{
    let z = [0u8; 16384];
    assert(z@ =~= zeros(PKT_BLOCK as nat));
    crio_data_packet(z.as_slice())
}

fn upload_next(st: TransferState, off: usize, sent: u32) -> (r: (TransferState, TransferAction))
    ensures
        next_block(st, off, sent, r.0, r.1),
{
    if off < st.data.len() {
        let block = upload_block(st.data.as_slice(), off);
        let p = crio_data_packet(block.as_slice());
        (TransferState { phase: Phase::SentBlockHead, off, sent, ..st }, TransferAction::Send(p))
    } else {
        let info = build_crio_info();
        let p = slice_to_vec(info.as_slice());
        (TransferState { phase: Phase::SentInfo, off, sent, ..st }, TransferAction::Send(p))
    }
}

fn abort_with(st: TransferState, e: CyrioError) -> (r: (TransferState, TransferAction))
    ensures
        r.1 == TransferAction::AbortThenFail(e),
        r.0 == (TransferState { phase: Phase::Aborted, ..st }),
{
    (TransferState { phase: Phase::Aborted, ..st }, TransferAction::AbortThenFail(e))
}

fn device_error(parts: Vec<char>) -> (e: CyrioError)
    ensures
        e matches CyrioError::Device(m) && m@ == parts@,
{
    CyrioError::Device(string_from_chars(parts.as_slice()))
}

fn download_end_exec(st: TransferState) -> (r: (TransferState, TransferAction))
    ensures
        download_end(st, r.0, r.1),
{
    let size = st.header.size;
    if st.data.len() >= size as usize {
        let mut data = st.data;
        data.truncate(size as usize);
        assert(data@ =~= st.data@.take(size as int));
        (TransferState { phase: Phase::Finished, data, ..st }, TransferAction::Done(size))
    } else {
        let mut m: Vec<char> = Vec::new();
        push_str(&mut m, "download_file: incomplete download (");
        push_decimal(&mut m, st.data.len() as u64);
        push_str(&mut m, " of ");
        push_decimal(&mut m, size as u64);
        push_str(&mut m, " bytes)");
        let e = device_error(m);
        abort_with(st, e)
    }
}

fn download_close_exec(st: TransferState) -> (r: (TransferState, TransferAction))
    ensures
        download_close(st, r.0, r.1),
{
    if !st.complete {
        (TransferState { phase: Phase::DlSentTrailer, ..st }, TransferAction::Send(empty_request()))
    } else {
        download_end_exec(st)
    }
}

fn file_message(file_no: u32, mem_unit: u8, tail: &str) -> (m: Vec<char>)
    ensures
        m@ == "download_file: file "@ + dec_digits(file_no as nat) + " not found on memUnit "@
            + dec_digits(mem_unit as nat) + tail@,
{
    let mut m: Vec<char> = Vec::new();
    push_str(&mut m, "download_file: file ");
    push_decimal(&mut m, file_no as u64);
    push_str(&mut m, " not found on memUnit ");
    push_decimal(&mut m, mem_unit as u64);
    push_str(&mut m, tail);
    m
}

fn kind_file_no(k: TransferKind) -> (n: u32)
    ensures
        n == file_no_of(k),
{
    match k {
        TransferKind::Upload => 0,
        TransferKind::Overwrite { file_no } => file_no,
        TransferKind::Download { file_no } => file_no,
        TransferKind::Delete { file_no } => file_no,
    }
}

fn context_text(k: TransferKind, tail: &str) -> (s: String)
    ensures
        s@ == context_of(k) + tail@,
{
    let mut m: Vec<char> = Vec::new();
    match k {
        TransferKind::Overwrite { .. } => push_str(&mut m, "overwrite"),
        _ => push_str(&mut m, "upload"),
    }
    push_str(&mut m, tail);
    string_from_chars(m.as_slice())
}

fn is_done_magic(b: &[u8]) -> (r: bool)
    ensures
        r == (encode_utf8(spec_parse_magic(b@)) == MAGIC_SRIODONE@),
{
    let m = parse_magic(b);
    let bytes = m.as_str().as_bytes();
    if bytes.len() != 8 {
        return false;
    }
    let mut i: usize = 0;
    while i < 8
        invariant
            bytes@.len() == 8,
            bytes@ == encode_utf8(m@),
            m@ == spec_parse_magic(b@),
            forall|k: int| 0 <= k < i ==> bytes@[k] == MAGIC_SRIODONE@[k],
        decreases 8 - i,
    {
        if bytes[i] != MAGIC_SRIODONE[i] {
            return false;
        }
        i = i + 1;
    }
    assert(bytes@ =~= MAGIC_SRIODONE@);
    true
}

/// The next step of a transfer (see `transfer_steps`): a failed action
/// aborts the transfer with its error; a packet without the expected magic
/// aborts it with a mismatch error; an event that does not fit aborts it.
#[verifier::rlimit(80)]
pub fn transfer_step(st: TransferState, ev: TransferEvent) -> (r: (TransferState, TransferAction))
    ensures
        transfer_steps(st, ev, r.0, r.1),
        ev matches TransferEvent::Failed(e) ==> r.1 == TransferAction::AbortThenFail(e),
        (r.1 is AbortThenFail) == (r.0.phase is Aborted),
        r.0.kind == st.kind && r.0.mem_unit == st.mem_unit,
{
    match ev {
        TransferEvent::Failed(e) => {
            return abort_with(st, e);
        },
        _ => {},
    }
    match (st.phase, ev) {
        (Phase::AwaitCommand, TransferEvent::Completed(_)) => {
            (TransferState { phase: Phase::AwaitRdy, ..st }, TransferAction::Receive(PKT_HANDSHAKE))
        },
        (Phase::AwaitRdy, TransferEvent::Received(b)) => {
            let ctx = context_text(st.kind, " init");
            match expect_magic(b.as_slice(), MAGIC_SRIORDY.as_slice(), ctx.as_str()) {
                Ok(()) => (TransferState { phase: Phase::AwaitReady, ..st }, TransferAction::Receive(PKT_HANDSHAKE)),
                Err(e) => abort_with(st, e),
            }
        },
        (Phase::AwaitReady, TransferEvent::Received(b)) => {
            let ctx = context_text(st.kind, " ready");
            match expect_magic(b.as_slice(), MAGIC_SRIODATA.as_slice(), ctx.as_str()) {
                Ok(()) => {
                    let sent = st.sent;
                    upload_next(st, 0, sent)
                },
                Err(e) => abort_with(st, e),
            }
        },
        (Phase::SentBlockHead, TransferEvent::Sent) => {
            if st.off < st.data.len() {
                let block = upload_block(st.data.as_slice(), st.off);
                (TransferState { phase: Phase::SentBlock, ..st }, TransferAction::Send(block))
            } else {
                unexpected_abort(st)
            }
        },
        (Phase::SentBlock, TransferEvent::Sent) => {
            (TransferState { phase: Phase::AwaitAck, ..st }, TransferAction::Receive(PKT_HANDSHAKE))
        },
        (Phase::AwaitAck, TransferEvent::Received(b)) => {
            if st.off > st.data.len() {
                return unexpected_abort(st);
            }
            let ctx = context_text(st.kind, " block");
            match expect_magic(b.as_slice(), MAGIC_SRIODATA.as_slice(), ctx.as_str()) {
                Ok(()) => {
                    let len = st.data.len();
                    let off = st.off;
                    let sent = block_sent(st.sent, len, off);
                    let next: usize = if len - off > PKT_BLOCK { off + PKT_BLOCK } else { len };
                    upload_next(st, next, sent)
                },
                Err(inner) => {
                    let ghost g = inner;
                    let kind = st.kind;
                    let mut m: Vec<char> = Vec::new();
                    let c = context_text(kind, " block at offset ");
                    push_str(&mut m, c.as_str());
                    push_decimal(&mut m, st.off as u64);
                    push_str(&mut m, ": ");
                    let t = inner.to_string();
                    push_str(&mut m, t.as_str());
                    assert(m@ =~= block_error(kind, st.off, g));
                    let e = device_error(m);
                    abort_with(st, e)
                },
            }
        },
        (Phase::SentInfo, TransferEvent::Sent) => {
            let h = copy_bytes(&st.header_buf);
            (TransferState { phase: Phase::SentHeader, ..st }, TransferAction::Send(h))
        },
        (Phase::SentHeader, TransferEvent::Sent) => {
            (TransferState { phase: Phase::AwaitFinal, ..st }, TransferAction::Receive(PKT_HANDSHAKE))
        },
        (Phase::AwaitFinal, TransferEvent::Received(_)) => {
            (TransferState { phase: Phase::AwaitUnlock, ..st }, TransferAction::Command { opcode: OP_UNKNOWN00, arg1: 0, arg2: 0 })
        },
        (Phase::AwaitUnlock, TransferEvent::Completed(_)) => {
            match st.kind {
                TransferKind::Upload => (TransferState { phase: Phase::AwaitFileNo, ..st }, TransferAction::FindFileNo),
                _ => (TransferState { phase: Phase::Finished, ..st }, TransferAction::Done(0)),
            }
        },
        (Phase::AwaitFileNo, TransferEvent::Completed(n)) => {
            (TransferState { phase: Phase::Finished, ..st }, TransferAction::Done(n))
        },
        (Phase::AwaitSlot, TransferEvent::Found(None)) => {
            let m = file_message(kind_file_no(st.kind), st.mem_unit, " (slot iteration hit empty slot)");
            let e = device_error(m);
            abort_with(st, e)
        },
        (Phase::AwaitSlot, TransferEvent::Found(Some(buf))) => {
            match parse_rio_file(buf.as_slice()) {
                Ok(header) => {
                    let mem = st.mem_unit;
                    (
                        TransferState { phase: Phase::DlAwaitCommand, header_buf: buf, header, ..st },
                        TransferAction::Command { opcode: OP_RIO_READF, arg1: mem as u16, arg2: 0 },
                    )
                },
                Err(e) => abort_with(st, e),
            }
        },
        (Phase::DlAwaitCommand, TransferEvent::Completed(_)) => {
            (TransferState { phase: Phase::DlAwaitReady, ..st }, TransferAction::Receive(PKT_HANDSHAKE))
        },
        (Phase::DlAwaitReady, TransferEvent::Received(_)) => {
            let h = copy_bytes(&st.header_buf);
            (TransferState { phase: Phase::DlSentHeader, ..st }, TransferAction::Send(h))
        },
        (Phase::DlSentHeader, TransferEvent::Sent) => {
            (TransferState { phase: Phase::DlAwaitFileResp, ..st }, TransferAction::Receive(PKT_HANDSHAKE))
        },
        (Phase::DlAwaitFileResp, TransferEvent::Received(b)) => {
            if is_no_file_response(b.as_slice()) {
                let m = file_message(kind_file_no(st.kind), st.mem_unit, " (SRIONOFL)");
                let e = device_error(m);
                abort_with(st, e)
            } else {
                let blocks = download_block_count(st.header.size);
                let s2 = TransferState { blocks, off: 0, ..st };
                if blocks == 0 {
                    download_close_exec(s2)
                } else {
                    (TransferState { phase: Phase::DlSentRequest, ..s2 }, TransferAction::Send(empty_request()))
                }
            }
        },
        (Phase::DlSentRequest, TransferEvent::Sent) => {
            (TransferState { phase: Phase::DlAwaitBlockResp, ..st }, TransferAction::Receive(PKT_HANDSHAKE))
        },
        (Phase::DlAwaitBlockResp, TransferEvent::Received(b)) => {
            if is_done_magic(b.as_slice()) {
                download_close_exec(TransferState { complete: true, ..st })
            } else {
                (TransferState { phase: Phase::DlAwaitBlock, ..st }, TransferAction::Receive(PKT_BLOCK))
            }
        },
        (Phase::DlAwaitBlock, TransferEvent::Received(block)) => {
            let n = block.len();
            let sent: u32 = if n as u64 > (u32::MAX - st.sent) as u64 { u32::MAX } else { st.sent + n as u32 };
            let off: usize = if st.off < usize::MAX { st.off + 1 } else { st.off };
            let mut data = st.data;
            let mut blk = block;
            let ghost b0 = blk@;
            data.append(&mut blk);
            assert(data@ == st.data@ + b0);
            let s2 = TransferState { data, sent, off, ..st };
            if (s2.off as u64) < (s2.blocks as u64) {
                (TransferState { phase: Phase::DlSentRequest, ..s2 }, TransferAction::Send(empty_request()))
            } else {
                download_close_exec(s2)
            }
        },
        (Phase::DlSentTrailer, TransferEvent::Sent) => download_end_exec(st),
        (Phase::DelAwaitCommand, TransferEvent::Completed(_)) => {
            (TransferState { phase: Phase::DelAwaitStart, ..st }, TransferAction::Receive(PKT_HANDSHAKE))
        },
        (Phase::DelAwaitStart, TransferEvent::Received(b)) => {
            match expect_magic(b.as_slice(), MAGIC_SRIODELS.as_slice(), "delete init") {
                Ok(()) => {
                    let h = delete_request_header(kind_file_no(st.kind));
                    let p = slice_to_vec(h.as_slice());
                    (TransferState { phase: Phase::DelSentHeader, ..st }, TransferAction::Send(p))
                },
                Err(e) => abort_with(st, e),
            }
        },
        (Phase::DelSentHeader, TransferEvent::Sent) => {
            (TransferState { phase: Phase::DelAwaitDone, ..st }, TransferAction::Receive(PKT_HANDSHAKE))
        },
        (Phase::DelAwaitDone, TransferEvent::Received(b)) => {
            match expect_magic(b.as_slice(), MAGIC_SRIODELD.as_slice(), "delete done") {
                Ok(()) => (TransferState { phase: Phase::Finished, ..st }, TransferAction::Done(0)),
                Err(e) => abort_with(st, e),
            }
        },
        _ => unexpected_abort(st),
    }
}

fn unexpected_abort(st: TransferState) -> (r: (TransferState, TransferAction))
    ensures
        unexpected(st, r.0, r.1),
{
    let mut m: Vec<char> = Vec::new();
    push_str(&mut m, "transfer: unexpected event");
    abort_with(st, CyrioError::Other(string_from_chars(m.as_slice())))
}


fn copy_bytes(v: &Vec<u8>) -> (r: Vec<u8>)
    ensures
        r@ == v@,
{
    slice_to_vec(v.as_slice())
}

} // verus!

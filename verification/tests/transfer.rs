use cyrio::constants::{
    MAGIC_CRIOABRT, MAGIC_SRIODATA, MAGIC_SRIODELD, MAGIC_SRIODELS, MAGIC_SRIODONE, MAGIC_SRIONOFL, MAGIC_SRIORDY,
    OP_RIO_DELET, OP_RIO_OVWRT, OP_RIO_READF, OP_RIO_WRITE, OP_UNKNOWN00, PKT_BLOCK, PKT_HANDSHAKE,
};
use cyrio::device::delete_request_header;
use cyrio::error::CyrioError;
use cyrio::packets::{build_crio_data, build_crio_info};
use cyrio::rio_file::{serialize_rio_file, RioFile};
use cyrio::transfer::{
    begin_delete, begin_download, begin_overwrite, begin_upload, transfer_step, Phase, TransferAction, TransferEvent, TransferState,
};

fn packet(magic: &[u8]) -> Vec<u8> {
    let mut p = magic.to_vec();
    p.resize(PKT_HANDSHAKE, 0);
    p
}

fn step(st: TransferState, ev: TransferEvent) -> (TransferState, TransferAction) {
    transfer_step(st, ev)
}

fn expect_send(a: &TransferAction) -> Vec<u8> {
    match a {
        TransferAction::Send(p) => p.clone(),
        other => panic!("expected a packet to send, got {:?}", other),
    }
}

fn expect_receive(a: &TransferAction, n: usize) {
    match a {
        TransferAction::Receive(m) => assert_eq!(*m, n),
        other => panic!("expected a receive, got {:?}", other),
    }
}

fn abort_error(a: TransferAction) -> CyrioError {
    match a {
        TransferAction::AbortThenFail(e) => e,
        other => panic!("expected an abort, got {:?}", other),
    }
}

fn device_message(e: CyrioError) -> String {
    match e {
        CyrioError::Device(m) => m,
        other => panic!("expected a device error, got {:?}", other),
    }
}

#[test]
fn upload_of_two_blocks_runs_the_whole_sequence() {
    let data: Vec<u8> = (0..20000u32).map(|i| (i % 251) as u8).collect();
    let header = vec![7u8; 2048];
    let (st, a) = begin_upload(1, data.clone(), header.clone());
    assert!(matches!(a, TransferAction::Command { opcode: OP_RIO_WRITE, arg1: 1, arg2: 0 }));
    let (st, a) = step(st, TransferEvent::Completed(0));
    expect_receive(&a, PKT_HANDSHAKE);
    let (st, a) = step(st, TransferEvent::Received(packet(MAGIC_SRIORDY)));
    expect_receive(&a, PKT_HANDSHAKE);
    let (st, a) = step(st, TransferEvent::Received(packet(MAGIC_SRIODATA)));
    assert_eq!(expect_send(&a), build_crio_data(&data[..PKT_BLOCK]).to_vec());
    let (st, a) = step(st, TransferEvent::Sent);
    assert_eq!(expect_send(&a), data[..PKT_BLOCK].to_vec());
    let (st, a) = step(st, TransferEvent::Sent);
    expect_receive(&a, PKT_HANDSHAKE);
    let (st, a) = step(st, TransferEvent::Received(packet(MAGIC_SRIODATA)));
    assert_eq!(st.sent, 16384);
    let mut tail = data[PKT_BLOCK..].to_vec();
    tail.resize(PKT_BLOCK, 0);
    assert_eq!(expect_send(&a), build_crio_data(&tail).to_vec());
    let (st, a) = step(st, TransferEvent::Sent);
    assert_eq!(expect_send(&a), tail);
    let (st, a) = step(st, TransferEvent::Sent);
    expect_receive(&a, PKT_HANDSHAKE);
    let (st, a) = step(st, TransferEvent::Received(packet(MAGIC_SRIODATA)));
    assert_eq!(st.sent, 20000);
    assert_eq!(expect_send(&a), build_crio_info().to_vec());
    let (st, a) = step(st, TransferEvent::Sent);
    assert_eq!(expect_send(&a), header);
    let (st, a) = step(st, TransferEvent::Sent);
    expect_receive(&a, PKT_HANDSHAKE);
    let (st, a) = step(st, TransferEvent::Received(packet(MAGIC_SRIODATA)));
    assert!(matches!(a, TransferAction::Command { opcode: OP_UNKNOWN00, arg1: 0, arg2: 0 }));
    let (st, a) = step(st, TransferEvent::Completed(0));
    assert!(matches!(a, TransferAction::FindFileNo));
    let (st, a) = step(st, TransferEvent::Completed(42));
    assert!(matches!(a, TransferAction::Done(42)));
    assert_eq!(st.phase, Phase::Finished);
}

#[test]
fn overwrite_of_empty_data_goes_straight_to_the_header() {
    let (st, a) = begin_overwrite(0, 9, Vec::new(), vec![1u8; 2048]);
    assert!(matches!(a, TransferAction::Command { opcode: OP_RIO_OVWRT, arg1: 0, arg2: 9 }));
    let (st, _) = step(st, TransferEvent::Completed(0));
    let (st, _) = step(st, TransferEvent::Received(packet(MAGIC_SRIORDY)));
    let (st, a) = step(st, TransferEvent::Received(packet(MAGIC_SRIODATA)));
    assert_eq!(expect_send(&a), build_crio_info().to_vec());
    let (st, _) = step(st, TransferEvent::Sent);
    let (st, _) = step(st, TransferEvent::Sent);
    let (st, _) = step(st, TransferEvent::Received(packet(MAGIC_SRIODATA)));
    let (st, a) = step(st, TransferEvent::Completed(0));
    assert!(matches!(a, TransferAction::Done(0)));
    assert_eq!(st.phase, Phase::Finished);
}

#[test]
fn failed_action_aborts_with_its_error() {
    let (st, _) = begin_upload(0, vec![1, 2, 3], vec![0u8; 2048]);
    let (st, a) = step(st, TransferEvent::Failed(CyrioError::Transport("usb gone".into())));
    assert_eq!(st.phase, Phase::Aborted);
    assert!(matches!(abort_error(a), CyrioError::Transport(m) if m == "usb gone"));
}

#[test]
fn wrong_magic_at_init_aborts_with_mismatch() {
    let (st, _) = begin_upload(0, vec![1, 2, 3], vec![0u8; 2048]);
    let (st, _) = step(st, TransferEvent::Completed(0));
    let (st, a) = step(st, TransferEvent::Received(packet(MAGIC_CRIOABRT)));
    assert_eq!(st.phase, Phase::Aborted);
    let msg = abort_error(a).to_string();
    assert!(msg.contains("SRIORDY"), "{}", msg);
    assert!(msg.contains("upload init"), "{}", msg);
    assert!(msg.contains("CRIOABRT"), "{}", msg);
}

#[test]
fn unacknowledged_block_aborts_naming_its_offset() {
    let (st, _) = begin_overwrite(0, 3, vec![5u8; 10], vec![0u8; 2048]);
    let (st, _) = step(st, TransferEvent::Completed(0));
    let (st, _) = step(st, TransferEvent::Received(packet(MAGIC_SRIORDY)));
    let (st, _) = step(st, TransferEvent::Received(packet(MAGIC_SRIODATA)));
    let (st, _) = step(st, TransferEvent::Sent);
    let (st, _) = step(st, TransferEvent::Sent);
    let (_, a) = step(st, TransferEvent::Received(packet(MAGIC_SRIODONE)));
    match abort_error(a) {
        CyrioError::Device(m) => {
            assert!(m.starts_with("overwrite block at offset 0: "), "{}", m);
            assert!(m.contains("overwrite block"), "{}", m);
        }
        other => panic!("unexpected {:?}", other),
    }
}

#[test]
fn unexpected_event_aborts() {
    let (st, _) = begin_download(0, 4);
    let (st, a) = step(st, TransferEvent::Sent);
    assert_eq!(st.phase, Phase::Aborted);
    assert!(matches!(abort_error(a), CyrioError::Other(m) if m == "transfer: unexpected event"));
}

fn download_header(size: u32) -> Vec<u8> {
    let mut f = RioFile::empty();
    f.file_no = 5;
    f.size = size;
    serialize_rio_file(&f).to_vec()
}

#[test]
fn download_without_slot_aborts() {
    let (st, a) = begin_download(0, 5);
    assert!(matches!(a, TransferAction::FindSlot));
    let (_, a) = step(st, TransferEvent::Found(None));
    assert_eq!(
        device_message(abort_error(a)),
        "download_file: file 5 not found on memUnit 0 (slot iteration hit empty slot)"
    );
}

#[test]
fn download_of_missing_file_aborts_on_srionofl() {
    let (st, _) = begin_download(1, 5);
    let (st, a) = step(st, TransferEvent::Found(Some(download_header(10))));
    assert!(matches!(a, TransferAction::Command { opcode: OP_RIO_READF, arg1: 1, arg2: 0 }));
    let (st, _) = step(st, TransferEvent::Completed(0));
    let (st, a) = step(st, TransferEvent::Received(packet(MAGIC_SRIODATA)));
    assert_eq!(expect_send(&a), download_header(10));
    let (st, _) = step(st, TransferEvent::Sent);
    let (_, a) = step(st, TransferEvent::Received(packet(MAGIC_SRIONOFL)));
    assert_eq!(device_message(abort_error(a)), "download_file: file 5 not found on memUnit 1 (SRIONOFL)");
}

fn download_until_blocks(size: u32) -> TransferState {
    let (st, _) = begin_download(0, 5);
    let (st, _) = step(st, TransferEvent::Found(Some(download_header(size))));
    let (st, _) = step(st, TransferEvent::Completed(0));
    let (st, _) = step(st, TransferEvent::Received(packet(MAGIC_SRIODATA)));
    let (st, _) = step(st, TransferEvent::Sent);
    let (st, a) = step(st, TransferEvent::Received(packet(MAGIC_SRIODATA)));
    assert_eq!(expect_send(&a), build_crio_data(&[0u8; PKT_BLOCK]).to_vec());
    st
}

#[test]
fn download_cuts_the_data_to_the_file_size() {
    let st = download_until_blocks(20000);
    assert_eq!(st.blocks, 2);
    let (st, _) = step(st, TransferEvent::Sent);
    let (st, a) = step(st, TransferEvent::Received(packet(MAGIC_SRIODATA)));
    expect_receive(&a, PKT_BLOCK);
    let (st, _) = step(st, TransferEvent::Received(vec![1u8; PKT_BLOCK]));
    assert_eq!(st.sent, 16384);
    let (st, _) = step(st, TransferEvent::Sent);
    let (st, _) = step(st, TransferEvent::Received(packet(MAGIC_SRIODATA)));
    let (st, a) = step(st, TransferEvent::Received(vec![2u8; PKT_BLOCK]));
    assert_eq!(expect_send(&a), build_crio_data(&[0u8; PKT_BLOCK]).to_vec());
    let (st, a) = step(st, TransferEvent::Sent);
    assert!(matches!(a, TransferAction::Done(20000)));
    assert_eq!(st.data.len(), 20000);
    assert_eq!(st.data[16383], 1);
    assert_eq!(st.data[16384], 2);
    assert_eq!(st.header.file_no, 5);
}

#[test]
fn download_ended_early_is_an_incomplete_error() {
    let st = download_until_blocks(20000);
    let (st, _) = step(st, TransferEvent::Sent);
    let (st, _) = step(st, TransferEvent::Received(packet(MAGIC_SRIODATA)));
    let (st, _) = step(st, TransferEvent::Received(vec![1u8; PKT_BLOCK]));
    let (st, _) = step(st, TransferEvent::Sent);
    let (st, a) = step(st, TransferEvent::Received(packet(MAGIC_SRIODONE)));
    assert!(st.complete);
    assert_eq!(st.phase, Phase::Aborted);
    assert_eq!(device_message(abort_error(a)), "download_file: incomplete download (16384 of 20000 bytes)");
}

#[test]
fn download_of_empty_file_closes_at_once() {
    let (st, _) = begin_download(0, 5);
    let (st, _) = step(st, TransferEvent::Found(Some(download_header(0))));
    let (st, _) = step(st, TransferEvent::Completed(0));
    let (st, _) = step(st, TransferEvent::Received(packet(MAGIC_SRIODATA)));
    let (st, _) = step(st, TransferEvent::Sent);
    let (st, a) = step(st, TransferEvent::Received(packet(MAGIC_SRIODATA)));
    assert_eq!(st.phase, Phase::DlSentTrailer);
    assert_eq!(expect_send(&a), build_crio_data(&[0u8; PKT_BLOCK]).to_vec());
    let (st, a) = step(st, TransferEvent::Sent);
    assert!(matches!(a, TransferAction::Done(0)));
    assert!(st.data.is_empty());
}

#[test]
fn delete_sends_the_header_between_its_two_magics() {
    let (st, a) = begin_delete(1, 6);
    assert!(matches!(a, TransferAction::Command { opcode: OP_RIO_DELET, arg1: 1, arg2: 0 }));
    let (st, a) = step(st, TransferEvent::Completed(0));
    expect_receive(&a, PKT_HANDSHAKE);
    let (st, a) = step(st, TransferEvent::Received(packet(MAGIC_SRIODELS)));
    assert_eq!(expect_send(&a), delete_request_header(6).to_vec());
    let (st, _) = step(st, TransferEvent::Sent);
    let (st, a) = step(st, TransferEvent::Received(packet(MAGIC_SRIODELD)));
    assert!(matches!(a, TransferAction::Done(0)));
    assert_eq!(st.phase, Phase::Finished);
}

#[test]
fn delete_without_its_magic_aborts() {
    let (st, _) = begin_delete(0, 6);
    let (st, _) = step(st, TransferEvent::Completed(0));
    let (st, a) = step(st, TransferEvent::Received(packet(MAGIC_SRIODATA)));
    assert_eq!(st.phase, Phase::Aborted);
    let msg = abort_error(a).to_string();
    assert!(msg.contains("delete init"), "{}", msg);
    assert!(msg.contains("SRIODELS"), "{}", msg);
}

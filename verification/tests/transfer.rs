//! The handshake and the chunked upload, on both sides.

use backer::packet::message::{FileBuffer, Message};
use backer::transfer::{
    chunk_kind, BackerHandle, BackerServerHandle, ChunkKind, HandlerAction, MAX_BUFFER_LENGTH,
};
use backer::utils::file::FileInfo;

fn server() -> BackerServerHandle {
    BackerServerHandle::new(String::from("/tmp/backer_dir"), String::from("backer"))
}

#[test]
fn auth_with_right_secret_is_granted() {
    let mut h = server();
    let action = h.handle(&Message::Auth(String::from("backer")));
    assert_eq!(action, HandlerAction::Send(Message::Authorize(true)));
}

#[test]
fn auth_with_wrong_secret_is_rejected_and_connection_closed() {
    let mut h = server();
    let action = h.handle(&Message::Auth(String::from("wrong")));
    assert_eq!(action, HandlerAction::SendAndClose(Message::Authorize(false)));
}

#[test]
fn auth_is_compared_exactly() {
    let mut h = server();
    for secret in ["Backer", "backer ", "", "backer2"] {
        let action = h.handle(&Message::Auth(String::from(secret)));
        assert_eq!(action, HandlerAction::SendAndClose(Message::Authorize(false)));
    }
}

fn chunk(name: &str, begin: bool, end: bool, bytes: &[u8]) -> Message {
    Message::FileBuffer(FileBuffer {
        is_begin: begin,
        is_end: end,
        file_name: String::from(name),
        buffer: bytes.to_vec(),
    })
}

#[test]
fn three_chunks_assemble_the_reference_file() {
    // a 50000-byte file split at 20480: sizes 20480, 20480, 9040
    let data: Vec<u8> = (0..50000u32).map(|i| (i % 249) as u8).collect();
    let mut h = server();
    assert_eq!(
        h.handle(&chunk("archive.zip", true, false, &data[..20480])),
        HandlerAction::Silent
    );
    assert_eq!(
        h.handle(&chunk("archive.zip", false, false, &data[20480..40960])),
        HandlerAction::Silent
    );
    assert_eq!(
        h.handle(&chunk("archive.zip", false, true, &data[40960..])),
        HandlerAction::Silent
    );
    let name = String::from("archive.zip");
    assert!(h.open_file(&name).is_none(), "file should be finalized");
    let stored = h.completed_file(&name).expect("file should be completed");
    assert_eq!(stored, &data);
}

#[test]
fn single_dual_flag_chunk_is_created_and_finalized() {
    let mut h = server();
    h.handle(&chunk("one.bin", true, true, &[1, 2, 3]));
    let name = String::from("one.bin");
    assert!(h.open_file(&name).is_none());
    assert_eq!(h.completed_file(&name).unwrap(), &vec![1u8, 2, 3]);
}

#[test]
fn middle_chunk_for_unknown_file_is_ignored() {
    let mut h = server();
    h.handle(&chunk("ghost", false, false, &[1]));
    let name = String::from("ghost");
    assert!(h.open_file(&name).is_none());
    assert!(h.completed_file(&name).is_none());
}

#[test]
fn end_chunk_for_unknown_file_is_ignored() {
    let mut h = server();
    h.handle(&chunk("ghost", false, true, &[1]));
    assert!(h.completed_file(&String::from("ghost")).is_none());
}

#[test]
fn begin_chunk_truncates_a_file_in_flight() {
    let mut h = server();
    h.handle(&chunk("f", true, false, &[1, 2]));
    h.handle(&chunk("f", true, false, &[9]));
    h.handle(&chunk("f", false, true, &[8]));
    assert_eq!(h.completed_file(&String::from("f")).unwrap(), &vec![9u8, 8]);
}

#[test]
fn non_transfer_messages_are_ignored_by_server() {
    let mut h = server();
    assert_eq!(h.handle(&Message::Phrase(String::from("hi"))), HandlerAction::Silent);
    assert_eq!(h.handle(&Message::Authorize(true)), HandlerAction::Silent);
    assert_eq!(h.handle(&Message::Complete(true)), HandlerAction::Silent);
}

fn client_with(data: Vec<u8>) -> BackerHandle {
    BackerHandle::new(FileInfo::new(
        String::from("archive.zip"),
        String::from("/tmp/archive.zip"),
        Box::new(data),
    ))
}

#[test]
fn authorized_client_sends_all_chunks_in_order() {
    let data: Vec<u8> = (0..50000u32).map(|i| (i % 241) as u8).collect();
    let mut c = client_with(data.clone());
    assert!(!c.is_completed());
    let sends = c.handle(&Message::Authorize(true));
    assert!(c.is_completed());
    assert_eq!(sends.len(), 3);
    let mut rebuilt: Vec<u8> = Vec::new();
    for (i, m) in sends.iter().enumerate() {
        match m {
            Message::FileBuffer(fb) => {
                assert_eq!(fb.file_name, "archive.zip");
                assert_eq!(fb.is_begin, i == 0);
                assert_eq!(fb.is_end, i == sends.len() - 1);
                assert!(fb.buffer.len() <= MAX_BUFFER_LENGTH);
                rebuilt.extend_from_slice(&fb.buffer);
            }
            other => panic!("client must send chunks, sent {:?}", other),
        }
    }
    assert_eq!(rebuilt, data);
}

#[test]
fn rejected_client_sends_nothing_and_completes() {
    let mut c = client_with(vec![1u8, 2, 3]);
    let sends = c.handle(&Message::Authorize(false));
    assert!(sends.is_empty());
    assert!(c.is_completed());
}

#[test]
fn phrase_does_not_complete_the_client() {
    let mut c = client_with(vec![1u8]);
    let sends = c.handle(&Message::Phrase(String::from("hello")));
    assert!(sends.is_empty());
    assert!(!c.is_completed());
}

#[test]
fn client_chunks_feed_server_to_identical_file() {
    let data: Vec<u8> = (0..30000u32).map(|i| (i * 13 % 256) as u8).collect();
    let mut c = client_with(data.clone());
    let mut s = server();
    for m in c.handle(&Message::Authorize(true)) {
        assert_eq!(s.handle(&m), HandlerAction::Silent);
    }
    assert_eq!(s.completed_file(&String::from("archive.zip")).unwrap(), &data);
}

#[test]
fn chunk_kind_resolves_the_dual_flag_case() {
    let mut fb = FileBuffer::new(String::from("n"), Vec::new());
    assert_eq!(chunk_kind(&fb), ChunkKind::Middle);
    fb.is_begin = true;
    assert_eq!(chunk_kind(&fb), ChunkKind::Begin);
    fb.is_end = true;
    assert_eq!(chunk_kind(&fb), ChunkKind::BeginAndEnd);
    fb.is_begin = false;
    assert_eq!(chunk_kind(&fb), ChunkKind::End);
}

//! Round trips and failure cases of the framing codec.

use backer::packet::message::{CodecError, FileBuffer, Message};

fn round_trip(m: Message) -> (Message, usize) {
    let bytes = m.try_encode().expect("message should encode");
    let (decoded, used) = Message::decode(&bytes).expect("frame should decode");
    assert_eq!(used, bytes.len());
    (decoded, used)
}

#[test]
fn phrase_round_trip() {
    let (decoded, _) = round_trip(Message::Phrase(String::from("hello peer")));
    match decoded {
        Message::Phrase(s) => assert_eq!(s, "hello peer"),
        other => panic!("wrong variant: {:?}", other),
    }
}

#[test]
fn phrase_round_trip_empty_string() {
    let (decoded, used) = round_trip(Message::Phrase(String::new()));
    assert_eq!(used, 3);
    match decoded {
        Message::Phrase(s) => assert_eq!(s, ""),
        other => panic!("wrong variant: {:?}", other),
    }
}

#[test]
fn phrase_round_trip_non_ascii() {
    let (decoded, _) = round_trip(Message::Phrase(String::from("école ☃ 備份")));
    match decoded {
        Message::Phrase(s) => assert_eq!(s, "école ☃ 備份"),
        other => panic!("wrong variant: {:?}", other),
    }
}

#[test]
fn auth_round_trip() {
    let (decoded, _) = round_trip(Message::Auth(String::from("backer")));
    match decoded {
        Message::Auth(s) => assert_eq!(s, "backer"),
        other => panic!("wrong variant: {:?}", other),
    }
}

#[test]
fn authorize_round_trip_both_values() {
    for value in [true, false] {
        let (decoded, used) = round_trip(Message::Authorize(value));
        assert_eq!(used, 4);
        match decoded {
            Message::Authorize(b) => assert_eq!(b, value),
            other => panic!("wrong variant: {:?}", other),
        }
    }
}

#[test]
fn complete_round_trip_both_values() {
    for value in [true, false] {
        let (decoded, _) = round_trip(Message::Complete(value));
        match decoded {
            Message::Complete(b) => assert_eq!(b, value),
            other => panic!("wrong variant: {:?}", other),
        }
    }
}

#[test]
fn file_buffer_round_trip() {
    let fb = FileBuffer {
        is_begin: true,
        is_end: false,
        file_name: String::from("archive.tar.gz"),
        buffer: vec![0u8, 1, 2, 254, 255],
    };
    let (decoded, _) = round_trip(Message::FileBuffer(fb.clone()));
    match decoded {
        Message::FileBuffer(out) => {
            assert_eq!(out.is_begin, true);
            assert_eq!(out.is_end, false);
            assert_eq!(out.file_name, "archive.tar.gz");
            assert_eq!(out.buffer, vec![0u8, 1, 2, 254, 255]);
        }
        other => panic!("wrong variant: {:?}", other),
    }
}

#[test]
fn file_buffer_round_trip_dual_flags_empty_buffer() {
    let fb = FileBuffer {
        is_begin: true,
        is_end: true,
        file_name: String::from("tiny"),
        buffer: Vec::new(),
    };
    let (decoded, _) = round_trip(Message::FileBuffer(fb));
    match decoded {
        Message::FileBuffer(out) => {
            assert!(out.is_begin && out.is_end);
            assert_eq!(out.file_name, "tiny");
            assert!(out.buffer.is_empty());
        }
        other => panic!("wrong variant: {:?}", other),
    }
}

#[test]
fn authorize_exact_bytes() {
    let bytes = Message::Authorize(true).try_encode().unwrap();
    assert_eq!(bytes, vec![2u8, 0, 1, 1]);
    let bytes = Message::Authorize(false).try_encode().unwrap();
    assert_eq!(bytes, vec![2u8, 0, 1, 0]);
}

#[test]
fn phrase_exact_bytes() {
    let bytes = Message::Phrase(String::from("hi")).try_encode().unwrap();
    assert_eq!(bytes, vec![0u8, 0, 2, b'h', b'i']);
}

#[test]
fn file_buffer_exact_bytes() {
    let fb = FileBuffer {
        is_begin: false,
        is_end: true,
        file_name: String::from("ab"),
        buffer: vec![9u8, 8],
    };
    let bytes = Message::FileBuffer(fb).try_encode().unwrap();
    // tag, payload length, flags, name length, name, content
    assert_eq!(bytes, vec![3u8, 0, 8, 0, 1, 0, 2, b'a', b'b', 9, 8]);
}

#[test]
fn decode_leaves_trailing_bytes() {
    let mut bytes = Message::Auth(String::from("s")).try_encode().unwrap();
    let frame_len = bytes.len();
    bytes.extend_from_slice(&[7u8, 7, 7]);
    let (decoded, used) = Message::decode(&bytes).unwrap();
    assert_eq!(used, frame_len);
    assert!(matches!(decoded, Message::Auth(s) if s == "s"));
}

#[test]
fn decode_empty_buffer_is_incomplete() {
    assert_eq!(Message::decode(&Vec::new()), Err(CodecError::Incomplete));
}

#[test]
fn decode_unknown_tag_is_invalid() {
    assert_eq!(Message::decode(&vec![5u8, 0, 0]), Err(CodecError::InvalidData));
    assert_eq!(Message::decode(&vec![255u8]), Err(CodecError::InvalidData));
}

#[test]
fn decode_short_header_is_incomplete() {
    assert_eq!(Message::decode(&vec![0u8]), Err(CodecError::Incomplete));
    assert_eq!(Message::decode(&vec![0u8, 0]), Err(CodecError::Incomplete));
}

#[test]
fn decode_truncated_payload_is_incomplete() {
    // announces 4 payload bytes, delivers 2
    assert_eq!(
        Message::decode(&vec![0u8, 0, 4, b'a', b'b']),
        Err(CodecError::Incomplete)
    );
}

#[test]
fn decode_invalid_utf8_is_invalid() {
    assert_eq!(
        Message::decode(&vec![0u8, 0, 2, 0xC3, 0x28]),
        Err(CodecError::InvalidData)
    );
    assert_eq!(
        Message::decode(&vec![1u8, 0, 1, 0xFF]),
        Err(CodecError::InvalidData)
    );
}

#[test]
fn decode_bad_boolean_byte_is_invalid() {
    assert_eq!(Message::decode(&vec![2u8, 0, 1, 2]), Err(CodecError::InvalidData));
    assert_eq!(Message::decode(&vec![4u8, 0, 1, 9]), Err(CodecError::InvalidData));
}

#[test]
fn decode_empty_boolean_payload_is_invalid() {
    assert_eq!(Message::decode(&vec![2u8, 0, 0]), Err(CodecError::InvalidData));
}

#[test]
fn decode_chunk_name_overrun_is_invalid() {
    // chunk payload of 5 bytes claims a 9-byte name
    assert_eq!(
        Message::decode(&vec![3u8, 0, 5, 1, 0, 0, 9, b'x']),
        Err(CodecError::InvalidData)
    );
}

#[test]
fn decode_chunk_bad_flag_is_invalid() {
    assert_eq!(
        Message::decode(&vec![3u8, 0, 4, 7, 0, 0, 0]),
        Err(CodecError::InvalidData)
    );
}

#[test]
fn try_encode_rejects_oversized_payload() {
    let fb = FileBuffer {
        is_begin: true,
        is_end: true,
        file_name: String::from("big"),
        buffer: vec![0u8; 70000],
    };
    assert!(Message::FileBuffer(fb).try_encode().is_none());
    let long_text: String = "x".repeat(70000);
    assert!(Message::Phrase(long_text).try_encode().is_none());
}

#[test]
fn type_tags_match_wire_taxonomy() {
    assert_eq!(Message::Phrase(String::new()).type_tag(), 0);
    assert_eq!(Message::Auth(String::new()).type_tag(), 1);
    assert_eq!(Message::Authorize(true).type_tag(), 2);
    assert_eq!(
        Message::FileBuffer(FileBuffer::new(String::new(), Vec::new())).type_tag(),
        3
    );
    assert_eq!(Message::Complete(false).type_tag(), 4);
}

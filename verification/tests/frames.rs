use rsrpc::frame::{encode_message, Frame, FrameReader, ReadOutcome};
use rsrpc::{decode_stream_header, encode_stream_header, FrameType, STREAM_HEADER_SIZE};

const KINDS: [FrameType; 5] = [
    FrameType::Request,
    FrameType::Response,
    FrameType::StreamItem,
    FrameType::StreamEnd,
    FrameType::StreamError,
];

/// Feeds a reader from `bytes` as a connection would, and returns the frames,
/// the number of invalid headers and whether the bytes end inside a frame.
fn read_all(bytes: &[u8]) -> (Vec<Frame>, usize, bool) {
    let mut reader = FrameReader::new();
    let mut frames = Vec::new();
    let mut invalid = 0;
    let mut at = 0;
    loop {
        let count = reader.wanted();
        if bytes.len() - at < count {
            return (frames, invalid, reader.interrupted());
        }
        match reader.accept(bytes[at..at + count].to_vec()) {
            ReadOutcome::Invalid => invalid += 1,
            ReadOutcome::HeaderRead => {}
            ReadOutcome::Complete(frame) => frames.push(frame),
        }
        at += count;
    }
}

#[test]
fn header_is_read_back() {
    let header = encode_stream_header(FrameType::StreamItem, 0x0102, 0x0102030405060708, 0x0a0b0c0d);
    assert_eq!(
        header,
        [2, 0x02, 0x01, 8, 7, 6, 5, 4, 3, 2, 1, 0x0d, 0x0c, 0x0b, 0x0a]
    );
    assert_eq!(
        decode_stream_header(&header),
        Some((FrameType::StreamItem, 0x0102, 0x0102030405060708, 0x0a0b0c0d))
    );
}

#[test]
fn every_frame_type_has_a_code() {
    assert_eq!(STREAM_HEADER_SIZE, 15);
    for (i, kind) in KINDS.into_iter().enumerate() {
        assert_eq!(kind.code(), i as u8);
        assert_eq!(FrameType::from_code(i as u8), Some(kind));
        let header = encode_stream_header(kind, u16::MAX, u64::MAX, u32::MAX);
        assert_eq!(
            decode_stream_header(&header),
            Some((kind, u16::MAX, u64::MAX, u32::MAX))
        );
    }
    for code in 5..=255u8 {
        assert_eq!(FrameType::from_code(code), None);
        let mut header = [0u8; STREAM_HEADER_SIZE];
        header[0] = code;
        assert_eq!(decode_stream_header(&header), None);
    }
}

#[test]
fn message_is_header_and_payload() {
    let message = encode_message(FrameType::Request, 7, 9, &[1, 2, 3]);
    assert_eq!(
        message,
        [0, 7, 0, 9, 0, 0, 0, 0, 0, 0, 0, 3, 0, 0, 0, 1, 2, 3]
    );
}

#[test]
fn frames_are_read_in_order() {
    let mut bytes = encode_message(FrameType::Request, 1, 10, b"first");
    bytes.extend(encode_message(FrameType::StreamEnd, 2, 11, b""));
    bytes.extend(encode_message(FrameType::Response, 3, 12, b"third"));
    let (frames, invalid, interrupted) = read_all(&bytes);
    assert_eq!(invalid, 0);
    assert!(!interrupted);
    assert_eq!(frames.len(), 3);
    assert_eq!(frames[0].frame_type, FrameType::Request);
    assert_eq!(frames[0].payload, b"first");
    assert_eq!(frames[1].frame_type, FrameType::StreamEnd);
    assert!(frames[1].payload.is_empty());
    assert_eq!(frames[2].method_id, 3);
    assert_eq!(frames[2].request_id, 12);
    assert_eq!(frames[2].payload, b"third");
}

#[test]
fn invalid_header_is_skipped_alone() {
    let mut bytes = vec![9u8; STREAM_HEADER_SIZE];
    bytes.extend(encode_message(FrameType::Response, 1, 2, b"ok"));
    let (frames, invalid, interrupted) = read_all(&bytes);
    assert_eq!(invalid, 1);
    assert_eq!(frames.len(), 1);
    assert_eq!(frames[0].payload, b"ok");
    assert!(!interrupted);
}

#[test]
fn end_inside_a_payload_is_an_interruption() {
    let bytes = encode_message(FrameType::Response, 1, 2, b"payload");
    let (frames, _, interrupted) = read_all(&bytes[..bytes.len() - 1]);
    assert!(frames.is_empty());
    assert!(interrupted);
    let (frames, _, interrupted) = read_all(&bytes[..STREAM_HEADER_SIZE - 1]);
    assert!(frames.is_empty());
    assert!(!interrupted);
}

use proxy_ssh::protocol::{
    read_frame, read_step, write_frame, FrameType, InvalidFrame, ReadError, ReadState, ReadStep,
    HEADER_SIZE, MAX_PAYLOAD, SOCK_BUF_SIZE,
};
use proxy_ssh::text::text_of;

const ALL: [(FrameType, u8); 7] = [
    (FrameType::Ping, 1),
    (FrameType::Pong, 2),
    (FrameType::NewConnection, 3),
    (FrameType::Close, 5),
    (FrameType::Auth, 6),
    (FrameType::AuthOk, 7),
    (FrameType::DataConnect, 8),
];

#[test]
fn type_codes() {
    for (frame_type, code) in ALL {
        assert_eq!(frame_type.code(), code);
        assert_eq!(FrameType::try_from(code), Ok(frame_type));
    }
}

#[test]
fn unknown_type_codes() {
    for code in 0..=255u8 {
        if !ALL.iter().any(|(_, known)| *known == code) {
            assert_eq!(FrameType::try_from(code), Err("unknown frame type"));
        }
    }
}

#[test]
fn sizes() {
    assert_eq!(HEADER_SIZE, 9);
    assert_eq!(MAX_PAYLOAD, 1_048_576);
    assert_eq!(SOCK_BUF_SIZE, 262_144);
}

#[test]
fn bytes_of_a_frame() {
    assert_eq!(
        write_frame(FrameType::Close, 0x0102_0304, b"xy"),
        vec![5, 1, 2, 3, 4, 0, 0, 0, 2, b'x', b'y']
    );
    assert_eq!(write_frame(FrameType::Ping, 0, b""), vec![1, 0, 0, 0, 0, 0, 0, 0, 0]);
    let long = write_frame(FrameType::Auth, u32::MAX, &vec![7u8; 0x1_0203]);
    assert_eq!(long[..9], [6, 255, 255, 255, 255, 0, 1, 2, 3]);
    assert_eq!(long.len(), 9 + 0x1_0203);
}

#[test]
fn reads_back_what_was_written() {
    for (frame_type, _) in ALL {
        for session_id in [0, 1, 255, 256, 0x0102_0304, u32::MAX] {
            for payload in [vec![], vec![0u8], vec![1u8; 300]] {
                let mut bytes = write_frame(frame_type, session_id, &payload);
                let n = bytes.len();
                bytes.extend_from_slice(b"what follows");
                assert_eq!(read_frame(&bytes), Ok(((frame_type, session_id, payload), n)));
            }
        }
    }
}

#[test]
fn reads_a_stream_of_frames() {
    let frames = vec![
        (FrameType::Auth, 0, b"secret".to_vec()),
        (FrameType::Ping, 0, vec![]),
        (FrameType::Close, 9, b"bye".to_vec()),
    ];
    let mut bytes = Vec::new();
    for (frame_type, session_id, payload) in &frames {
        bytes.extend(write_frame(*frame_type, *session_id, payload));
    }
    let mut read = Vec::new();
    let mut at = 0;
    while at < bytes.len() {
        let (frame, n) = read_frame(&bytes[at..]).unwrap();
        read.push(frame);
        at += n;
    }
    assert_eq!(read, frames);
    assert_eq!(read_frame(&bytes[at..]), Err(ReadError::UnexpectedEof));
}

#[test]
fn truncated_frames() {
    let bytes = write_frame(FrameType::Auth, 3, b"secret");
    for k in 0..bytes.len() {
        assert_eq!(read_frame(&bytes[..k]), Err(ReadError::UnexpectedEof));
    }
}

#[test]
fn unknown_type_is_refused() {
    for code in [0u8, 4, 9, 255] {
        let bytes = [code, 0, 0, 0, 0, 255, 255, 255, 255];
        assert_eq!(
            read_frame(&bytes),
            Err(ReadError::Invalid(InvalidFrame::UnknownFrameType))
        );
        assert_eq!(read_frame(&bytes[..8]), Err(ReadError::UnexpectedEof));
    }
    assert_eq!(InvalidFrame::UnknownFrameType.message(), "unknown frame type");
}

#[test]
fn largest_payload() {
    let bytes = write_frame(FrameType::Auth, 1, &vec![1u8; MAX_PAYLOAD]);
    let ((frame_type, session_id, payload), n) = read_frame(&bytes).unwrap();
    assert_eq!((frame_type, session_id, n), (FrameType::Auth, 1, MAX_PAYLOAD + 9));
    assert_eq!(payload, vec![1u8; MAX_PAYLOAD]);
}

#[test]
fn oversized_payload_is_refused() {
    let bytes = write_frame(FrameType::Auth, 1, &vec![1u8; MAX_PAYLOAD + 1]);
    let refused = Err(ReadError::Invalid(InvalidFrame::PayloadTooLarge));
    assert_eq!(read_frame(&bytes), refused);
    assert_eq!(read_frame(&bytes[..9]), refused);
    assert_eq!(InvalidFrame::PayloadTooLarge.message(), "payload too large");
}

#[test]
fn reading_step_by_step() {
    assert_eq!(ReadState::Header.wanted(), 9);
    let bytes = write_frame(FrameType::DataConnect, 77, &[0, 0, 0, 77]);
    match read_step(ReadState::Header, &bytes[..9]) {
        ReadStep::More(state) => {
            assert_eq!(
                state,
                ReadState::Payload { frame_type: FrameType::DataConnect, session_id: 77, len: 4 }
            );
            assert_eq!(state.wanted(), 4);
            match read_step(state, &bytes[9..]) {
                ReadStep::Frame(frame) => {
                    assert_eq!(frame, (FrameType::DataConnect, 77, vec![0, 0, 0, 77]))
                }
                _ => panic!("no frame"),
            }
        }
        _ => panic!("no payload wanted"),
    }
    match read_step(ReadState::Header, &write_frame(FrameType::Pong, 1, b"")) {
        ReadStep::Frame(frame) => assert_eq!(frame, (FrameType::Pong, 1, vec![])),
        _ => panic!("no frame"),
    }
    match read_step(ReadState::Header, &[4, 0, 0, 0, 0, 0, 0, 0, 0]) {
        ReadStep::Invalid(e) => assert_eq!(e, InvalidFrame::UnknownFrameType),
        _ => panic!("not refused"),
    }
    match read_step(ReadState::Header, &[1, 0, 0, 0, 0, 0, 16, 0, 1]) {
        ReadStep::Invalid(e) => assert_eq!(e, InvalidFrame::PayloadTooLarge),
        _ => panic!("not refused"),
    }
}

#[test]
fn text_of_payloads() {
    assert_eq!(text_of("Grüße, 密钥".as_bytes()), "Grüße, 密钥");
    assert_eq!(text_of(b""), "");
    assert_eq!(text_of(b"a\xffb"), "a\u{FFFD}b");
    assert_eq!(text_of(b"\xe5\xaf"), "\u{FFFD}");
}

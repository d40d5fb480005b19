use socket_swap::multiplex::{
    create_multiplexed_frame, encode_line_bytes, encode_log_frame, encode_log_line, StreamType,
};

#[test]
fn frame_header_layout() {
    let frame = encode_log_frame(StreamType::Stdout, b"hello");
    assert_eq!(frame, vec![1, 0, 0, 0, 0, 0, 0, 5, b'h', b'e', b'l', b'l', b'o']);
}

#[test]
fn frame_for_stderr_and_long_payload() {
    let data = vec![7u8; 300];
    let frame = encode_log_frame(StreamType::Stderr, &data);
    assert_eq!(frame.len(), 308);
    assert_eq!(&frame[..8], &[2, 0, 0, 0, 0, 0, 1, 44]);
    assert_eq!(&frame[8..], &data[..]);
}

#[test]
fn frame_of_empty_payload() {
    assert_eq!(encode_log_frame(StreamType::Stdout, b""), vec![1, 0, 0, 0, 0, 0, 0, 0]);
}

#[test]
fn log_line_gets_one_newline() {
    let frame = encode_log_line(StreamType::Stdout, "abc");
    assert_eq!(frame, vec![1, 0, 0, 0, 0, 0, 0, 4, b'a', b'b', b'c', b'\n']);
    let again = encode_log_line(StreamType::Stdout, "abc\n");
    assert_eq!(again, frame);
}

#[test]
fn empty_log_line_is_a_newline() {
    assert_eq!(encode_log_line(StreamType::Stdout, ""), vec![1, 0, 0, 0, 0, 0, 0, 1, b'\n']);
}

#[test]
fn log_line_with_non_ascii_text() {
    let frame = encode_log_line(StreamType::Stdout, "é");
    assert_eq!(frame, vec![1, 0, 0, 0, 0, 0, 0, 3, 0xc3, 0xa9, b'\n']);
}

#[test]
fn line_bytes_frame_matches_line_frame() {
    assert_eq!(
        encode_line_bytes(StreamType::Stderr, b"x\r"),
        encode_log_line(StreamType::Stderr, "x\r")
    );
}

#[test]
fn multiplexed_frame_matches_encoded_frame() {
    let buf = create_multiplexed_frame(StreamType::Stdout, b"data");
    assert_eq!(&buf[..], &encode_log_frame(StreamType::Stdout, b"data")[..]);
    let buf = create_multiplexed_frame(StreamType::Stderr, &[9u8; 70000]);
    assert_eq!(&buf[..8], &[2, 0, 0, 0, 0, 1, 0x11, 0x70]);
    assert_eq!(buf.len(), 70008);
}

#[test]
fn stream_codes() {
    assert_eq!(StreamType::Stdout.code(), 1);
    assert_eq!(StreamType::Stderr.code(), 2);
}

use socket_swap::logs::{encode_log_chunk, encode_log_text, log_request, LogRequest};
use socket_swap::multiplex::{encode_log_line, StreamType};
use socket_swap::pods::stream_line_chunk;

fn frames(lines: &[&str]) -> Vec<u8> {
    let mut out = Vec::new();
    for l in lines {
        out.extend(encode_log_line(StreamType::Stdout, l));
    }
    out
}

#[test]
fn text_is_framed_line_by_line() {
    assert_eq!(encode_log_text("a\nbb\n"), frames(&["a", "bb"]));
    assert_eq!(encode_log_text("a\nbb"), frames(&["a", "bb"]));
    assert_eq!(encode_log_text(""), Vec::<u8>::new());
    assert_eq!(encode_log_text("\n"), frames(&[""]));
    assert_eq!(encode_log_text("a\n\nb"), frames(&["a", "", "b"]));
}

#[test]
fn text_lines_match_str_lines() {
    for text in ["x\r\ny\r\n", "one\rtwo\n", "trail\r", "\r\n", "é\nü", "a\n\n\n"] {
        let expected: Vec<&str> = text.lines().collect();
        assert_eq!(encode_log_text(text), frames(&expected), "text {:?}", text);
    }
}

#[test]
fn final_newline_is_optional() {
    assert_eq!(encode_log_text("abc\ndef"), encode_log_text("abc\ndef\n"));
}

#[test]
fn chunks_are_framed() {
    assert_eq!(encode_log_chunk(b"line\n"), encode_log_line(StreamType::Stdout, "line\n"));
    assert_eq!(encode_log_chunk(b"line"), encode_log_line(StreamType::Stdout, "line"));
    assert_eq!(encode_log_chunk(&[0xff, 0xfe]), encode_log_line(StreamType::Stdout, ""));
    assert_eq!(encode_log_chunk(&[0xff, 0xfe]), vec![1, 0, 0, 0, 0, 0, 0, 1, b'\n']);
}

#[test]
fn streamed_lines_get_a_newline() {
    assert_eq!(stream_line_chunk("abc"), b"abc\n".to_vec());
    assert_eq!(encode_log_chunk(&stream_line_chunk("abc")), encode_log_line(StreamType::Stdout, "abc"));
}

#[test]
fn log_request_keeps_tail_when_following() {
    assert_eq!(log_request(true, Some(10)), LogRequest::Follow { tail_lines: Some(10) });
    assert_eq!(log_request(true, None), LogRequest::Follow { tail_lines: None });
    assert_eq!(log_request(false, Some(5)), LogRequest::Read { tail_lines: Some(5) });
    assert_eq!(log_request(false, None), LogRequest::Read { tail_lines: None });
}

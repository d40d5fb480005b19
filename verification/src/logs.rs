//! Container logs in Docker's multiplexed stream format.
//!
//! Logs read at once are cut into lines as `str::lines` does (at `\n`,
//! dropping a `\r` before it, with an optional final line ending) and each
//! line becomes one stdout frame. Logs followed as they come arrive in chunks;
//! each chunk becomes one stdout frame.

use vstd::prelude::*;
use vstd::utf8::*;
use vstd::string::*;
use crate::multiplex::{StreamType, encode_line_bytes, encode_log_line, line_payload, log_frame};

verus! {

/// A line without the carriage return that ends it, if any.
pub open spec fn strip_cr(line: Seq<u8>) -> Seq<u8> {
    if line.len() > 0 && line.last() == 13u8 {
        line.drop_last()
    } else {
        line
    }
}

/// The lines of `b` from position `i` on, the current line having started at
/// `start`.
pub open spec fn lines_from(b: Seq<u8>, start: int, i: int) -> Seq<Seq<u8>>
    decreases b.len() - i,
{
    if i >= b.len() {
        if 0 <= start < b.len() {
            seq![b.subrange(start, b.len() as int)]
        } else {
            seq![]
        }
    } else if b[i] == 10u8 {
        seq![strip_cr(b.subrange(start, i))] + lines_from(b, i + 1, i + 1)
    } else {
        lines_from(b, start, i + 1)
    }
}

/// The lines of a text, as `str::lines` gives them.
pub open spec fn text_lines(b: Seq<u8>) -> Seq<Seq<u8>> {
    lines_from(b, 0, 0)
}

/// One frame per line, in order.
pub open spec fn frames_of_lines(stream: StreamType, lines: Seq<Seq<u8>>) -> Seq<u8>
    decreases lines.len(),
{
    if lines.len() == 0 {
        seq![]
    } else {
        log_frame(stream, line_payload(lines[0])) + frames_of_lines(stream, lines.drop_first())
    }
}

proof fn lemma_frames_of_lines_cons(stream: StreamType, x: Seq<u8>, rest: Seq<Seq<u8>>)
    ensures
        frames_of_lines(stream, seq![x] + rest) == log_frame(stream, line_payload(x))
            + frames_of_lines(stream, rest),
{
    assert((seq![x] + rest).drop_first() =~= rest);
    assert((seq![x] + rest)[0] == x);
}

/// Encodes logs read at once: one stdout frame per line.
pub fn encode_log_text(logs: &str) -> (out: Vec<u8>)
    ensures
        out@ == frames_of_lines(StreamType::Stdout, text_lines(logs.spec_bytes())),
{
    let b = logs.as_bytes();
    let ghost all = frames_of_lines(StreamType::Stdout, text_lines(b@));
    let mut out: Vec<u8> = Vec::new();
    let mut start: usize = 0;
    let mut i: usize = 0;
    while i < b.len()
        invariant
            start <= i <= b@.len(),
            all == frames_of_lines(StreamType::Stdout, text_lines(b@)),
            all == out@ + frames_of_lines(StreamType::Stdout, lines_from(b@, start as int, i as int)),
        decreases b@.len() - i,
    {
        if b[i] == 10u8 {
            let mut end = i;
            if end > start && b[end - 1] == 13u8 {
                end = end - 1;
            }
            let line = vstd::slice::slice_subrange(b, start, end);
            proof {
                assert(line@ =~= strip_cr(b@.subrange(start as int, i as int)));
                lemma_frames_of_lines_cons(
                    StreamType::Stdout,
                    line@,
                    lines_from(b@, i + 1, i + 1),
                );
            }
            let frame = encode_line_bytes(StreamType::Stdout, line);
            crate::text::push_all(&mut out, frame.as_slice());
            start = i + 1;
        }
        i = i + 1;
    }
    if start < b.len() {
        let line = vstd::slice::slice_subrange(b, start, b.len());
        proof {
            lemma_frames_of_lines_cons(StreamType::Stdout, line@, Seq::empty());
            assert(seq![line@] + Seq::<Seq<u8>>::empty() =~= seq![line@]);
        }
        let frame = encode_line_bytes(StreamType::Stdout, line);
        crate::text::push_all(&mut out, frame.as_slice());
    }
    proof {
        assert(out@ =~= all);
    }
    out
}

/// `std::str::from_utf8`: the text that the bytes encode, or `None` when they
/// are not valid UTF-8.
#[verifier::external_body]
fn utf8_text(bytes: &[u8]) -> (text: Option<&str>)
    ensures
        text is Some <==> valid_utf8(bytes@),
        text matches Some(t) ==> t.spec_bytes() == bytes@,
{
    std::str::from_utf8(bytes).ok()
}

/// The text a followed log chunk is sent as: the chunk itself when it is
/// valid UTF-8, else nothing.
pub open spec fn chunk_text(chunk: Seq<u8>) -> Seq<u8> {
    if valid_utf8(chunk) {
        chunk
    } else {
        seq![]
    }
}

/// Encodes one chunk of followed logs as one stdout frame.
pub fn encode_log_chunk(chunk: &[u8]) -> (frame: Vec<u8>)
    ensures
        frame@ == log_frame(StreamType::Stdout, line_payload(chunk_text(chunk@))),
{
    match utf8_text(chunk) {
        Some(text) => encode_log_line(StreamType::Stdout, text),
        None => {
            proof {
                reveal_strlit("");
                assert(""@ =~= Seq::<char>::empty());
                assert(encode_utf8(""@) =~= Seq::<u8>::empty());
            }
            encode_log_line(StreamType::Stdout, "")
        },
    }
}

/// How the logs of a container are asked of Kubernetes.
#[derive(Debug, Clone, PartialEq, Eq)]
pub enum LogRequest {
    /// Follow the logs as they come, starting with the last `tail_lines`
    /// lines (all of them when `None`); each chunk is sent as it arrives.
    Follow { tail_lines: Option<i64> },
    /// Read the logs once, only the last `tail_lines` lines when given; the
    /// text is sent as one line per frame.
    Read { tail_lines: Option<i64> },
}

/// The request for the logs of `GET /containers/{id}/logs` with the given
/// `follow` and `tail` parameters: followed when `follow` is set, read once
/// otherwise, keeping `tail` either way.
pub fn log_request(follow: bool, tail: Option<i64>) -> (r: LogRequest)
    ensures
        follow ==> r == (LogRequest::Follow { tail_lines: tail }),
        !follow ==> r == (LogRequest::Read { tail_lines: tail }),
{
    if follow {
        LogRequest::Follow { tail_lines: tail }
    } else {
        LogRequest::Read { tail_lines: tail }
    }
}

} // verus!

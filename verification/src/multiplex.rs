//! Docker's multiplexed stream format.
//!
//! Every frame starts with an 8-byte header: the stream the payload belongs
//! to, three reserved zero bytes, and the payload length as a big-endian
//! 32-bit number. The payload follows the header.

use vstd::prelude::*;
use bytes::BufMut;
use bytes::BytesMut;
use vstd::string::*;

verus! {

/// The output streams that a multiplexed frame can belong to.
#[derive(Debug, Clone, Copy, PartialEq, Eq)]
pub enum StreamType {
    Stdout,
    Stderr,
}

impl StreamType {
    /// The byte that names the stream in a frame header.
    pub open spec fn header_byte(self) -> u8 {
        match self {
            StreamType::Stdout => 1,
            StreamType::Stderr => 2,
        }
    }

    /// The byte that names the stream in a frame header.
    pub fn code(&self) -> (b: u8)
        ensures
            b == self.header_byte(),
    {
        match self {
            StreamType::Stdout => 1,
            StreamType::Stderr => 2,
        }
    }
}

/// The four big-endian bytes of `n`.
pub open spec fn be32(n: u32) -> Seq<u8> {
    seq![
        ((n >> 24u32) & 0xffu32) as u8,
        ((n >> 16u32) & 0xffu32) as u8,
        ((n >> 8u32) & 0xffu32) as u8,
        (n & 0xffu32) as u8,
    ]
}

/// The header of a frame whose payload is `len` bytes long. The length field
/// holds `len` cast to `u32`, that is `len` modulo 2^32.
pub open spec fn frame_header(stream: StreamType, len: nat) -> Seq<u8> {
    seq![stream.header_byte(), 0u8, 0u8, 0u8] + be32(len as u32)
}

/// A whole frame: header, then payload.
pub open spec fn log_frame(stream: StreamType, data: Seq<u8>) -> Seq<u8> {
    frame_header(stream, data.len()) + data
}

/// A log line as it is sent: the line itself if it already ends with a
/// newline, else the line followed by one.
pub open spec fn line_payload(line: Seq<u8>) -> Seq<u8> {
    if line.len() > 0 && line.last() == 10u8 {
        line
    } else {
        line.push(10u8)
    }
}

/// The big-endian number held by four bytes.
pub open spec fn be32_value(b: Seq<u8>) -> int {
    b[0] * 0x100_0000 + b[1] * 0x1_0000 + b[2] * 0x100 + b[3]
}

fn push_be32(frame: &mut Vec<u8>, n: u32)
    ensures
        final(frame)@ == old(frame)@ + be32(n),
{
    frame.push(((n >> 24u32) & 0xffu32) as u8);
    frame.push(((n >> 16u32) & 0xffu32) as u8);
    frame.push(((n >> 8u32) & 0xffu32) as u8);
    frame.push((n & 0xffu32) as u8);
    assert(frame@ =~= old(frame)@ + be32(n));
}

fn truncated_len(len: usize) -> (n: u32)
    ensures
        n == (len as nat) as u32,
{
    #[verifier::truncate] (len as u32)
}

/// Encodes `data` as one frame of Docker's multiplexed stream format.
pub fn encode_log_frame(stream_type: StreamType, data: &[u8]) -> (frame: Vec<u8>)
    ensures
        frame@ == log_frame(stream_type, data@),
{
    let capacity = if data.len() <= usize::MAX - 8 {
        data.len() + 8
    } else {
        data.len()
    };
    let mut frame: Vec<u8> = Vec::with_capacity(capacity);
    frame.push(stream_type.code());
    frame.push(0u8);
    frame.push(0u8);
    frame.push(0u8);
    push_be32(&mut frame, truncated_len(data.len()));
    crate::text::push_all(&mut frame, data);
    assert(frame@ =~= log_frame(stream_type, data@));
    frame
}

/// Encodes the bytes of a log line as one frame, adding a trailing newline
/// when the line has none.
pub fn encode_line_bytes(stream_type: StreamType, line: &[u8]) -> (frame: Vec<u8>)
    ensures
        frame@ == log_frame(stream_type, line_payload(line@)),
{
    let mut data: Vec<u8> = Vec::new();
    crate::text::push_all(&mut data, line);
    assert(data@ =~= line@);
    let n = data.len();
    if !(n > 0 && data[n - 1] == 10u8) {
        data.push(10u8);
    }
    encode_log_frame(stream_type, data.as_slice())
}

/// Encodes a log line as one frame, adding a trailing newline to the line
/// when it has none.
pub fn encode_log_line(stream_type: StreamType, line: &str) -> (frame: Vec<u8>)
    ensures
        frame@ == log_frame(stream_type, line_payload(line.spec_bytes())),
{
    encode_line_bytes(stream_type, line.as_bytes())
}

#[verifier::external_type_specification]
#[verifier::external_body]
pub struct ExBytesMut(BytesMut);

/// The bytes that a `BytesMut` buffer holds, in order.
pub uninterp spec fn buffer_contents(buf: BytesMut) -> Seq<u8>;

/// `BytesMut::with_capacity`: a new buffer that holds nothing.
#[verifier::external_body]
fn buffer_with_capacity(capacity: usize) -> (buf: BytesMut)
    requires
        capacity <= isize::MAX,
    ensures
        buffer_contents(buf) == Seq::<u8>::empty(),
{
    BytesMut::with_capacity(capacity)
}

/// `BufMut::put_u8` on a `BytesMut`: appends one byte.
#[verifier::external_body]
fn buffer_put_u8(buf: &mut BytesMut, n: u8)
    requires
        buffer_contents(*old(buf)).len() + 1 <= isize::MAX,
    ensures
        buffer_contents(*final(buf)) == buffer_contents(*old(buf)).push(n),
{
    buf.put_u8(n)
}

/// `BufMut::put_slice` on a `BytesMut`: appends the bytes of `src`.
#[verifier::external_body]
fn buffer_put_slice(buf: &mut BytesMut, src: &[u8])
    requires
        buffer_contents(*old(buf)).len() + src@.len() <= isize::MAX,
    ensures
        buffer_contents(*final(buf)) == buffer_contents(*old(buf)) + src@,
{
    buf.put_slice(src)
}

/// `BufMut::put_u32` on a `BytesMut`: appends `n` in big-endian byte order.
#[verifier::external_body]
fn buffer_put_u32(buf: &mut BytesMut, n: u32)
    requires
        buffer_contents(*old(buf)).len() + 4 <= isize::MAX,
    ensures
        buffer_contents(*final(buf)) == buffer_contents(*old(buf)) + be32(n),
{
    buf.put_u32(n)
}

/// Encodes `data` as one frame into a `BytesMut` buffer.
pub fn create_multiplexed_frame(stream_type: StreamType, data: &[u8]) -> (buf: BytesMut)
    requires
        data@.len() + 8 <= isize::MAX,
    ensures
        buffer_contents(buf) == log_frame(stream_type, data@),
{
    let mut buf = buffer_with_capacity(8 + data.len());
    buffer_put_u8(&mut buf, stream_type.code());
    let reserved: [u8; 3] = [0u8, 0u8, 0u8];
    buffer_put_slice(&mut buf, reserved.as_slice());
    buffer_put_u32(&mut buf, truncated_len(data.len()));
    buffer_put_slice(&mut buf, data);
    assert(buffer_contents(buf) =~= log_frame(stream_type, data@));
    buf
}

} // verus!

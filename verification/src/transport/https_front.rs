//! The web site that browsers see on the TLS port.

use vstd::prelude::*;

use crate::buffer::bytes_from_vec;
use crate::protocol::error::FrameError;
use crate::protocol::frame::{
    frame_fault, header_fault, law_frame_roundtrip, law_header_agrees, Frame, HEADER_SIZE, MAX_PAYLOAD_SIZE,
    PROTOCOL_VERSION,
};
use crate::text::{decimal, decimal_chars, utf8_bytes};
use crate::wire::{be_value, lemma_be_bytes_len, same_bytes};

verus! {

/// `http/1.1`.
pub const HTTP_ALPN: [u8; 8] = [104, 116, 116, 112, 47, 49, 46, 49];

/// The longest request that is read before the answer.
pub const MAX_REQUEST: usize = 32 * 1024;

pub const CAMOUFLAGE_HTML: &'static str = "<!DOCTYPE html>
<html lang=\"en\">
<head>
<meta charset=\"utf-8\">
<meta name=\"viewport\" content=\"width=device-width, initial-scale=1\">
<title>PAYPHONE</title>
<style>
  html, body { margin: 0; background: #000; color: #00ff41; font-family: ui-monospace, monospace; }
  main { max-width: 40rem; margin: 12vh auto; padding: 0 1.5rem; }
  h1 { font-weight: 400; letter-spacing: 0.2em; }
  p { opacity: 0.8; }
</style>
</head>
<body>
<main>
<h1>PAYPHONE</h1>
<p>Follow the white rabbit.</p>
</main>
</body>
</html>
";

/// The header up to the length of the page.
pub const RESPONSE_START: &'static str = "HTTP/1.1 200 OK\r\nContent-Type: text/html; charset=utf-8\r\nContent-Length: ";

/// The header from there on.
pub const RESPONSE_END: &'static str = "\r\nConnection: close\r\nCache-Control: no-store\r\n\r\n";

/// The page with its header, which tells its length in bytes.
pub open spec fn response() -> Seq<u8> {
    let body = vstd::utf8::encode_utf8(CAMOUFLAGE_HTML@);
    vstd::utf8::encode_utf8(RESPONSE_START@) + vstd::utf8::encode_utf8(decimal(body.len()))
        + vstd::utf8::encode_utf8(RESPONSE_END@) + body
}

pub fn camouflage_http_response() -> (out: Vec<u8>)
    ensures
        out@ == response(),
{
    let body = CAMOUFLAGE_HTML.as_bytes();
    let mut out: Vec<u8> = Vec::new();
    out.extend_from_slice(RESPONSE_START.as_bytes());
    out.extend_from_slice(&utf8_bytes(&decimal_chars(body.len() as u64)));
    out.extend_from_slice(RESPONSE_END.as_bytes());
    out.extend_from_slice(body);
    assert(out@ =~= response());
    out
}

/// Whether the first byte of a connection is that of a web request: anything
/// but a frame of ours.
pub fn looks_like_http(first: u8) -> (yes: bool)
    ensures
        yes == (first != PROTOCOL_VERSION),
{
    first != PROTOCOL_VERSION
}

/// Whether `s` holds an empty line.
pub open spec fn holds_empty_line(s: Seq<u8>) -> bool {
    exists|i: int| 0 <= i && i + 4 <= s.len() && #[trigger] s.subrange(i, i + 4) == seq![13u8, 10, 13, 10]
}

/// Whether a request is to be answered: it is complete, or too long.
pub fn request_is_over(request: &[u8]) -> (over: bool)
    ensures
        over == (request@.len() >= MAX_REQUEST || holds_empty_line(request@)),
{
    if request.len() >= MAX_REQUEST {
        return true;
    }
    let mark: [u8; 4] = [13, 10, 13, 10];
    assert(mark@ =~= seq![13u8, 10, 13, 10]);
    let mut i: usize = 0;
    while request.len() - i >= 4
        invariant
            i <= request.len(),
            mark@ == seq![13u8, 10, 13, 10],
            forall|j: int|
                0 <= j < i && j + 4 <= request@.len() ==> #[trigger] request@.subrange(j, j + 4) != seq![
                    13u8,
                    10,
                    13,
                    10,
                ],
        decreases request.len() - i,
    {
        if same_bytes(vstd::slice::slice_subrange(request, i, i + 4), &mark) {
            return true;
        }
        i = i + 1;
    }
    false
}

/// What the first bytes of a connection call for.
#[derive(Debug, Clone, Copy, PartialEq, Eq, Structural)]
pub enum Opening {
    /// The page.
    Page,
    /// So many bytes more, which end the first frame.
    Frame(usize),
    /// No frame of ours.
    Refuse(FrameError),
}

/// Tells a web request from a frame, by the size of a frame header.
pub fn open_front(header: &[u8; HEADER_SIZE]) -> (opening: Opening)
    ensures
        opening == (if header@[0] != PROTOCOL_VERSION {
            Opening::Page
        } else {
            match header_fault(header@) {
                Some(error) => Opening::Refuse(error),
                None => Opening::Frame(be_value(header@.subrange(4, 8)) as usize),
            }
        }),
{
    if looks_like_http(header[0]) {
        return Opening::Page;
    }
    match Frame::payload_len_from_header(header) {
        Ok(len) => Opening::Frame(len),
        Err(error) => Opening::Refuse(error),
    }
}

/// The frame of a header and the bytes that followed it on the stream.
pub fn finish_payphone_frame(header: &[u8; HEADER_SIZE], payload: &[u8]) -> (frame: Result<Frame, FrameError>)
    ensures
        match frame {
            Ok(frame) => frame_fault(header@ + payload@) is None && frame.wire() == header@ + payload@,
            Err(error) => frame_fault(header@ + payload@) == Some(error),
        },
{
    let mut buffer: Vec<u8> = Vec::new();
    buffer.extend_from_slice(header);
    buffer.extend_from_slice(payload);
    assert(buffer@ =~= header@ + payload@);
    Frame::decode(bytes_from_vec(buffer))
}

/// A frame that is written to a stream is read from it again: its header
/// tells how much follows, and header and payload give the same bytes back.
pub proof fn law_stream_carries_frames(frame: Frame, header: Seq<u8>, payload: Seq<u8>)
    requires
        frame.version == PROTOCOL_VERSION,
        frame.data().len() <= MAX_PAYLOAD_SIZE,
        header == frame.wire().take(HEADER_SIZE as int),
        payload == frame.wire().skip(HEADER_SIZE as int),
    ensures
        header_fault(header) is None,
        be_value(header.subrange(4, 8)) == payload.len(),
        payload == frame.data(),
        frame_fault(header + payload) is None,
        header + payload == frame.wire(),
{
    law_frame_roundtrip(frame, frame);
    lemma_frame_parts(frame);
    assert(header + payload =~= frame.wire());
    assert(header.subrange(4, 8) =~= frame.wire().subrange(4, 8));
    law_header_agrees(frame.wire());
}

proof fn lemma_frame_parts(frame: Frame)
    ensures
        frame.wire().len() == HEADER_SIZE + frame.data().len(),
        frame.wire().skip(HEADER_SIZE as int) == frame.data(),
{
    lemma_be_bytes_len(frame.flags as nat, 2);
    lemma_be_bytes_len(frame.data().len(), 4);
    lemma_be_bytes_len(frame.sequence as nat, 8);
    assert(frame.wire().skip(16) =~= frame.data());
}

} // verus!

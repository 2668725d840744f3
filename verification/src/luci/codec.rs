//! Luci frame codec — a 10-byte header followed by a UTF-8 payload.
//!
//! ```text
//! byte 0..1  remoteID (u16, always 0)
//! byte 2     commandType (1 = READ, 2 = WRITE)
//! byte 3..4  command
//! byte 5     status
//! byte 6..7  CRC (0 on send)
//! byte 8..9  dataLen (payload length)
//! ```
//!
//! Requests carry `command` and `dataLen` little-endian; responses carry them
//! big-endian. A single read can hold several concatenated frames, so decoding
//! works off a running buffer: a frame is consumed only once `10 + dataLen`
//! bytes are present.

use vstd::prelude::*;
use vstd::utf8::*;
use vstd::string::*;
use vstd::slice::*;

verus! {

/// Fixed header length preceding every payload.
pub const HEADER_LEN: usize = 10;

/// A decoded Luci frame.
#[derive(Debug, Clone, PartialEq, Eq)]
pub struct Frame {
    /// Command id (`MessageBox`), read big-endian from a response.
    pub command: u16,
    /// 1 = READ, 2 = WRITE.
    pub command_type: u8,
    /// Response status; `1` = OK.
    pub status: u8,
    /// The payload, decoded as UTF-8 with malformed sequences replaced.
    pub payload: String,
}

/// The mathematical content of a [`Frame`].
pub struct FrameSpec {
    pub command: u16,
    pub command_type: u8,
    pub status: u8,
    pub payload: Seq<char>,
}

impl Frame {
    pub open spec fn spec(&self) -> FrameSpec {
        FrameSpec {
            command: self.command,
            command_type: self.command_type,
            status: self.status,
            payload: self.payload@,
        }
    }
}

/// What `String::from_utf8_lossy` makes of a sequence that is not valid UTF-8.
pub uninterp spec fn utf8_lossy_invalid(bytes: Seq<u8>) -> Seq<char>;

/// Lossy UTF-8 decoding: exact decoding when the bytes are valid UTF-8.
pub open spec fn utf8_lossy(bytes: Seq<u8>) -> Seq<char> {
    if valid_utf8(bytes) {
        decode_utf8(bytes)
    } else {
        utf8_lossy_invalid(bytes)
    }
}

/// `String::from_utf8_lossy(..).into_owned()`: valid UTF-8 decodes exactly;
/// what replaces malformed sequences is left to the named result.
#[verifier::external_body]
pub(crate) fn string_from_utf8_lossy(bytes: &[u8]) -> (s: String)
    ensures
        valid_utf8(bytes@) ==> s@ == decode_utf8(bytes@),
        !valid_utf8(bytes@) ==> s@ == utf8_lossy_invalid(bytes@),
{
    String::from_utf8_lossy(bytes).into_owned()
}

/// The bytes of a request frame (command and length little-endian; the length
/// field holds the payload length modulo 2^16).
pub open spec fn request_bytes(command: u16, command_type: u8, payload: Seq<u8>) -> Seq<u8> {
    let len = payload.len() % 65536;
    seq![
        0u8,
        0u8,
        command_type,
        (command % 256) as u8,
        (command / 256) as u8,
        0u8,
        0u8,
        0u8,
        (len % 256) as u8,
        (len / 256) as u8,
    ] + payload
}

/// The bytes of a response frame as a device sends it (command and length
/// big-endian).
pub open spec fn response_bytes(command: u16, command_type: u8, status: u8, payload: Seq<u8>) -> Seq<u8> {
    seq![
        0u8,
        0u8,
        command_type,
        (command / 256) as u8,
        (command % 256) as u8,
        status,
        0u8,
        0u8,
        (payload.len() / 256) as u8,
        (payload.len() % 256) as u8,
    ] + payload
}

/// Total length a response header announces: header plus big-endian `dataLen`.
pub open spec fn announced_len(buf: Seq<u8>) -> int {
    HEADER_LEN as int + buf[8] as int * 256 + buf[9] as int
}

/// Decoding one response frame from the front of `buf`: `None` while the
/// buffer does not hold a full frame, else the frame and the bytes it spans.
pub open spec fn spec_decode(buf: Seq<u8>) -> Option<(FrameSpec, int)> {
    if buf.len() < HEADER_LEN || buf.len() < announced_len(buf) {
        None
    } else {
        let total = announced_len(buf);
        Some(
            (
                FrameSpec {
                    command: (buf[3] as int * 256 + buf[4] as int) as u16,
                    command_type: buf[2],
                    status: buf[5],
                    payload: utf8_lossy(buf.subrange(HEADER_LEN as int, total)),
                },
                total,
            ),
        )
    }
}

/// Draining a buffer: every complete frame in order, and the partial tail.
pub open spec fn spec_drain(buf: Seq<u8>) -> (Seq<FrameSpec>, Seq<u8>)
    decreases buf.len(),
{
    match spec_decode(buf) {
        Some((f, n)) => {
            if HEADER_LEN <= n <= buf.len() {
                let rest = spec_drain(buf.subrange(n, buf.len() as int));
                (seq![f] + rest.0, rest.1)
            } else {
                (Seq::empty(), buf)
            }
        },
        None => (Seq::empty(), buf),
    }
}

/// Encode a request frame: `command` and `dataLen` little-endian, status and
/// CRC zeroed.
pub fn encode(command: u16, command_type: u8, payload: &str) -> (out: Vec<u8>)
    ensures
        out@ == request_bytes(command, command_type, payload.spec_bytes()),
{
    let mut bytes = payload.as_bytes_vec();
    let len: usize = bytes.len() % 65536;
    let mut out: Vec<u8> = Vec::with_capacity(HEADER_LEN);
    out.push(0);
    out.push(0);
    out.push(command_type);
    out.push((command % 256) as u8);
    out.push((command / 256) as u8);
    out.push(0);
    out.push(0);
    out.push(0);
    out.push((len % 256) as u8);
    out.push((len / 256) as u8);
    out.append(&mut bytes);
    assert(out@ =~= request_bytes(command, command_type, payload.spec_bytes()));
    out
}

/// Decode one response frame from the front of `buf`: `command` and `dataLen`
/// big-endian. Returns the frame and the number of bytes consumed, or `None`
/// when `buf` does not yet hold a full frame.
pub fn decode_frame(buf: &[u8]) -> (r: Option<(Frame, usize)>)
    ensures
        match r {
            Some((f, n)) => spec_decode(buf@) == Some((f.spec(), n as int)),
            None => spec_decode(buf@) is None,
        },
{
    if buf.len() < HEADER_LEN {
        return None;
    }
    let command: u16 = (buf[3] as u16) * 256 + buf[4] as u16;
    let command_type = buf[2];
    let status = buf[5];
    let len: usize = (buf[8] as usize) * 256 + buf[9] as usize;
    let total = HEADER_LEN + len;
    if buf.len() < total {
        return None;
    }
    let body = slice_subrange(buf, HEADER_LEN, total);
    let payload = string_from_utf8_lossy(body);
    let frame = Frame { command, command_type, status, payload };
    Some((frame, total))
}

/// Drain every complete frame from the front of `buf`, leaving any trailing
/// partial frame in place for the next read.
pub fn drain_frames(buf: &mut Vec<u8>) -> (frames: Vec<Frame>)
    ensures
        frames@.map_values(|f: Frame| f.spec()) == spec_drain(old(buf)@).0,
        final(buf)@ == spec_drain(old(buf)@).1,
        spec_decode(final(buf)@) is None,
{
    let mut frames: Vec<Frame> = Vec::new();
    let ghost start = buf@;
    loop
        invariant
            spec_drain(start).0 == frames@.map_values(|f: Frame| f.spec()) + spec_drain(buf@).0,
            spec_drain(start).1 == spec_drain(buf@).1,
        ensures
            frames@.map_values(|f: Frame| f.spec()) == spec_drain(start).0,
            buf@ == spec_drain(start).1,
            spec_decode(buf@) is None,
        decreases buf@.len(),
    {
        match decode_frame(buf.as_slice()) {
            Some((frame, consumed)) => {
                let ghost before = buf@;
                let ghost fs = frames@.map_values(|f: Frame| f.spec());
                let rest = buf.split_off(consumed);
                *buf = rest;
                assert(buf@ == before.subrange(consumed as int, before.len() as int));
                frames.push(frame);
                assert(frames@.map_values(|f: Frame| f.spec()) =~= fs.push(frame.spec()));
                assert(spec_drain(before).0 =~= seq![frame.spec()] + spec_drain(buf@).0);
                assert(fs.push(frame.spec()) + spec_drain(buf@).0 =~= fs + (seq![frame.spec()]
                    + spec_drain(buf@).0));
            },
            None => {
                assert(spec_drain(buf@).0 =~= Seq::<FrameSpec>::empty());
                assert(frames@.map_values(|f: Frame| f.spec()) + Seq::<FrameSpec>::empty()
                    =~= frames@.map_values(|f: Frame| f.spec()));
                break ;
            },
        }
    }
    frames
}

// ------------------------------------------------------------------ laws --

/// A response frame as the device sends it decodes to exactly its command,
/// type, status and payload, whatever follows it in the buffer.
pub proof fn law_response_decodes(
    command: u16,
    command_type: u8,
    status: u8,
    payload: Seq<char>,
    tail: Seq<u8>,
)
    requires
        encode_utf8(payload).len() < 65536,
    ensures
        ({
            let wire = response_bytes(command, command_type, status, encode_utf8(payload));
            spec_decode(wire + tail) == Some(
                (
                    FrameSpec { command, command_type, status, payload },
                    wire.len() as int,
                ),
            )
        }),
{
    let p = encode_utf8(payload);
    let wire = response_bytes(command, command_type, status, p);
    let buf = wire + tail;
    broadcast use encode_utf8_valid_utf8, encode_utf8_decode_utf8;

    assert(buf[8] == (p.len() / 256) as u8);
    assert(buf[9] == (p.len() % 256) as u8);
    assert(announced_len(buf) == 10 + p.len());
    assert(buf.subrange(10, 10 + p.len() as int) =~= p);
    assert((buf[3] as int * 256 + buf[4] as int) as u16 == command);
}

/// Draining a buffer that starts with a complete response frame yields that
/// frame first, then whatever draining the rest yields.
pub proof fn law_drain_response_first(
    command: u16,
    command_type: u8,
    status: u8,
    payload: Seq<char>,
    rest: Seq<u8>,
)
    requires
        encode_utf8(payload).len() < 65536,
    ensures
        ({
            let wire = response_bytes(command, command_type, status, encode_utf8(payload));
            let d = spec_drain(wire + rest);
            &&& d.0 == seq![FrameSpec { command, command_type, status, payload }] + spec_drain(rest).0
            &&& d.1 == spec_drain(rest).1
        }),
{
    let wire = response_bytes(command, command_type, status, encode_utf8(payload));
    law_response_decodes(command, command_type, status, payload, rest);
    assert((wire + rest).subrange(wire.len() as int, (wire + rest).len() as int) =~= rest);
}

} // verus!

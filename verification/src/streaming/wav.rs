//! The RIFF/WAVE subset the sender accepts and writes: canonical
//! little-endian `WAVE_FORMAT_PCM`, 16-bit, 44.1 kHz, stereo. Chunks are walked
//! so a `LIST`/`fact` chunk ahead of `data` does not break parsing; anything
//! outside the subset is rejected rather than mis-decoded.

use vstd::prelude::*;
use vstd::slice::*;

use super::model::BYTES_PER_FRAME;
use crate::text::{dec, owned, push_dec};

verus! {

// ----------------------------------------------------------- byte model --

/// The little-endian `u16` at `b[i..i+2]`.
pub open spec fn le16(b: Seq<u8>, i: int) -> int {
    b[i] as int + b[i + 1] as int * 256
}

/// The little-endian `u32` at `b[i..i+4]`.
pub open spec fn le32(b: Seq<u8>, i: int) -> int {
    b[i] as int + b[i + 1] as int * 256 + b[i + 2] as int * 65536 + b[i + 3] as int * 16777216
}

/// `"RIFF"`.
pub open spec fn riff_tag() -> Seq<u8> {
    seq![0x52u8, 0x49u8, 0x46u8, 0x46u8]
}

/// `"WAVE"`.
pub open spec fn wave_tag() -> Seq<u8> {
    seq![0x57u8, 0x41u8, 0x56u8, 0x45u8]
}

/// `"fmt "`.
pub open spec fn fmt_tag() -> Seq<u8> {
    seq![0x66u8, 0x6du8, 0x74u8, 0x20u8]
}

/// `"data"`.
pub open spec fn data_tag() -> Seq<u8> {
    seq![0x64u8, 0x61u8, 0x74u8, 0x61u8]
}

/// The four bytes at `i` are the chunk id `t`.
pub open spec fn tag_at(b: Seq<u8>, i: int, t: Seq<u8>) -> bool {
    b.subrange(i, i + 4) == t
}

/// The longest whole-frame prefix of `s`.
pub open spec fn frame_prefix(s: Seq<u8>) -> Seq<u8> {
    s.take(s.len() - s.len() % 4)
}

// -------------------------------------------------------------- parsing --

/// Why a buffer is not an accepted WAV file.
#[derive(Debug, Clone, Copy, PartialEq, Eq, Structural)]
pub enum WavError {
    /// No `RIFF....WAVE` header.
    NotRiff,
    /// A `fmt ` chunk shorter than the 16 bytes of a PCM format block.
    TruncatedFmt,
    /// A format tag other than `WAVE_FORMAT_PCM` (1).
    UnsupportedFormat { format: u16 },
    /// PCM, but not 2 channels / 44100 Hz / 16 bit.
    UnsupportedGeometry { channels: u16, rate: u32, bits: u16 },
    /// A `data` chunk met before any `fmt ` chunk.
    DataBeforeFmt,
    /// The chunk walk ran off the end without a `data` chunk.
    NoData,
}

/// Where the chunk after the one at `pos` starts: header, body, and the pad
/// byte that word-aligns an odd-sized body.
pub open spec fn next_chunk_at(b: Seq<u8>, pos: int) -> int {
    let size = le32(b, pos + 4);
    pos + 8 + size + size % 2
}

/// Termination measure of the chunk walk.
pub open spec fn walk_measure(b: Seq<u8>, pos: int) -> nat {
    if pos < b.len() {
        (b.len() - pos) as nat
    } else {
        0
    }
}

/// The chunk walk from offset `pos`, `fmt_ok` recording whether a valid
/// `fmt ` chunk has been seen.
pub open spec fn walk(b: Seq<u8>, pos: int, fmt_ok: bool) -> Result<Seq<u8>, WavError>
    decreases walk_measure(b, pos),
{
    if pos < 0 || pos + 8 > b.len() {
        Err(WavError::NoData)
    } else {
        let size = le32(b, pos + 4);
        let body = pos + 8;
        if tag_at(b, pos, fmt_tag()) {
            if body + 16 > b.len() {
                Err(WavError::TruncatedFmt)
            } else if le16(b, body) != 1 {
                Err(WavError::UnsupportedFormat { format: le16(b, body) as u16 })
            } else if le16(b, body + 2) != 2 || le32(b, body + 4) != 44100 || le16(b, body + 14)
                != 16 {
                Err(
                    WavError::UnsupportedGeometry {
                        channels: le16(b, body + 2) as u16,
                        rate: le32(b, body + 4) as u32,
                        bits: le16(b, body + 14) as u16,
                    },
                )
            } else {
                walk(b, next_chunk_at(b, pos), true)
            }
        } else if tag_at(b, pos, data_tag()) {
            if !fmt_ok {
                Err(WavError::DataBeforeFmt)
            } else {
                let end = if body + size < b.len() {
                    body + size
                } else {
                    b.len() as int
                };
                Ok(frame_prefix(b.subrange(body, end)))
            }
        } else {
            walk(b, next_chunk_at(b, pos), fmt_ok)
        }
    }
}

/// What a WAV buffer decodes to: the frame-aligned body of its first `data`
/// chunk, or why it is refused.
pub open spec fn wav_parse(b: Seq<u8>) -> Result<Seq<u8>, WavError> {
    if b.len() < 12 || !tag_at(b, 0, riff_tag()) || !tag_at(b, 8, wave_tag()) {
        Err(WavError::NotRiff)
    } else {
        walk(b, 12, false)
    }
}

/// The text each refusal is reported with.
pub open spec fn wav_error_text(e: WavError) -> Seq<char> {
    match e {
        WavError::NotRiff => "not a RIFF/WAVE file"@,
        WavError::TruncatedFmt => "truncated fmt chunk"@,
        WavError::UnsupportedFormat { format } => "unsupported WAVE format "@ + dec(
            format as nat,
        ) + " (need PCM=1)"@,
        WavError::UnsupportedGeometry { channels, rate, bits } => "unsupported WAV geometry: "@
            + dec(channels as nat) + "ch/"@ + dec(rate as nat) + "Hz/"@ + dec(bits as nat)
            + "bit (need 2ch/44100Hz/16bit)"@,
        WavError::DataBeforeFmt => "data chunk before fmt chunk"@,
        WavError::NoData => "no data chunk found"@,
    }
}

impl WavError {
    /// The refusal as the text callers report.
    pub fn message(&self) -> (r: String)
        ensures
            r@ == wav_error_text(*self),
    {
        match self {
            WavError::NotRiff => owned("not a RIFF/WAVE file"),
            WavError::TruncatedFmt => owned("truncated fmt chunk"),
            WavError::UnsupportedFormat { format } => {
                let mut r = owned("unsupported WAVE format ");
                push_dec(&mut r, *format as u64);
                r.append(" (need PCM=1)");
                r
            },
            WavError::UnsupportedGeometry { channels, rate, bits } => {
                let mut r = owned("unsupported WAV geometry: ");
                push_dec(&mut r, *channels as u64);
                r.append("ch/");
                push_dec(&mut r, *rate as u64);
                r.append("Hz/");
                push_dec(&mut r, *bits as u64);
                r.append("bit (need 2ch/44100Hz/16bit)");
                r
            },
            WavError::DataBeforeFmt => owned("data chunk before fmt chunk"),
            WavError::NoData => owned("no data chunk found"),
        }
    }
}

fn read_le16(b: &[u8], i: usize) -> (r: u16)
    requires
        i + 2 <= b@.len(),
    ensures
        r == le16(b@, i as int),
{
    (b[i] as u16) + (b[i + 1] as u16) * 256
}

fn read_le32(b: &[u8], i: usize) -> (r: u32)
    requires
        i + 4 <= b@.len(),
    ensures
        r == le32(b@, i as int),
{
    (b[i] as u32) + (b[i + 1] as u32) * 256 + (b[i + 2] as u32) * 65536 + (b[i + 3] as u32)
        * 16777216
}

fn tag_is(b: &[u8], i: usize, t0: u8, t1: u8, t2: u8, t3: u8) -> (r: bool)
    requires
        i + 4 <= b@.len(),
    ensures
        r == tag_at(b@, i as int, seq![t0, t1, t2, t3]),
{
    let r = b[i] == t0 && b[i + 1] == t1 && b[i + 2] == t2 && b[i + 3] == t3;
    proof {
        let s = b@.subrange(i as int, i + 4);
        let t = seq![t0, t1, t2, t3];
        if r {
            assert(s =~= t);
        } else {
            assert(s[0] == b@[i as int] && s[1] == b@[i + 1] && s[2] == b@[i + 2] && s[3] == b@[i
                + 3]);
            assert(t[0] == t0 && t[1] == t1 && t[2] == t2 && t[3] == t3);
            assert(s != t);
        }
    }
    r
}

/// Truncate a byte buffer to a whole number of frames.
pub fn frame_align_owned(bytes: Vec<u8>) -> (r: Vec<u8>)
    ensures
        r@ == frame_prefix(bytes@),
{
    let mut bytes = bytes;
    let keep = bytes.len() - (bytes.len() % BYTES_PER_FRAME);
    bytes.truncate(keep);
    bytes
}

/// Decode a canonical WAV buffer to its PCM body, or say why it is refused.
pub fn parse_wav(bytes: &[u8]) -> (r: Result<Vec<u8>, WavError>)
    ensures
        match r {
            Ok(v) => wav_parse(bytes@) == Ok::<Seq<u8>, WavError>(v@),
            Err(e) => wav_parse(bytes@) == Err::<Seq<u8>, WavError>(e),
        },
{
    let len = bytes.len();
    if len < 12 || !tag_is(bytes, 0, 0x52, 0x49, 0x46, 0x46) || !tag_is(
        bytes,
        8,
        0x57,
        0x41,
        0x56,
        0x45,
    ) {
        return Err(WavError::NotRiff);
    }
    let mut pos: usize = 12;
    let mut fmt_ok = false;
    while pos <= len && len - pos >= 8
        invariant
            len == bytes@.len(),
            12 <= pos,
            walk(bytes@, pos as int, fmt_ok) == wav_parse(bytes@),
        decreases walk_measure(bytes@, pos as int),
    {
        let size = read_le32(bytes, pos + 4);
        let body = pos + 8;
        if tag_is(bytes, pos, 0x66, 0x6d, 0x74, 0x20) {
            if len - body < 16 {
                return Err(WavError::TruncatedFmt);
            }
            let audio_format = read_le16(bytes, body);
            let channels = read_le16(bytes, body + 2);
            let rate = read_le32(bytes, body + 4);
            let bits = read_le16(bytes, body + 14);
            if audio_format != 1 {
                return Err(WavError::UnsupportedFormat { format: audio_format });
            }
            if channels != 2 || rate != 44100 || bits != 16 {
                return Err(WavError::UnsupportedGeometry { channels, rate, bits });
            }
            fmt_ok = true;
        } else if tag_is(bytes, pos, 0x64, 0x61, 0x74, 0x61) {
            if !fmt_ok {
                return Err(WavError::DataBeforeFmt);
            }
            let rest = len - body;
            let end = if (size as usize) < rest {
                body + size as usize
            } else {
                len
            };
            let v = slice_to_vec(slice_subrange(bytes, body, end));
            return Ok(frame_align_owned(v));
        }
        let rest = len - body;
        if (size as usize) >= rest {
            // The next chunk would start at or past the end.
            assert(walk(bytes@, next_chunk_at(bytes@, pos as int), fmt_ok) == Err::<
                Seq<u8>,
                WavError,
            >(WavError::NoData));
            return Err(WavError::NoData);
        }
        pos = body + size as usize + (size % 2) as usize;
    }
    Err(WavError::NoData)
}

/// Parse the PCM `data` out of a canonical little-endian RIFF/WAVE buffer,
/// requiring 16-bit / 44.1 kHz / 2-channel `WAVE_FORMAT_PCM`.
pub fn parse_wav_s16le(bytes: &[u8]) -> (r: Result<Vec<u8>, String>)
    ensures
        match wav_parse(bytes@) {
            Ok(pcm) => r matches Ok(v) && v@ == pcm,
            Err(e) => r matches Err(m) && m@ == wav_error_text(e),
        },
{
    match parse_wav(bytes) {
        Ok(v) => Ok(v),
        Err(e) => Err(e.message()),
    }
}

// -------------------------------------------------------------- writing --

/// The four little-endian bytes of `x`.
pub open spec fn le32_bytes(x: int) -> Seq<u8> {
    seq![
        (x % 256) as u8,
        ((x / 256) % 256) as u8,
        ((x / 65536) % 256) as u8,
        ((x / 16777216) % 256) as u8,
    ]
}

/// The two little-endian bytes of `x`.
pub open spec fn le16_bytes(x: int) -> Seq<u8> {
    seq![(x % 256) as u8, ((x / 256) % 256) as u8]
}

/// The canonical 44-byte header in front of `n` bytes of s16le/44.1k/stereo
/// PCM.
pub open spec fn wav_header(n: int) -> Seq<u8> {
    riff_tag() + le32_bytes(36 + n) + wave_tag() + fmt_tag() + le32_bytes(16) + le16_bytes(1)
        + le16_bytes(2) + le32_bytes(44100) + le32_bytes(176400) + le16_bytes(4) + le16_bytes(
        16,
    ) + data_tag() + le32_bytes(n)
}

fn push_le32(out: &mut Vec<u8>, x: u32)
    ensures
        final(out)@ == old(out)@ + le32_bytes(x as int),
{
    out.push((x % 256) as u8);
    out.push(((x / 256) % 256) as u8);
    out.push(((x / 65536) % 256) as u8);
    out.push(((x / 16777216) % 256) as u8);
    assert(final(out)@ =~= old(out)@ + le32_bytes(x as int));
}

fn push_le16(out: &mut Vec<u8>, x: u16)
    ensures
        final(out)@ == old(out)@ + le16_bytes(x as int),
{
    out.push((x % 256) as u8);
    out.push(((x / 256) % 256) as u8);
    assert(final(out)@ =~= old(out)@ + le16_bytes(x as int));
}

fn push_tag(out: &mut Vec<u8>, t0: u8, t1: u8, t2: u8, t3: u8)
    ensures
        final(out)@ == old(out)@ + seq![t0, t1, t2, t3],
{
    out.push(t0);
    out.push(t1);
    out.push(t2);
    out.push(t3);
    assert(final(out)@ =~= old(out)@ + seq![t0, t1, t2, t3]);
}

fn push_all(out: &mut Vec<u8>, src: &[u8])
    ensures
        final(out)@ == old(out)@ + src@,
{
    let mut i: usize = 0;
    while i < src.len()
        invariant
            i <= src@.len(),
            out@ == old(out)@ + src@.subrange(0, i as int),
        decreases src@.len() - i,
    {
        out.push(src[i]);
        i = i + 1;
        assert(out@ =~= old(out)@ + src@.subrange(0, i as int));
    }
    assert(src@.subrange(0, i as int) =~= src@);
}

/// A canonical 44-byte-header WAV image around raw s16le/44.1k/stereo PCM:
/// the bytes a `.wav` file is written with.
pub fn wav_bytes(pcm: &[u8]) -> (r: Vec<u8>)
    requires
        pcm@.len() + 36 <= u32::MAX,
    ensures
        r@ == wav_header(pcm@.len() as int) + pcm@,
{
    let data_len = pcm.len() as u32;
    let mut buf: Vec<u8> = Vec::new();
    push_tag(&mut buf, 0x52, 0x49, 0x46, 0x46);
    push_le32(&mut buf, 36 + data_len);
    push_tag(&mut buf, 0x57, 0x41, 0x56, 0x45);
    push_tag(&mut buf, 0x66, 0x6d, 0x74, 0x20);
    push_le32(&mut buf, 16);
    push_le16(&mut buf, 1);
    push_le16(&mut buf, 2);
    push_le32(&mut buf, 44100);
    push_le32(&mut buf, 44100 * 2 * 2);
    push_le16(&mut buf, 2 * 2);
    push_le16(&mut buf, 16);
    push_tag(&mut buf, 0x64, 0x61, 0x74, 0x61);
    push_le32(&mut buf, data_len);
    push_all(&mut buf, pcm);
    proof {
        assert(buf@ =~= wav_header(pcm@.len() as int) + pcm@);
    }
    buf
}

// ------------------------------------------------------------------ law --

proof fn lemma_le32_round_trip(b: Seq<u8>, i: int, x: int)
    requires
        0 <= x < 0x1_0000_0000,
        0 <= i,
        i + 4 <= b.len(),
        b.subrange(i, i + 4) == le32_bytes(x),
    ensures
        le32(b, i) == x,
{
    assert(b[i] == b.subrange(i, i + 4)[0]);
    assert(b[i + 1] == b.subrange(i, i + 4)[1]);
    assert(b[i + 2] == b.subrange(i, i + 4)[2]);
    assert(b[i + 3] == b.subrange(i, i + 4)[3]);
    assert(x % 256 + ((x / 256) % 256) * 256 + ((x / 65536) % 256) * 65536 + ((x / 16777216)
        % 256) * 16777216 == x) by (nonlinear_arith)
        requires
            0 <= x < 0x1_0000_0000,
    ;
}

proof fn lemma_le16_round_trip(b: Seq<u8>, i: int, x: int)
    requires
        0 <= x < 0x1_0000,
        0 <= i,
        i + 2 <= b.len(),
        b.subrange(i, i + 2) == le16_bytes(x),
    ensures
        le16(b, i) == x,
{
    assert(b[i] == b.subrange(i, i + 2)[0]);
    assert(b[i + 1] == b.subrange(i, i + 2)[1]);
    assert(x % 256 + ((x / 256) % 256) * 256 == x) by (nonlinear_arith)
        requires
            0 <= x < 0x1_0000,
    ;
}

/// What the writer writes the parser reads back: a WAV image of any PCM
/// buffer decodes to that buffer's whole frames.
pub proof fn law_wav_round_trip(pcm: Seq<u8>)
    requires
        pcm.len() + 36 <= u32::MAX,
    ensures
        wav_parse(wav_header(pcm.len() as int) + pcm) == Ok::<Seq<u8>, WavError>(
            frame_prefix(pcm),
        ),
{
    let n = pcm.len() as int;
    let b = wav_header(n) + pcm;
    assert(wav_header(n).len() == 44);
    assert(b.len() == 44 + n);
    assert(b.subrange(0, 4) =~= riff_tag());
    assert(b.subrange(8, 12) =~= wave_tag());
    assert(b.subrange(12, 16) =~= fmt_tag());
    assert(b.subrange(16, 20) =~= le32_bytes(16));
    lemma_le32_round_trip(b, 16, 16);
    assert(b.subrange(20, 22) =~= le16_bytes(1));
    lemma_le16_round_trip(b, 20, 1);
    assert(b.subrange(22, 24) =~= le16_bytes(2));
    lemma_le16_round_trip(b, 22, 2);
    assert(b.subrange(24, 28) =~= le32_bytes(44100));
    lemma_le32_round_trip(b, 24, 44100);
    assert(b.subrange(34, 36) =~= le16_bytes(16));
    lemma_le16_round_trip(b, 34, 16);
    assert(b.subrange(36, 40) =~= data_tag());
    assert(b.subrange(40, 44) =~= le32_bytes(n));
    lemma_le32_round_trip(b, 40, n);
    assert(fmt_tag() != data_tag()) by {
        assert(fmt_tag()[0] != data_tag()[0]);
    }
    assert(next_chunk_at(b, 12) == 36);
    assert(b.subrange(44, 44 + n) =~= pcm);
    assert(walk(b, 36, true) == Ok::<Seq<u8>, WavError>(frame_prefix(pcm)));
    assert(walk(b, 12, false) == walk(b, 36, true));
}

/// Only the declared body is audio: whatever follows the `data` chunk (a
/// trailing `LIST` chunk, padding, garbage) never reaches the result, which
/// is the whole frames of exactly the declared `n` bytes.
pub proof fn law_wav_ignores_trailing_bytes(pcm: Seq<u8>, trailing: Seq<u8>)
    requires
        pcm.len() + 36 <= u32::MAX,
    ensures
        wav_parse(wav_header(pcm.len() as int) + pcm + trailing) == Ok::<Seq<u8>, WavError>(
            frame_prefix(pcm),
        ),
{
    let n = pcm.len() as int;
    let h = wav_header(n);
    let b = h + pcm + trailing;
    assert(h.len() == 44);
    assert(b.len() == 44 + n + trailing.len());
    assert(b.subrange(0, 4) =~= riff_tag());
    assert(b.subrange(8, 12) =~= wave_tag());
    assert(b.subrange(12, 16) =~= fmt_tag());
    assert(b.subrange(16, 20) =~= le32_bytes(16));
    lemma_le32_round_trip(b, 16, 16);
    assert(b.subrange(20, 22) =~= le16_bytes(1));
    lemma_le16_round_trip(b, 20, 1);
    assert(b.subrange(22, 24) =~= le16_bytes(2));
    lemma_le16_round_trip(b, 22, 2);
    assert(b.subrange(24, 28) =~= le32_bytes(44100));
    lemma_le32_round_trip(b, 24, 44100);
    assert(b.subrange(34, 36) =~= le16_bytes(16));
    lemma_le16_round_trip(b, 34, 16);
    assert(b.subrange(36, 40) =~= data_tag());
    assert(b.subrange(40, 44) =~= le32_bytes(n));
    lemma_le32_round_trip(b, 40, n);
    assert(fmt_tag() != data_tag()) by {
        assert(fmt_tag()[0] != data_tag()[0]);
    }
    assert(next_chunk_at(b, 12) == 36);
    assert(b.subrange(44, 44 + n) =~= pcm);
    assert(walk(b, 36, true) == Ok::<Seq<u8>, WavError>(frame_prefix(pcm)));
    assert(walk(b, 12, false) == walk(b, 36, true));
}

/// The pad byte that word-aligns a chunk body of `m` bytes.
pub open spec fn pad_for(m: int) -> Seq<u8> {
    if m % 2 == 1 {
        seq![0u8]
    } else {
        Seq::empty()
    }
}

/// A chunk the parser does not know (a `LIST` or `fact` chunk, say) between
/// `fmt ` and `data` is stepped over, pad byte included: the result is still
/// the whole frames of the `data` body.
pub proof fn law_wav_skips_unknown_chunk(tag: Seq<u8>, extra: Seq<u8>, pcm: Seq<u8>)
    requires
        tag.len() == 4,
        tag != fmt_tag(),
        tag != data_tag(),
        extra.len() < u32::MAX,
        pcm.len() + 36 <= u32::MAX,
    ensures
        wav_parse(
            wav_header(pcm.len() as int).take(36) + tag + le32_bytes(extra.len() as int) + extra
                + pad_for(extra.len() as int) + wav_header(pcm.len() as int).skip(36) + pcm,
        ) == Ok::<Seq<u8>, WavError>(frame_prefix(pcm)),
{
    let n = pcm.len() as int;
    let m = extra.len() as int;
    let h = wav_header(n);
    let p = pad_for(m);
    let b = h.take(36) + tag + le32_bytes(m) + extra + p + h.skip(36) + pcm;
    let q = 44 + m + p.len();
    assert(h.len() == 44);
    assert(p.len() == m % 2);
    assert(b.len() == q + 8 + n);
    assert(b.subrange(0, 4) =~= riff_tag());
    assert(b.subrange(8, 12) =~= wave_tag());
    assert(b.subrange(12, 16) =~= fmt_tag());
    assert(b.subrange(16, 20) =~= le32_bytes(16));
    lemma_le32_round_trip(b, 16, 16);
    assert(b.subrange(20, 22) =~= le16_bytes(1));
    lemma_le16_round_trip(b, 20, 1);
    assert(b.subrange(22, 24) =~= le16_bytes(2));
    lemma_le16_round_trip(b, 22, 2);
    assert(b.subrange(24, 28) =~= le32_bytes(44100));
    lemma_le32_round_trip(b, 24, 44100);
    assert(b.subrange(34, 36) =~= le16_bytes(16));
    lemma_le16_round_trip(b, 34, 16);
    assert(next_chunk_at(b, 12) == 36);
    assert(b.subrange(36, 40) =~= tag);
    assert(b.subrange(40, 44) =~= le32_bytes(m));
    lemma_le32_round_trip(b, 40, m);
    assert(next_chunk_at(b, 36) == q);
    assert(b.subrange(q, q + 4) =~= data_tag());
    assert(b.subrange(q + 4, q + 8) =~= le32_bytes(n));
    lemma_le32_round_trip(b, q + 4, n);
    assert(fmt_tag() != data_tag()) by {
        assert(fmt_tag()[0] != data_tag()[0]);
    }
    assert(b.subrange(q + 8, q + 8 + n) =~= pcm);
    assert(walk(b, q, true) == Ok::<Seq<u8>, WavError>(frame_prefix(pcm)));
    assert(walk(b, 36, true) == walk(b, q, true));
    assert(walk(b, 12, false) == walk(b, 36, true));
}

/// A 44-byte header with any values in its format block.
pub open spec fn header_with(
    format: u16,
    channels: u16,
    rate: u32,
    byte_rate: u32,
    align: u16,
    bits: u16,
    n: int,
) -> Seq<u8> {
    riff_tag() + le32_bytes(36 + n) + wave_tag() + fmt_tag() + le32_bytes(16) + le16_bytes(
        format as int,
    ) + le16_bytes(channels as int) + le32_bytes(rate as int) + le32_bytes(byte_rate as int)
        + le16_bytes(align as int) + le16_bytes(bits as int) + data_tag() + le32_bytes(n)
}

/// Only 16-bit 44.1 kHz stereo PCM is accepted: another format tag is
/// refused naming it, PCM of another geometry is refused naming channels,
/// rate and bits, and the accepted one decodes to the body's whole frames.
/// The byte rate and block alignment play no part.
pub proof fn law_wav_format_checks(
    format: u16,
    channels: u16,
    rate: u32,
    byte_rate: u32,
    align: u16,
    bits: u16,
    pcm: Seq<u8>,
)
    requires
        pcm.len() + 36 <= u32::MAX,
    ensures
        wav_parse(header_with(format, channels, rate, byte_rate, align, bits, pcm.len() as int) + pcm)
            == if format != 1 {
            Err::<Seq<u8>, WavError>(WavError::UnsupportedFormat { format })
        } else if channels != 2 || rate != 44100 || bits != 16 {
            Err::<Seq<u8>, WavError>(WavError::UnsupportedGeometry { channels, rate, bits })
        } else {
            Ok::<Seq<u8>, WavError>(frame_prefix(pcm))
        },
{
    let n = pcm.len() as int;
    let h = header_with(format, channels, rate, byte_rate, align, bits, n);
    let b = h + pcm;
    assert(h.len() == 44);
    assert(b.subrange(0, 4) =~= riff_tag());
    assert(b.subrange(8, 12) =~= wave_tag());
    assert(b.subrange(12, 16) =~= fmt_tag());
    assert(b.subrange(16, 20) =~= le32_bytes(16));
    lemma_le32_round_trip(b, 16, 16);
    assert(b.subrange(20, 22) =~= le16_bytes(format as int));
    lemma_le16_round_trip(b, 20, format as int);
    assert(b.subrange(22, 24) =~= le16_bytes(channels as int));
    lemma_le16_round_trip(b, 22, channels as int);
    assert(b.subrange(24, 28) =~= le32_bytes(rate as int));
    lemma_le32_round_trip(b, 24, rate as int);
    assert(b.subrange(34, 36) =~= le16_bytes(bits as int));
    lemma_le16_round_trip(b, 34, bits as int);
    assert(b.subrange(36, 40) =~= data_tag());
    assert(b.subrange(40, 44) =~= le32_bytes(n));
    lemma_le32_round_trip(b, 40, n);
    assert(fmt_tag() != data_tag()) by {
        assert(fmt_tag()[0] != data_tag()[0]);
    }
    assert(next_chunk_at(b, 12) == 36);
    assert(b.subrange(44, 44 + n) =~= pcm);
    assert(walk(b, 36, true) == Ok::<Seq<u8>, WavError>(frame_prefix(pcm)));
}

/// A `data` chunk met before any `fmt ` chunk is refused: the samples could
/// not be read without knowing their format.
pub proof fn law_wav_data_needs_fmt_first(riff_size: u32, pcm: Seq<u8>)
    requires
        pcm.len() <= u32::MAX,
    ensures
        wav_parse(
            riff_tag() + le32_bytes(riff_size as int) + wave_tag() + data_tag() + le32_bytes(
                pcm.len() as int,
            ) + pcm,
        ) == Err::<Seq<u8>, WavError>(WavError::DataBeforeFmt),
{
    let b = riff_tag() + le32_bytes(riff_size as int) + wave_tag() + data_tag() + le32_bytes(
        pcm.len() as int,
    ) + pcm;
    assert(b.subrange(0, 4) =~= riff_tag());
    assert(b.subrange(8, 12) =~= wave_tag());
    assert(b.subrange(12, 16) =~= data_tag());
    assert(fmt_tag() != data_tag()) by {
        assert(fmt_tag()[0] != data_tag()[0]);
    }
}

} // verus!

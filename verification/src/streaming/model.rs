//! Types shared across the streaming core.
//!
//! The audio format is fixed to what the RAOP sender expects on stdin:
//! interleaved **s16le, 44.1 kHz, stereo**. Every frame is therefore
//! `BYTES_PER_FRAME` bytes, and the fan-out pipeline stays frame-aligned so a
//! delay/volume transform never splits a sample.

use vstd::prelude::*;

use crate::text::{concat, dec, owned, push_dec};

verus! {

/// RAOP PCM sample rate (Hz).
pub const SAMPLE_RATE: u32 = 44_100;
/// Interleaved channel count (stereo).
pub const CHANNELS: usize = 2;
/// Bits per sample per channel.
pub const BITS_PER_SAMPLE: usize = 16;
/// Bytes for one interleaved stereo frame: 2 channels × 2 bytes = 4.
pub const BYTES_PER_FRAME: usize = 4;
/// Default matched latency handed to every child (frames): 500 ms.
pub const DEFAULT_LATENCY_FRAMES: u32 = 22_050;
/// Default warm-up (ms) before frame 0 hits the DAC.
pub const DEFAULT_WAIT_MS: u32 = 1_500;

/// Convert a millisecond duration to a whole number of PCM frames (rounded
/// down).
pub fn ms_to_frames(ms: u32) -> (r: usize)
    ensures
        r == ((ms as u64 * 44_100 / 1000) as usize),
{
    (ms as u64 * SAMPLE_RATE as u64 / 1000) as usize
}

/// One RAOP receiver a copy of the PCM stream is fanned out to.
#[derive(Debug, Clone, PartialEq, Eq)]
pub struct StreamTarget {
    /// Optional device UUID or manual-target id; also the key this target's
    /// saved delay is stored under.
    pub uuid: Option<String>,
    /// Human label.
    pub name: String,
    /// Receiver IP.
    pub ip: String,
    /// RAOP control port.
    pub raop_port: u16,
    /// Initial per-device playback delay in ms.
    pub delay_ms: u32,
}

impl StreamTarget {
    /// The key this target's persisted delay is stored under: its UUID /
    /// manual id when present, else its IP.
    pub fn delay_key(&self) -> (r: String)
        ensures
            r@ == match self.uuid {
                Some(u) => u@,
                None => self.ip@,
            },
    {
        match &self.uuid {
            Some(u) => u.clone(),
            None => self.ip.clone(),
        }
    }
}

/// Where the PCM being streamed comes from.
#[derive(Debug, Clone, PartialEq, Eq)]
pub enum StreamSource {
    /// A RIFF/WAVE file, decoded to s16le/44.1k/stereo.
    Wav { path: String },
    /// A headerless s16le/44.1k/stereo PCM file.
    RawPcm { path: String },
    /// A generated sine test tone.
    Tone { freq_hz: u32, duration_ms: u32 },
    /// The live Spotify capture, teed in real time.
    Spotify,
}

impl StreamSource {
    /// A short label for status/events.
    pub fn label(&self) -> (r: String)
        ensures
            r@ == match self {
                StreamSource::Wav { path } => "wav:"@ + path@,
                StreamSource::RawPcm { path } => "pcm:"@ + path@,
                StreamSource::Tone { freq_hz, duration_ms } => "tone:"@ + dec(*freq_hz as nat)
                    + "Hz/"@ + dec(*duration_ms as nat) + "ms"@,
                StreamSource::Spotify => "spotify"@,
            },
    {
        match self {
            StreamSource::Wav { path } => concat("wav:", path.as_str()),
            StreamSource::RawPcm { path } => concat("pcm:", path.as_str()),
            StreamSource::Tone { freq_hz, duration_ms } => {
                let mut r = owned("tone:");
                push_dec(&mut r, *freq_hz as u64);
                r.append("Hz/");
                push_dec(&mut r, *duration_ms as u64);
                r.append("ms");
                r
            },
            StreamSource::Spotify => owned("spotify"),
        }
    }
}

} // verus!

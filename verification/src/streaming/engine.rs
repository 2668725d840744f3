//! Per-receiver live controls of an active stream, and the lookup the command
//! layer uses to reach one of them.
//!
//! Volume is read by the device's writer every chunk (so it applies live);
//! delay is read once when the writer starts (it shapes the head of the
//! stream).

use vstd::prelude::*;

use super::model::{StreamTarget, DEFAULT_LATENCY_FRAMES, DEFAULT_WAIT_MS};
use crate::text::{owned, same_text};

verus! {

/// Frames per stdin write: 4096 frames ≈ 93 ms of audio.
pub const CHUNK_FRAMES: usize = 4096;

/// Unity gain, in thousandths.
pub const UNITY_GAIN_MILLI: u32 = 1000;

/// Live, per-receiver control shared between the command layer and that
/// device's writer.
pub struct DeviceControl {
    pub ip: String,
    pub name: String,
    pub raop_port: u16,
    /// Gain × 1000; `1000` = unity. Never above unity.
    pub gain_milli: u32,
    /// Per-device delay in ms (applied as silent lead-in frames).
    pub delay_ms: u32,
    /// Frames of real audio pushed so far (excludes delay silence); wraps.
    pub frames_written: u64,
}

impl DeviceControl {
    /// The gain never exceeds unity.
    pub open spec fn wf(&self) -> bool {
        self.gain_milli <= 1000
    }

    /// The control for a freshly started receiver: unity gain, no delay,
    /// nothing written.
    pub fn new(target: &StreamTarget) -> (r: Self)
        ensures
            r.wf(),
            r.ip@ == target.ip@,
            r.name@ == target.name@,
            r.raop_port == target.raop_port,
            r.gain_milli == 1000,
            r.delay_ms == 0,
            r.frames_written == 0,
    {
        DeviceControl {
            ip: target.ip.clone(),
            name: target.name.clone(),
            raop_port: target.raop_port,
            gain_milli: UNITY_GAIN_MILLI,
            delay_ms: 0,
            frames_written: 0,
        }
    }

    /// The control a stream start gives a receiver: unity gain, nothing
    /// written, and the receiver's own delay from its target.
    pub fn for_target(target: &StreamTarget) -> (r: Self)
        ensures
            r.wf(),
            r.ip@ == target.ip@,
            r.name@ == target.name@,
            r.raop_port == target.raop_port,
            r.gain_milli == 1000,
            r.delay_ms == target.delay_ms,
            r.frames_written == 0,
    {
        let mut c = DeviceControl::new(target);
        c.set_delay_ms(target.delay_ms);
        c
    }

    /// The current gain in thousandths.
    pub fn gain_milli(&self) -> (r: u32)
        ensures
            r == self.gain_milli,
    {
        self.gain_milli
    }

    /// Set the gain in thousandths, clamped to unity: the stream is never
    /// amplified.
    pub fn set_gain_milli(&mut self, milli: u32)
        ensures
            final(self).wf(),
            final(self).gain_milli == if milli <= 1000 {
                milli
            } else {
                1000
            },
            final(self).delay_ms == old(self).delay_ms,
            final(self).frames_written == old(self).frames_written,
            final(self).ip == old(self).ip,
            final(self).name == old(self).name,
            final(self).raop_port == old(self).raop_port,
    {
        self.gain_milli = if milli <= UNITY_GAIN_MILLI {
            milli
        } else {
            UNITY_GAIN_MILLI
        };
    }

    /// The configured delay in ms.
    pub fn delay_ms(&self) -> (r: u32)
        ensures
            r == self.delay_ms,
    {
        self.delay_ms
    }

    /// Record a new delay; it applies on the next start of the stream.
    pub fn set_delay_ms(&mut self, ms: u32)
        ensures
            final(self).delay_ms == ms,
            final(self).gain_milli == old(self).gain_milli,
            final(self).frames_written == old(self).frames_written,
            final(self).wf() == old(self).wf(),
            final(self).ip == old(self).ip,
            final(self).name == old(self).name,
            final(self).raop_port == old(self).raop_port,
    {
        self.delay_ms = ms;
    }

    /// Count `n` more frames of real audio written (a wrapping counter).
    pub fn add_frames(&mut self, n: u64)
        ensures
            final(self).frames_written == (old(self).frames_written + n) % 0x1_0000_0000_0000_0000,
            final(self).gain_milli == old(self).gain_milli,
            final(self).delay_ms == old(self).delay_ms,
            final(self).wf() == old(self).wf(),
            final(self).ip == old(self).ip,
            final(self).name == old(self).name,
            final(self).raop_port == old(self).raop_port,
    {
        self.frames_written = self.frames_written.wrapping_add(n);
    }

    /// Frames of real audio written so far.
    pub fn frames(&self) -> (r: u64)
        ensures
            r == self.frames_written,
    {
        self.frames_written
    }
}

/// The position of the first control whose receiver has address `ip`, if
/// any: where a live volume or delay change for `ip` is applied.
pub fn find_control(controls: &[DeviceControl], ip: &str) -> (r: Option<usize>)
    ensures
        match r {
            Some(i) => i < controls@.len() && controls@[i as int].ip@ == ip@ && forall|j: int|
                0 <= j < i ==> #[trigger] controls@[j].ip@ != ip@,
            None => forall|j: int| 0 <= j < controls@.len() ==> #[trigger] controls@[j].ip@ != ip@,
        },
{
    let mut i: usize = 0;
    while i < controls.len()
        invariant
            i <= controls@.len(),
            forall|j: int| 0 <= j < i ==> #[trigger] controls@[j].ip@ != ip@,
        decreases controls@.len() - i,
    {
        if same_text(controls[i].ip.as_str(), ip) {
            return Some(i);
        }
        i = i + 1;
    }
    None
}

/// The timing a stream start settles on before any receiver is contacted.
pub struct LaunchPlan {
    /// Matched latency handed to every child, in frames.
    pub latency_frames: u32,
    /// Warm-up before frame 0 reaches the DAC, in milliseconds.
    pub wait_ms: u32,
}

/// The checks a stream start makes before it touches a receiver: refused with
/// no targets, then while another stream is active; otherwise the requested
/// latency and warm-up, or their defaults.
pub fn plan_launch(
    target_count: usize,
    active: bool,
    latency_frames: Option<u32>,
    wait_ms: Option<u32>,
) -> (r: Result<LaunchPlan, String>)
    ensures
        target_count == 0 ==> (r matches Err(m) && m@ == "no stream targets given"@),
        target_count > 0 && active ==> (r matches Err(m) && m@
            == "a stream is already active; stop it first"@),
        target_count > 0 && !active ==> (r matches Ok(p) && p.latency_frames == (match latency_frames {
            Some(v) => v,
            None => DEFAULT_LATENCY_FRAMES,
        }) && p.wait_ms == (match wait_ms {
            Some(v) => v,
            None => DEFAULT_WAIT_MS,
        })),
{
    if target_count == 0 {
        return Err(owned("no stream targets given"));
    }
    if active {
        return Err(owned("a stream is already active; stop it first"));
    }
    let latency_frames = match latency_frames {
        Some(v) => v,
        None => DEFAULT_LATENCY_FRAMES,
    };
    let wait_ms = match wait_ms {
        Some(v) => v,
        None => DEFAULT_WAIT_MS,
    };
    Ok(LaunchPlan { latency_frames, wait_ms })
}

/// A loaded source with no audio in it is refused.
pub fn check_pcm_len(len: usize) -> (r: Result<(), String>)
    ensures
        len == 0 ==> (r matches Err(m) && m@ == "PCM source is empty"@),
        len > 0 ==> r is Ok,
{
    if len == 0 {
        return Err(owned("PCM source is empty"));
    }
    Ok(())
}

} // verus!

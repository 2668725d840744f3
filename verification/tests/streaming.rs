use std::sync::Arc;

use musicsync::streaming::engine::{check_pcm_len, find_control, plan_launch, DeviceControl};
use musicsync::streaming::live::{PcmFanout, SendOutcome};
use musicsync::streaming::model::{
    ms_to_frames, StreamSource, StreamTarget, BYTES_PER_FRAME, DEFAULT_LATENCY_FRAMES, DEFAULT_WAIT_MS,
};
use musicsync::streaming::sidecar::{candidate_names, candidate_paths, CLIRAOP_BASENAME};
use musicsync::streaming::sync::{frame_align, silence_frames, FrameChunks};
use musicsync::streaming::wav::{frame_align_owned, parse_wav, parse_wav_s16le, wav_bytes, WavError};

fn sine(freq_hz: u32, duration_ms: u32) -> Vec<u8> {
    let total_frames = (44_100u64 * duration_ms as u64 / 1000) as usize;
    let step = 2.0 * std::f64::consts::PI * freq_hz as f64 / 44_100.0;
    let mut out = Vec::with_capacity(total_frames * 4);
    for n in 0..total_frames {
        let v = (16000.0_f64 * (step * n as f64).sin()).round() as i16;
        let le = v.to_le_bytes();
        out.extend_from_slice(&le);
        out.extend_from_slice(&le);
    }
    out
}

fn target(ip: &str, uuid: Option<&str>) -> StreamTarget {
    StreamTarget {
        uuid: uuid.map(str::to_string),
        name: "Kitchen".to_string(),
        ip: ip.to_string(),
        raop_port: 5000,
        delay_ms: 0,
    }
}

#[test]
fn frame_geometry_is_stereo_s16() {
    assert_eq!(BYTES_PER_FRAME, 4);
}

#[test]
fn ms_to_frames_matches_sample_rate() {
    assert_eq!(ms_to_frames(1000), 44_100);
    assert_eq!(ms_to_frames(500), 22_050);
    assert_eq!(ms_to_frames(0), 0);
    assert_eq!(ms_to_frames(10), 441);
}

#[test]
fn delay_key_prefers_the_uuid() {
    assert_eq!(target("10.0.0.2", Some("U7")).delay_key(), "U7");
    assert_eq!(target("10.0.0.2", None).delay_key(), "10.0.0.2");
}

#[test]
fn source_labels_name_the_source() {
    assert_eq!(StreamSource::Wav { path: "a.wav".into() }.label(), "wav:a.wav");
    assert_eq!(StreamSource::RawPcm { path: "b.pcm".into() }.label(), "pcm:b.pcm");
    assert_eq!(StreamSource::Tone { freq_hz: 440, duration_ms: 1500 }.label(), "tone:440Hz/1500ms");
    assert_eq!(StreamSource::Spotify.label(), "spotify");
}

#[test]
fn silence_is_frame_sized_and_zero() {
    let s = silence_frames(441);
    assert_eq!(s.len(), 441 * BYTES_PER_FRAME);
    assert!(s.iter().all(|&b| b == 0));
    assert_eq!(silence_frames(0).len(), 0);
}

#[test]
fn frame_align_drops_partial_frame() {
    assert_eq!(frame_align(0), 0);
    assert_eq!(frame_align(4), 4);
    assert_eq!(frame_align(5), 4);
    assert_eq!(frame_align(7), 4);
    assert_eq!(frame_align(8), 8);
}

#[test]
fn frame_chunks_are_frame_aligned_and_lossless() {
    let data = vec![7u8; 10 * BYTES_PER_FRAME];
    let chunks: Vec<&[u8]> = FrameChunks::new(&data, 3).collect_chunks();
    assert_eq!(chunks.len(), 4);
    for c in &chunks[..3] {
        assert_eq!(c.len(), 3 * BYTES_PER_FRAME);
    }
    assert_eq!(chunks[3].len(), BYTES_PER_FRAME);
    let joined: Vec<u8> = chunks.concat();
    assert_eq!(joined, data);
}

#[test]
fn frame_chunks_handles_empty_and_exact() {
    assert_eq!(FrameChunks::new(&[], 4).collect_chunks().len(), 0);
    let data = vec![1u8; 8 * BYTES_PER_FRAME];
    assert_eq!(FrameChunks::new(&data, 4).collect_chunks().len(), 2);
}

#[test]
fn zero_chunk_frames_still_advance_one_frame_at_a_time() {
    let data = vec![3u8; 3 * BYTES_PER_FRAME];
    let mut it = FrameChunks::new(&data, 0);
    let mut n = 0;
    while let Some(c) = it.next_chunk() {
        assert_eq!(c.len(), BYTES_PER_FRAME);
        n += 1;
    }
    assert_eq!(n, 3);
}

#[test]
fn wav_roundtrips_through_writer_and_parser() {
    let pcm = sine(440, 50);
    let bytes = wav_bytes(&pcm);
    let parsed = parse_wav_s16le(&bytes).unwrap();
    assert_eq!(parsed, pcm);
}

#[test]
fn wav_header_is_canonical() {
    let bytes = wav_bytes(&[1, 2, 3, 4]);
    assert_eq!(bytes.len(), 48);
    assert_eq!(&bytes[0..4], b"RIFF");
    assert_eq!(&bytes[4..8], &40u32.to_le_bytes());
    assert_eq!(&bytes[8..16], b"WAVEfmt ");
    assert_eq!(&bytes[24..28], &44_100u32.to_le_bytes());
    assert_eq!(&bytes[28..32], &176_400u32.to_le_bytes());
    assert_eq!(&bytes[36..40], b"data");
    assert_eq!(&bytes[40..44], &4u32.to_le_bytes());
    assert_eq!(&bytes[44..], &[1, 2, 3, 4]);
}

fn header(channels: u16, rate: u32, format: u16) -> Vec<u8> {
    let mut buf = Vec::new();
    buf.extend_from_slice(b"RIFF");
    buf.extend_from_slice(&36u32.to_le_bytes());
    buf.extend_from_slice(b"WAVE");
    buf.extend_from_slice(b"fmt ");
    buf.extend_from_slice(&16u32.to_le_bytes());
    buf.extend_from_slice(&format.to_le_bytes());
    buf.extend_from_slice(&channels.to_le_bytes());
    buf.extend_from_slice(&rate.to_le_bytes());
    buf.extend_from_slice(&44100u32.to_le_bytes());
    buf.extend_from_slice(&2u16.to_le_bytes());
    buf.extend_from_slice(&16u16.to_le_bytes());
    buf.extend_from_slice(b"data");
    buf.extend_from_slice(&0u32.to_le_bytes());
    buf
}

#[test]
fn wav_rejects_wrong_geometry() {
    let mut buf = Vec::new();
    buf.extend_from_slice(b"RIFF");
    buf.extend_from_slice(&36u32.to_le_bytes());
    buf.extend_from_slice(b"WAVE");
    buf.extend_from_slice(b"fmt ");
    buf.extend_from_slice(&16u32.to_le_bytes());
    buf.extend_from_slice(&1u16.to_le_bytes());
    buf.extend_from_slice(&1u16.to_le_bytes());
    buf.extend_from_slice(&22050u32.to_le_bytes());
    buf.extend_from_slice(&44100u32.to_le_bytes());
    buf.extend_from_slice(&2u16.to_le_bytes());
    buf.extend_from_slice(&16u16.to_le_bytes());
    buf.extend_from_slice(b"data");
    buf.extend_from_slice(&0u32.to_le_bytes());
    assert!(parse_wav_s16le(&buf).is_err());
}

#[test]
fn wav_rejects_non_riff() {
    assert!(parse_wav_s16le(b"not a wav file at all").is_err());
}

#[test]
fn wav_errors_say_what_is_wrong() {
    assert_eq!(parse_wav(b"RIFF").unwrap_err(), WavError::NotRiff);
    assert_eq!(
        parse_wav_s16le(&header(1, 22050, 1)).unwrap_err(),
        "unsupported WAV geometry: 1ch/22050Hz/16bit (need 2ch/44100Hz/16bit)"
    );
    assert_eq!(
        parse_wav_s16le(&header(2, 44100, 3)).unwrap_err(),
        "unsupported WAVE format 3 (need PCM=1)"
    );
    let mut truncated = header(2, 44100, 1);
    truncated.truncate(30);
    assert_eq!(parse_wav(&truncated).unwrap_err(), WavError::TruncatedFmt);
    let mut no_fmt = Vec::new();
    no_fmt.extend_from_slice(b"RIFF\0\0\0\0WAVEdata");
    no_fmt.extend_from_slice(&0u32.to_le_bytes());
    assert_eq!(parse_wav(&no_fmt).unwrap_err(), WavError::DataBeforeFmt);
    assert_eq!(parse_wav(b"RIFF\0\0\0\0WAVE").unwrap_err(), WavError::NoData);
}

#[test]
fn wav_skips_unknown_chunks_and_drops_a_partial_frame() {
    let mut buf = header(2, 44100, 1);
    buf.truncate(36);
    buf.extend_from_slice(b"LIST");
    buf.extend_from_slice(&3u32.to_le_bytes());
    buf.extend_from_slice(&[9, 9, 9, 0]);
    buf.extend_from_slice(b"data");
    buf.extend_from_slice(&6u32.to_le_bytes());
    buf.extend_from_slice(&[1, 2, 3, 4, 5, 6]);
    assert_eq!(parse_wav(&buf).unwrap(), vec![1, 2, 3, 4]);
}

#[test]
fn frame_align_owned_truncates() {
    assert_eq!(frame_align_owned(vec![1, 2, 3, 4, 5, 6, 7]), vec![1, 2, 3, 4]);
}

#[test]
fn broadcasts_the_same_bytes_to_every_subscriber() {
    let mut f = PcmFanout::new();
    let a = f.subscribe(8);
    let b = f.subscribe(8);
    f.push(vec![1, 2, 3, 4]);
    assert_eq!(&**a.recv().unwrap(), &[1, 2, 3, 4]);
    assert_eq!(&**b.recv().unwrap(), &[1, 2, 3, 4]);
    assert_eq!(f.pushed(), 1);
    assert_eq!(f.dropped(), 0);
    assert_eq!(f.subscriber_count(), 2);
}

#[test]
fn full_channel_drops_for_that_subscriber_without_blocking() {
    let mut f = PcmFanout::new();
    let rx = f.subscribe(2);
    f.push(vec![0; 4]);
    f.push(vec![0; 4]);
    f.push(vec![0; 4]);
    assert_eq!(f.pushed(), 3);
    assert_eq!(f.dropped(), 1);
    assert!(rx.recv().is_ok());
    assert!(rx.recv().is_ok());
}

#[test]
fn disconnected_subscriber_is_pruned() {
    let mut f = PcmFanout::new();
    let rx = f.subscribe(4);
    drop(rx);
    f.push(vec![9, 9, 9, 9]);
    assert_eq!(f.subscriber_count(), 0);
}

#[test]
fn clear_removes_all_subscribers() {
    let mut f = PcmFanout::new();
    let _a = f.subscribe(4);
    let _b = f.subscribe(4);
    assert_eq!(f.subscriber_count(), 2);
    f.clear();
    assert_eq!(f.subscriber_count(), 0);
}

#[test]
fn arc_payload_is_shared_not_copied() {
    let mut f = PcmFanout::new();
    let a = f.subscribe(4);
    let b = f.subscribe(4);
    f.push(vec![7; 16]);
    let pa = a.recv().unwrap();
    let pb = b.recv().unwrap();
    assert!(Arc::ptr_eq(&pa, &pb));
}

#[test]
fn settle_prunes_disconnected_and_counts_full() {
    let mut f = PcmFanout::new();
    let _a = f.subscribe(4);
    let _b = f.subscribe(4);
    let _c = f.subscribe(4);
    f.settle(&[SendOutcome::Full, SendOutcome::Disconnected, SendOutcome::Sent]);
    assert_eq!(f.subscriber_count(), 2);
    assert_eq!(f.dropped(), 1);
    assert_eq!(f.pushed(), 0);
}

#[test]
fn device_control_starts_at_unity_and_clamps_gain() {
    let mut c = DeviceControl::new(&target("10.0.0.9", None));
    assert_eq!(c.gain_milli(), 1000);
    assert_eq!(c.delay_ms(), 0);
    c.set_gain_milli(2500);
    assert_eq!(c.gain_milli(), 1000);
    c.set_gain_milli(250);
    assert_eq!(c.gain_milli(), 250);
    c.set_delay_ms(120);
    assert_eq!(c.delay_ms(), 120);
    c.add_frames(4096);
    c.add_frames(10);
    assert_eq!(c.frames(), 4106);
}

#[test]
fn controls_are_found_by_ip() {
    let controls = vec![
        DeviceControl::new(&target("10.0.0.1", None)),
        DeviceControl::new(&target("10.0.0.2", None)),
    ];
    assert_eq!(find_control(&controls, "10.0.0.2"), Some(1));
    assert_eq!(find_control(&controls, "10.0.0.3"), None);
}

#[test]
fn candidate_paths_cover_stripped_and_triple_names() {
    let triple = format!("{CLIRAOP_BASENAME}-aarch64-apple-darwin");
    let names: Vec<String> = candidate_paths("/install", &triple)
        .iter()
        .map(|p| p.file_name().unwrap().to_string_lossy().into_owned())
        .collect();
    assert!(names.contains(&"cliraop".to_string()));
    assert!(names.contains(&"cliraop.exe".to_string()));
    assert!(names.contains(&"cliraop-aarch64-apple-darwin".to_string()));
}

#[test]
fn candidate_names_come_in_search_order() {
    assert_eq!(
        candidate_names("cliraop-x86_64-unknown-linux-gnu"),
        vec![
            "cliraop-x86_64-unknown-linux-gnu.exe".to_string(),
            "cliraop-x86_64-unknown-linux-gnu".to_string(),
            "cliraop.exe".to_string(),
            "cliraop".to_string(),
        ]
    );
}

#[test]
fn chunks_keep_every_byte_in_order() {
    let data: Vec<u8> = (0u8..40).collect();
    let chunks: Vec<&[u8]> = FrameChunks::new(&data, 3).collect_chunks();
    let lens: Vec<usize> = chunks.iter().map(|c| c.len()).collect();
    assert_eq!(lens, vec![12, 12, 12, 4]);
    assert_eq!(chunks[1][0], 12);
    assert_eq!(chunks[3], &[36u8, 37, 38, 39][..]);
    assert_eq!(chunks.concat(), data);
}

#[test]
fn a_start_needs_targets_and_no_running_stream() {
    assert_eq!(plan_launch(0, true, None, None).err().unwrap(), "no stream targets given");
    assert_eq!(plan_launch(2, true, None, None).err().unwrap(), "a stream is already active; stop it first");
    let plan = plan_launch(2, false, None, None).unwrap();
    assert_eq!((plan.latency_frames, plan.wait_ms), (DEFAULT_LATENCY_FRAMES, DEFAULT_WAIT_MS));
    assert_eq!((plan.latency_frames, plan.wait_ms), (22_050, 1_500));
    let plan = plan_launch(1, false, Some(4410), Some(250)).unwrap();
    assert_eq!((plan.latency_frames, plan.wait_ms), (4410, 250));
}

#[test]
fn an_empty_source_is_refused() {
    assert_eq!(check_pcm_len(0).unwrap_err(), "PCM source is empty");
    assert!(check_pcm_len(4).is_ok());
}

#[test]
fn a_started_receiver_takes_its_own_delay() {
    let mut t = target("10.0.0.5", None);
    t.delay_ms = 120;
    let c = DeviceControl::for_target(&t);
    assert_eq!((c.ip.as_str(), c.name.as_str(), c.raop_port), ("10.0.0.5", "Kitchen", 5000));
    assert_eq!((c.gain_milli, c.delay_ms, c.frames_written), (1000, 120, 0));
}

#[test]
fn a_pushed_packet_reaches_every_live_subscriber_intact() {
    let mut f = PcmFanout::new();
    let a = f.subscribe(4);
    let b = f.subscribe(4);
    f.push(vec![1, 2, 3, 4]);
    assert_eq!(a.try_recv().unwrap().as_slice(), &[1, 2, 3, 4]);
    assert_eq!(b.try_recv().unwrap().as_slice(), &[1, 2, 3, 4]);
}

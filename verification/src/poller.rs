//! The per-device poll cycle's decisions: assembling a snapshot from a fresh
//! reading, the adaptive cadence, and the offline threshold with its backoff.
//!
//! The connection, timers and event emission live with the caller; what is
//! decided here is pure, so it is stated and proved.

use vstd::prelude::*;

use crate::luci::model::{
    display_name_spec, entry_index, entry_put, lemma_entry_index_found,
    net_mode_of, opt_view, role_of, source_label, source_label_spec, DdmsBanner, DevInfo,
    DeviceSnapshot, NetMode, RawValue, Role, Track,
};
use crate::luci::messagebox::MessageBox;
use crate::store::SavedDevice;
use crate::text::{owned, parse_trimmed_unsigned, parse_unsigned, same_text, trim, trimmed};
use crate::upnp::NowPlaying;

verus! {

/// Consecutive failed cycles before a device is called offline.
pub const OFFLINE_AFTER_FAILURES: u32 = 3;
/// Floor for the poll interval.
pub const MIN_POLL_MS: u64 = 1_000;
/// Cadence while the window is focused.
pub const FOCUSED_POLL_MS: u64 = 2_000;
/// Cadence while the window is not focused.
pub const BLURRED_POLL_MS: u64 = 5_000;

/// Reconnect/retry cadence once offline, step by step.
pub open spec fn offline_backoff(step: int) -> u64 {
    if step == 0 {
        5_000
    } else if step == 1 {
        10_000
    } else {
        30_000
    }
}

/// A device's live playback read plus its DDMS banner.
pub struct Reading {
    pub volume: Option<u8>,
    pub mute: bool,
    pub source: Option<i32>,
    pub play_state: Option<i32>,
    pub track: Option<Track>,
    pub banner: Option<DdmsBanner>,
    /// Raw payloads by name (names distinct).
    pub raw: Vec<(String, RawValue)>,
}

/// The raw payloads as `(name, value)` pairs.
pub open spec fn raw_entries(raw: Seq<(String, RawValue)>) -> Seq<(Seq<char>, RawValue)> {
    raw.map_values(|p: (String, RawValue)| (p.0@, p.1))
}

/// The banner's value under `key`, when there is a banner.
pub open spec fn banner_value(banner: Option<DdmsBanner>, key: Seq<char>) -> Option<Seq<char>> {
    match banner {
        Some(b) => b.lookup(key),
        None => None,
    }
}

/// The device name a snapshot shows: the banner's `DeviceName`, else the
/// trimmed `DevName` reply.
pub open spec fn snapshot_name(banner: Option<DdmsBanner>, dev_name: Seq<char>) -> Seq<char> {
    match banner_value(banner, "DEVICENAME"@) {
        Some(n) => n,
        None => trim(dev_name),
    }
}

/// Firmware: `DevInfo`'s version when non-empty, else the banner's
/// `FWVERSION`, else empty.
pub open spec fn snapshot_firmware(dev_info: Option<DevInfo>, banner: Option<DdmsBanner>) -> Seq<char> {
    let from_info = match dev_info {
        Some(i) => i.versioninfo.devicefwversion@,
        None => Seq::empty(),
    };
    if from_info.len() > 0 {
        from_info
    } else {
        match banner_value(banner, "FWVERSION"@) {
            Some(f) => f,
            None => Seq::empty(),
        }
    }
}

pub open spec fn snapshot_role(banner: Option<DdmsBanner>) -> Role {
    match banner {
        Some(b) => role_of(b.lookup("STATE"@)),
        None => Role::Solo,
    }
}

pub open spec fn snapshot_net_mode(banner: Option<DdmsBanner>) -> Option<NetMode> {
    match banner {
        Some(b) => net_mode_of(b.lookup("NETMODE"@)),
        None => None,
    }
}

/// The raw payloads of a snapshot: the reading's, plus `devInfo` when known.
pub open spec fn snapshot_raw(reading_raw: Seq<(String, RawValue)>, dev_info: Option<DevInfo>) -> Seq<(Seq<char>, RawValue)> {
    match dev_info {
        Some(i) => entry_put(raw_entries(reading_raw), "devInfo"@, RawValue::DevInfo(i)),
        None => raw_entries(reading_raw),
    }
}

fn copy_opt_string(o: &Option<String>) -> (r: Option<String>)
    ensures
        r == *o,
{
    match o {
        Some(s) => Some(s.clone()),
        None => None,
    }
}

fn copy_raw(raw: &Vec<(String, RawValue)>) -> (r: Vec<(String, RawValue)>)
    ensures
        r@ == raw@,
{
    let mut r: Vec<(String, RawValue)> = Vec::new();
    let mut i: usize = 0;
    while i < raw.len()
        invariant
            i <= raw@.len(),
            r@ == raw@.subrange(0, i as int),
        decreases raw.len() - i,
    {
        let k = raw[i].0.clone();
        let v = raw[i].1.clone();
        r.push((k, v));
        i = i + 1;
        assert(r@ =~= raw@.subrange(0, i as int));
    }
    assert(raw@.subrange(0, i as int) =~= raw@);
    r
}

/// Map insertion on the raw payloads.
fn raw_put(raw: &mut Vec<(String, RawValue)>, key: String, value: RawValue)
    ensures
        raw_entries(final(raw)@) == entry_put(raw_entries(old(raw)@), key@, value),
{
    let ghost m = raw_entries(raw@);
    let n = raw.len();
    let mut i: usize = 0;
    while i < n
        invariant
            i <= n,
            n == raw@.len(),
            m == raw_entries(raw@),
            raw@ == old(raw)@,
            entry_index(m.subrange(0, i as int), key@) == i,
        decreases n - i,
    {
        assert(m.subrange(0, i + 1).drop_last() =~= m.subrange(0, i as int));
        if raw[i].0 == key {
            proof {
                lemma_entry_index_found(m, key@, i as int);
            }
            let ghost k = key@;
            let ghost v = value;
            raw.set(i, (key, value));
            assert(raw_entries(raw@) =~= entry_put(m, k, v));
            return ;
        }
        i = i + 1;
    }
    assert(m.subrange(0, n as int) =~= m);
    let ghost k = key@;
    raw.push((key, value));
    assert(raw_entries(raw@) =~= entry_put(m, k, value));
}

/// Assemble a snapshot from cached identity plus a fresh reading: the
/// banner's name, model, network and role win; `DevInfo` supplies the
/// firmware; the reading supplies playback state.
pub fn build_snapshot(
    uuid: &str,
    ip: &str,
    alias: Option<String>,
    dev_info: Option<&DevInfo>,
    dev_name: &str,
    reading: &Reading,
    last_seen: i64,
) -> (s: DeviceSnapshot)
    ensures
        s.uuid@ == uuid@,
        s.ip@ == ip@,
        s.name@ == snapshot_name(reading.banner, dev_name@),
        s.alias == alias,
        s.display_name@ == display_name_spec(
            opt_view(alias),
            snapshot_name(reading.banner, dev_name@),
            ip@,
        ),
        s.online,
        s.net_mode == snapshot_net_mode(reading.banner),
        opt_view(s.wifi_band) == banner_value(reading.banner, "WIFIBAND"@),
        s.model@ == match banner_value(reading.banner, "CAST_MODEL"@) {
            Some(m) => m,
            None => Seq::empty(),
        },
        s.firmware@ == snapshot_firmware(
            match dev_info {
                Some(i) => Some(*i),
                None => None,
            },
            reading.banner,
        ),
        s.role == snapshot_role(reading.banner),
        opt_view(s.group_id) == (if snapshot_role(reading.banner) != Role::Solo {
            banner_value(reading.banner, "USN"@)
        } else {
            None
        }),
        s.master_uuid is None,
        s.volume == reading.volume,
        s.mute == reading.mute,
        s.source == reading.source,
        opt_view(s.source_label) == match reading.source {
            Some(n) => Some(source_label_spec(n as int)),
            None => None,
        },
        s.play_state == reading.play_state,
        s.track == reading.track,
        s.last_seen == Some(last_seen),
        raw_entries(s.raw@) == snapshot_raw(
            reading.raw@,
            match dev_info {
                Some(i) => Some(*i),
                None => None,
            },
        ),
{
    let mut name = trimmed(dev_name);
    let mut firmware = String::new();
    let mut model = String::new();
    let mut net_mode: Option<NetMode> = None;
    let mut wifi_band: Option<String> = None;
    let mut role = Role::Solo;
    let mut group_id: Option<String> = None;
    match &reading.banner {
        Some(b) => {
            match b.device_name() {
                Some(n) => {
                    name = owned(n);
                },
                None => {},
            }
            match b.model() {
                Some(m) => {
                    model = owned(m);
                },
                None => {},
            }
            net_mode = b.net_mode();
            match b.wifi_band() {
                Some(w) => {
                    wifi_band = Some(owned(w));
                },
                None => {},
            }
            role = b.role();
            match b.usn() {
                Some(u) => {
                    if role != Role::Solo {
                        group_id = Some(owned(u));
                    }
                },
                None => {},
            }
            match b.firmware() {
                Some(f) => {
                    firmware = owned(f);
                },
                None => {},
            }
        },
        None => {},
    }
    match dev_info {
        Some(i) => {
            if i.versioninfo.devicefwversion.as_str().unicode_len() > 0 {
                firmware = i.versioninfo.devicefwversion.clone();
            }
        },
        None => {},
    }
    let mut raw = copy_raw(&reading.raw);
    match dev_info {
        Some(i) => {
            raw_put(&mut raw, owned("devInfo"), RawValue::DevInfo(i.clone()));
        },
        None => {},
    }
    let label = match reading.source {
        Some(n) => Some(source_label(n)),
        None => None,
    };
    let track = match &reading.track {
        Some(t) => Some(t.clone()),
        None => None,
    };
    let mut snapshot = DeviceSnapshot {
        uuid: owned(uuid),
        ip: owned(ip),
        name,
        alias,
        display_name: String::new(),
        online: true,
        net_mode,
        wifi_band,
        model,
        firmware,
        role,
        group_id,
        master_uuid: None,
        volume: reading.volume,
        mute: reading.mute,
        source: reading.source,
        source_label: label,
        play_state: reading.play_state,
        track,
        last_seen: Some(last_seen),
        raw,
    };
    snapshot.refresh_display_name();
    snapshot
}

/// The poll interval for a focus state: snappier while focused, never below
/// the floor.
pub fn poll_interval_ms(focused: bool) -> (r: u64)
    ensures
        r == if focused {
            FOCUSED_POLL_MS
        } else {
            BLURRED_POLL_MS
        },
        r >= MIN_POLL_MS,
{
    let ms = if focused {
        FOCUSED_POLL_MS
    } else {
        BLURRED_POLL_MS
    };
    if ms < MIN_POLL_MS {
        MIN_POLL_MS
    } else {
        ms
    }
}

/// What one failed poll cycle decides.
#[derive(Debug, Clone, Copy, PartialEq, Eq, Structural)]
pub struct FailStep {
    /// The failure streak after this cycle.
    pub failures: u32,
    /// The backoff position after this cycle.
    pub backoff: u32,
    /// The wait before the next attempt.
    pub wait_ms: u64,
    /// The device is to be shown offline now.
    pub offline: bool,
}

/// What a failed cycle decides after `failures` failures at backoff
/// position `backoff`.
pub open spec fn spec_fail_step(failures: u32, backoff: u32) -> FailStep {
    let f = (failures + 1) as u32;
    if f < OFFLINE_AFTER_FAILURES {
        FailStep { failures: f, backoff, wait_ms: 2_000, offline: false }
    } else {
        FailStep {
            failures: f,
            backoff: if backoff + 1 < 2 {
                (backoff + 1) as u32
            } else {
                2
            },
            wait_ms: offline_backoff(
                if backoff < 2 {
                    backoff as int
                } else {
                    2
                },
            ),
            offline: true,
        }
    }
}

/// The decision of the `n`-th consecutive failed cycle of a device that was
/// answering before it.
pub open spec fn nth_failure(n: nat) -> FailStep
    decreases n,
{
    if n <= 1 {
        spec_fail_step(0, 0)
    } else {
        let prev = nth_failure((n - 1) as nat);
        spec_fail_step(prev.failures, prev.backoff)
    }
}

/// A device is called offline at its third consecutive failed cycle and not
/// before; until then each retry waits 2 s, and from then on the waits are
/// 5 s, 10 s, then 30 s for good.
pub proof fn law_offline_after_three_failures(n: nat)
    requires
        1 <= n < u32::MAX,
    ensures
        nth_failure(n).failures == n,
        nth_failure(n).offline == (n >= 3),
        nth_failure(n).backoff == (if n < 3 {
            0u32
        } else if n == 3 {
            1u32
        } else {
            2u32
        }),
        nth_failure(n).wait_ms == (if n < 3 {
            2_000u64
        } else if n == 3 {
            5_000u64
        } else if n == 4 {
            10_000u64
        } else {
            30_000u64
        }),
    decreases n,
{
    if n > 1 {
        law_offline_after_three_failures((n - 1) as nat);
    }
}

/// The snapshot a device is shown with once it crosses the offline
/// threshold: the last published one marked offline (identity kept), else
/// the saved device's offline placeholder; and whether it was online until
/// now, in which case its last-seen time is to be recorded.
pub fn offline_snapshot(published: Option<DeviceSnapshot>, uuid: &str, ip: &str, alias: Option<String>) -> (r: (
    DeviceSnapshot,
    bool,
))
    ensures
        match published {
            Some(p) => r.0 == p.marked_offline() && r.1 == p.online,
            None => {
                &&& !r.1
                &&& r.0.uuid@ == uuid@
                &&& r.0.ip@ == ip@
                &&& r.0.alias == alias
                &&& r.0.display_name@ == display_name_spec(opt_view(alias), Seq::empty(), ip@)
                &&& !r.0.online
                &&& r.0.role == Role::Solo
                &&& r.0.volume is None
                &&& r.0.track is None
                &&& r.0.last_seen is None
            },
        },
{
    match published {
        Some(mut p) => {
            let was_online = p.online;
            p.mark_offline();
            (p, was_online)
        },
        None => {
            let mut s = DeviceSnapshot::offline(uuid, ip, alias, None);
            s.mark_offline();
            (s, false)
        },
    }
}

/// Record a failed cycle: under the threshold, retry after 2 s; at or above
/// it, go offline and wait the next step of the 5 s / 10 s / 30 s backoff.
pub fn fail_step(failures: u32, backoff: u32) -> (r: FailStep)
    requires
        failures < u32::MAX,
    ensures
        r == spec_fail_step(failures, backoff),
        r.failures == failures + 1,
        r.offline == (failures + 1 >= OFFLINE_AFTER_FAILURES),
        !r.offline ==> r.wait_ms == 2_000 && r.backoff == backoff,
        r.offline ==> r.wait_ms == offline_backoff(if backoff < 2 {
            backoff as int
        } else {
            2
        }) && r.backoff == (if backoff + 1 < 2 {
            backoff + 1
        } else {
            2
        }),
{
    let failures = failures + 1;
    if failures < OFFLINE_AFTER_FAILURES {
        let wait = if MIN_POLL_MS > 2_000 {
            MIN_POLL_MS
        } else {
            2_000
        };
        return FailStep { failures, backoff, wait_ms: wait, offline: false };
    }
    let step = if backoff < 2 {
        backoff
    } else {
        2
    };
    let next = if backoff < 1 {
        backoff + 1
    } else {
        2
    };
    let wait: u64 = if step == 0 {
        5_000
    } else if step == 1 {
        10_000
    } else {
        30_000
    };
    FailStep { failures, backoff: next, wait_ms: wait, offline: true }
}

/// The effective cadence: the adaptive interval, never faster than the
/// user's configured floor clamped to the allowed range.
pub fn effective_poll_ms(adaptive_ms: u64, configured_ms: u64, min_ms: u64, max_ms: u64) -> (r: u64)
    requires
        min_ms <= max_ms,
    ensures
        ({
            let floor = if configured_ms < min_ms {
                min_ms
            } else if configured_ms > max_ms {
                max_ms
            } else {
                configured_ms
            };
            r == if adaptive_ms > floor {
                adaptive_ms
            } else {
                floor
            }
        }),
{
    let floor = if configured_ms < min_ms {
        min_ms
    } else if configured_ms > max_ms {
        max_ms
    } else {
        configured_ms
    };
    if adaptive_ms > floor {
        adaptive_ms
    } else {
        floor
    }
}

/// Now-playing is asked of UPnP only while the device is playing, so an idle
/// device never pays the round trip.
pub fn wants_now_playing(play_state: Option<i32>) -> (r: bool)
    ensures
        r == (play_state == Some(1i32)),
{
    match play_state {
        Some(p) => p == 1,
        None => false,
    }
}

/// The track a poll reports: the UPnP now-playing when it said anything (its
/// position preferred, the pushed position as fallback); else, when a position
/// was pushed, a track carrying only that position; else none.
pub fn poll_track(now_playing: Option<NowPlaying>, pushed_position: Option<u64>) -> (r: Option<Track>)
    ensures
        match now_playing {
            Some(np) if !(np.title@.len() == 0 && np.artist@.len() == 0 && np.album@.len() == 0
                && np.duration_ms is None) => r matches Some(t) && t.title@ == np.title@
                && t.artist@ == np.artist@ && t.album@ == np.album@ && t.duration_ms
                == np.duration_ms && t.position_ms == match np.position_ms {
                Some(p) => Some(p),
                None => pushed_position,
            },
            _ => match pushed_position {
                Some(p) => r matches Some(t) && t.title@.len() == 0 && t.artist@.len() == 0
                    && t.album@.len() == 0 && t.duration_ms is None && t.position_ms == Some(p),
                None => r is None,
            },
        },
{
    if let Some(np) = now_playing {
        if !np.is_empty() {
            let position_ms = match np.position_ms {
                Some(p) => Some(p),
                None => pushed_position,
            };
            return Some(
                Track {
                    title: np.title,
                    artist: np.artist,
                    album: np.album,
                    duration_ms: np.duration_ms,
                    position_ms,
                },
            );
        }
    }
    match pushed_position {
        Some(p) => Some(
            Track {
                title: String::new(),
                artist: String::new(),
                album: String::new(),
                duration_ms: None,
                position_ms: Some(p),
            },
        ),
        None => None,
    }
}

/// A pushed `GetPlayDuration` updates the known play position; every other
/// push, or a payload that is not a number, leaves it alone.
pub fn pushed_position(mb: MessageBox, payload: &str) -> (r: Option<u64>)
    ensures
        mb == MessageBox::GetPlayDuration ==> match parse_unsigned(trim(payload@), u64::MAX as nat) {
            Some(v) => r == Some(v as u64),
            None => r is None,
        },
        mb != MessageBox::GetPlayDuration ==> r is None,
{
    if mb == MessageBox::GetPlayDuration {
        parse_trimmed_unsigned(payload, u64::MAX)
    } else {
        None
    }
}

/// Record a successful contact in the saved list: the device's last-seen
/// time, and its transport when one is known and differs.
pub fn note_seen(devices: &mut Vec<SavedDevice>, uuid: &str, seen: i64, mode: Option<String>)
    ensures
        final(devices)@.len() == old(devices)@.len(),
        forall|i: int|
            0 <= i < old(devices)@.len() ==> {
                let d = old(devices)@[i];
                let e = #[trigger] final(devices)@[i];
                if d.uuid@ == uuid@ && (forall|j: int| 0 <= j < i ==> old(devices)@[j].uuid@ != uuid@) {
                    e == (SavedDevice {
                        last_seen: Some(seen),
                        net_mode: if mode is Some {
                            mode
                        } else {
                            d.net_mode
                        },
                        ..d
                    })
                } else {
                    e == d
                }
            },
{
    let mut i: usize = 0;
    while i < devices.len()
        invariant
            i <= devices@.len(),
            devices@ == old(devices)@,
            forall|j: int| 0 <= j < i ==> #[trigger] old(devices)@[j].uuid@ != uuid@,
        decreases devices@.len() - i,
    {
        if same_text(devices[i].uuid.as_str(), uuid) {
            let mut d = devices[i].clone();
            d.last_seen = Some(seen);
            if mode.is_some() {
                d.net_mode = mode;
            }
            devices.set(i, d);
            return;
        }
        i = i + 1;
    }
}

} // verus!

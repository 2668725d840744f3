use musicsync::luci::model::{DdmsBanner, DevInfo, NetMode, Role};
use musicsync::luci::messagebox::MessageBox;
use musicsync::poller::{
    build_snapshot, fail_step, note_seen, offline_snapshot, poll_interval_ms, poll_track, pushed_position, wants_now_playing,
    Reading,
};
use musicsync::store::SavedDevice;
use musicsync::upnp::NowPlaying;

fn reading_with_banner(banner_text: Option<&str>) -> Reading {
    Reading {
        volume: Some(30),
        mute: false,
        source: Some(10),
        play_state: Some(1),
        track: None,
        banner: banner_text.map(DdmsBanner::parse),
        raw: Vec::new(),
    }
}

#[test]
fn build_snapshot_prefers_ddms_name_and_devinfo_firmware() {
    let mut info = DevInfo::default();
    info.versioninfo.devicefwversion = "AR241CE_9243.16.2".to_string();
    info.versioninfo.mcuversion = "16".to_string();
    let reading = reading_with_banner(Some(
        "DeviceName:Lofficina-main\r\nState:S\r\nNETMODE:ETH0\r\nWIFIBAND:ETH\r\nCAST_MODEL:LP10\r\n",
    ));
    let snap = build_snapshot("U1", "192.168.10.104", None, Some(&info), "fallback", &reading, 42);
    assert_eq!(snap.uuid, "U1");
    assert_eq!(snap.name, "Lofficina-main");
    assert_eq!(snap.display_name, "Lofficina-main");
    assert_eq!(snap.firmware, "AR241CE_9243.16.2");
    assert_eq!(snap.model, "LP10");
    assert_eq!(snap.net_mode, Some(NetMode::Ethernet));
    assert_eq!(snap.wifi_band.as_deref(), Some("ETH"));
    assert_eq!(snap.role, Role::Solo);
    assert_eq!(snap.volume, Some(30));
    assert!(snap.online);
}

#[test]
fn build_snapshot_alias_wins_display_name() {
    let reading = reading_with_banner(None);
    let snap = build_snapshot("U1", "1.2.3.4", Some("Cucina".into()), None, "LP10", &reading, 1);
    assert_eq!(snap.display_name, "Cucina");
    assert_eq!(snap.name, "LP10", "device name still recorded");
}

#[test]
fn poll_cadence_is_faster_when_focused() {
    assert_eq!(poll_interval_ms(true), 2_000);
    assert_eq!(poll_interval_ms(false), 5_000);
}

#[test]
fn third_failure_goes_offline_and_backs_off() {
    let first = fail_step(0, 0);
    assert!(!first.offline);
    assert_eq!(first.failures, 1);
    let third = fail_step(2, 0);
    assert!(third.offline);
    assert_eq!(third.wait_ms, 5_000);
    let later = fail_step(5, 2);
    assert_eq!(later.wait_ms, 30_000);
}

#[test]
fn now_playing_is_asked_only_while_playing() {
    assert!(wants_now_playing(Some(1)));
    assert!(!wants_now_playing(Some(2)));
    assert!(!wants_now_playing(None));
}

#[test]
fn poll_track_prefers_upnp_and_falls_back_to_the_pushed_position() {
    let np = NowPlaying {
        title: "T".into(),
        artist: "A".into(),
        album: String::new(),
        duration_ms: Some(9),
        position_ms: None,
    };
    let t = poll_track(Some(np), Some(77)).unwrap();
    assert_eq!(t.title, "T");
    assert_eq!(t.position_ms, Some(77));
    let only_pos = poll_track(Some(NowPlaying::default()), Some(5)).unwrap();
    assert_eq!(only_pos.title, "");
    assert_eq!(only_pos.position_ms, Some(5));
    assert!(poll_track(None, None).is_none());
}

#[test]
fn play_duration_pushes_move_the_position() {
    assert_eq!(pushed_position(MessageBox::GetPlayDuration, " 1234 "), Some(1234));
    assert_eq!(pushed_position(MessageBox::GetPlayDuration, "x"), None);
    assert_eq!(pushed_position(MessageBox::Volume, "1234"), None);
}

#[test]
fn contact_is_recorded_on_the_saved_entry() {
    let mut list = vec![
        SavedDevice { uuid: "A".into(), ..SavedDevice::default() },
        SavedDevice { uuid: "B".into(), net_mode: Some("wifi".into()), ..SavedDevice::default() },
    ];
    note_seen(&mut list, "B", 42, None);
    assert_eq!(list[1].last_seen, Some(42));
    assert_eq!(list[1].net_mode.as_deref(), Some("wifi"));
    note_seen(&mut list, "B", 43, Some("ethernet".into()));
    assert_eq!(list[1].net_mode.as_deref(), Some("ethernet"));
    assert_eq!(list[0].last_seen, None);
}

#[test]
fn consecutive_failures_go_offline_at_the_third_and_back_off() {
    let (mut failures, mut backoff) = (0u32, 0u32);
    let mut waits = Vec::new();
    let mut offline = Vec::new();
    for _ in 0..6 {
        let step = fail_step(failures, backoff);
        failures = step.failures;
        backoff = step.backoff;
        waits.push(step.wait_ms);
        offline.push(step.offline);
    }
    assert_eq!(failures, 6);
    assert_eq!(offline, vec![false, false, true, true, true, true]);
    assert_eq!(waits, vec![2_000, 2_000, 5_000, 10_000, 30_000, 30_000]);
}

#[test]
fn an_offline_device_keeps_its_identity_and_drops_live_state() {
    let reading = reading_with_banner(Some("DeviceName:Cucina\r\nState:M\r\nNETMODE:WLAN\r\nUSN:AA:BB\r\n"));
    let live = build_snapshot("U1", "10.0.0.4", None, None, "", &reading, 77);
    let (gone, was_online) = offline_snapshot(Some(live), "U1", "10.0.0.4", None);
    assert!(was_online);
    assert!(!gone.online);
    assert_eq!(gone.name, "Cucina");
    assert_eq!(gone.last_seen, Some(77));
    assert_eq!(gone.volume, None);
    assert_eq!(gone.role, musicsync::luci::model::Role::Solo);
    assert_eq!(gone.group_id, None);

    let (placeholder, was_online) = offline_snapshot(None, "U2", "10.0.0.5", Some("Garden".into()));
    assert!(!was_online);
    assert_eq!(placeholder.display_name, "Garden");
    assert_eq!(placeholder.last_seen, None);
    assert!(!placeholder.online);
}

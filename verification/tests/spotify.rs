use musicsync::spotify::meta::{join_artists, pick_largest_cover, AudioItemInfo, ItemKind, TrackMeta};
use musicsync::spotify::sink::s16_to_le_bytes;
use musicsync::spotify::state::{apply_event, PlayState, SpotifyEvent, SpotifyState};

#[test]
fn join_artists_comma_separates() {
    assert_eq!(join_artists(&["A".into(), "B".into()]), "A, B");
    assert_eq!(join_artists(&["Solo".into()]), "Solo");
    assert_eq!(join_artists(&[]), "");
}

#[test]
fn join_artists_drops_blanks() {
    assert_eq!(join_artists(&["A".into(), "  ".into(), "C".into()]), "A, C");
}

#[test]
fn pick_largest_cover_by_area() {
    let covers = vec![
        ("small".into(), 64, 64),
        ("big".into(), 640, 640),
        ("mid".into(), 300, 300),
    ];
    assert_eq!(pick_largest_cover(&covers), Some("big".into()));
}

#[test]
fn pick_largest_cover_handles_empty_and_dimensionless() {
    assert_eq!(pick_largest_cover(&[]), None);
    assert_eq!(pick_largest_cover(&[("only".into(), 0, 0)]), Some("only".into()));
}

#[test]
fn pick_largest_cover_keeps_the_last_of_equal_areas() {
    let covers = vec![("first".into(), 10, 20), ("second".into(), 20, 10)];
    assert_eq!(pick_largest_cover(&covers), Some("second".into()));
}

#[test]
fn track_meta_maps_each_item_kind() {
    let track = AudioItemInfo {
        name: "Song".into(),
        kind: ItemKind::Track { artists: vec!["A".into(), "".into(), "B".into()], album: "LP".into() },
        covers: vec![("u1".into(), 64, 64), ("u2".into(), 300, 300)],
        duration_ms: 1234,
    };
    let m = TrackMeta::from_item(&track);
    assert_eq!(m.title, "Song");
    assert_eq!(m.artist, "A, B");
    assert_eq!(m.album, "LP");
    assert_eq!(m.art_url.as_deref(), Some("u2"));
    assert_eq!(m.duration_ms, 1234);

    let episode = AudioItemInfo {
        name: "Ep".into(),
        kind: ItemKind::Episode { show_name: "Show".into() },
        covers: vec![],
        duration_ms: 1,
    };
    let e = TrackMeta::from_item(&episode);
    assert_eq!(e.artist, "Show");
    assert_eq!(e.album, "");
    assert_eq!(e.art_url, None);

    let local = AudioItemInfo {
        name: "F".into(),
        kind: ItemKind::Local { artists: None, album: Some("Tape".into()) },
        covers: vec![],
        duration_ms: 0,
    };
    let l = TrackMeta::from_item(&local);
    assert_eq!(l.artist, "");
    assert_eq!(l.album, "Tape");
}

#[test]
fn s16_serialises_little_endian_and_frame_sized() {
    let bytes = s16_to_le_bytes(&[0x0102, -1, 0, i16::MIN]);
    assert_eq!(bytes, vec![0x02, 0x01, 0xFF, 0xFF, 0x00, 0x00, 0x00, 0x80]);
    assert_eq!(bytes.len() % 4, 0);
}

#[test]
fn empty_input_yields_no_bytes() {
    assert!(s16_to_le_bytes(&[]).is_empty());
}

#[test]
fn player_events_move_the_mirrored_state() {
    let mut s = SpotifyState::advertising();
    assert!(s.running);
    assert_eq!(s.device_name, "MusicSync");
    assert!(apply_event(&mut s, SpotifyEvent::SessionConnected));
    assert!(s.connected);
    assert!(apply_event(&mut s, SpotifyEvent::Playing { position_ms: 500 }));
    assert_eq!(s.play_state, PlayState::Playing);
    assert_eq!(s.position_ms, 500);
    assert!(apply_event(&mut s, SpotifyEvent::VolumeChanged { volume: 30000 }));
    assert_eq!(s.volume, 30000);
    assert!(!apply_event(&mut s, SpotifyEvent::Other));
    assert!(apply_event(&mut s, SpotifyEvent::SessionDisconnected));
    assert!(!s.connected);
    assert_eq!(s.play_state, PlayState::Stopped);
    assert!(s.running);
    let d = SpotifyState::default();
    assert!(!d.running);
    assert_eq!(d.play_state, PlayState::Stopped);
}

use musicsync::luci::client::{push_event, reply_payload};
use musicsync::luci::codec::{decode_frame, drain_frames, encode, Frame, HEADER_LEN};
use musicsync::luci::messagebox::{MessageBox, MessageType};
use musicsync::luci::model::{
    display_name, parse_mute, parse_play_state, parse_source, parse_volume, source_controllable,
    source_label, DdmsBanner, JsonScalar, NetMode, Role, Track,
};

/// A device response frame: command big-endian, length big-endian.
fn encode_response(command: u16, command_type: u8, status: u8, payload: &str) -> Vec<u8> {
    let bytes = payload.as_bytes();
    let len = bytes.len() as u16;
    let mut out = vec![
        0,
        0,
        command_type,
        (command >> 8) as u8,
        (command & 0xff) as u8,
        status,
        0,
        0,
        (len >> 8) as u8,
        (len & 0xff) as u8,
    ];
    out.extend_from_slice(bytes);
    out
}

#[test]
fn request_header_is_little_endian() {
    let bytes = encode(64, 1, "");
    assert_eq!(bytes.len(), HEADER_LEN);
    assert_eq!(bytes[2], 1, "commandType");
    assert_eq!(bytes[3], 0x40, "command low byte");
    assert_eq!(bytes[4], 0x00, "command high byte");
    assert_eq!(&bytes[8..10], &[0, 0], "dataLen 0");

    let bytes = encode(92, 2, "abc");
    assert_eq!(bytes[3], 0x5C);
    assert_eq!(bytes[4], 0x00);
    assert_eq!(&bytes[8..10], &[3, 0], "dataLen 3 LE");
    assert_eq!(&bytes[HEADER_LEN..], b"abc");
}

#[test]
fn decodes_a_big_endian_response() {
    let wire = encode_response(64, 1, 1, "30");
    let (frame, consumed) = decode_frame(&wire).expect("full frame");
    assert_eq!(consumed, wire.len());
    assert_eq!(frame.command, 64);
    assert_eq!(frame.status, 1);
    assert_eq!(frame.payload, "30");
}

#[test]
fn decodes_the_documented_devinfo_response() {
    let json = r#"{"macaddress":{"bt":"F4:AB:5C:FC:A8:2F","eth0":"00:E0:3A:00:0A:8A","wlan0":"D8:F7:10:71:86:28"},"serialnumber":{"device_serialnumber":"RKARYLLP102625004937"},"versioninfo":{"devicefwversion":"AR241CE_9243.16.2","mcuversion":"16"}}"#;
    let wire = encode_response(92, 1, 1, json);
    let (frame, consumed) = decode_frame(&wire).expect("full frame");
    assert_eq!(consumed, wire.len());
    assert_eq!(frame.command, 92);
    assert_eq!(frame.status, 1);
    assert_eq!(frame.payload, json);
}

#[test]
fn waits_for_a_partial_frame() {
    let wire = encode_response(92, 1, 1, "hello");
    assert!(decode_frame(&wire[..wire.len() - 1]).is_none());
    assert!(decode_frame(&wire[..5]).is_none());
}

#[test]
fn drains_multiple_concatenated_frames() {
    let mut buf = Vec::new();
    buf.extend_from_slice(&encode_response(64, 1, 1, "30"));
    buf.extend_from_slice(&encode_response(51, 1, 1, "1"));
    let partial = encode_response(50, 1, 1, "10");
    buf.extend_from_slice(&partial[..partial.len() - 1]);

    let frames = drain_frames(&mut buf);
    assert_eq!(frames.len(), 2);
    assert_eq!(frames[0].command, 64);
    assert_eq!(frames[0].payload, "30");
    assert_eq!(frames[1].command, 51);
    assert_eq!(frames[1].payload, "1");
    assert_eq!(buf.len(), partial.len() - 1, "partial frame retained");
}

#[test]
fn round_trips_an_empty_payload_response() {
    let wire = encode_response(3, 2, 1, "");
    let (frame, consumed) = decode_frame(&wire).expect("full frame");
    assert_eq!(consumed, HEADER_LEN);
    assert_eq!(frame.command, 3);
    assert!(frame.payload.is_empty());
}

#[test]
fn invalid_utf8_payload_is_decoded_lossily() {
    let mut wire = encode_response(92, 1, 1, "ab");
    wire[HEADER_LEN + 1] = 0xff;
    let (frame, _) = decode_frame(&wire).expect("full frame");
    assert_eq!(frame.payload, "a\u{fffd}");
}

#[test]
fn message_type_ids() {
    assert_eq!(MessageType::Read.id(), 1);
    assert_eq!(MessageType::Write.id(), 2);
}

#[test]
fn id_round_trips_through_try_from() {
    for mb in [
        MessageBox::RegAsyncEvents,
        MessageBox::DevInfo,
        MessageBox::Volume,
        MessageBox::MuteUnmute,
        MessageBox::PlayState,
        MessageBox::CurrSource,
        MessageBox::TrackInfo,
        MessageBox::GetPlayDuration,
        MessageBox::DevName,
        MessageBox::DeviceState,
        MessageBox::ZoneVolume,
        MessageBox::SlaveInfo,
    ] {
        assert_eq!(MessageBox::try_from(mb.id()), Ok(mb));
    }
}

#[test]
fn known_ids_match_the_spec() {
    assert_eq!(MessageBox::DevInfo.id(), 92);
    assert_eq!(MessageBox::Volume.id(), 64);
    assert_eq!(MessageBox::MuteUnmute.id(), 63);
    assert_eq!(MessageBox::PlayState.id(), 51);
    assert_eq!(MessageBox::CurrSource.id(), 50);
    assert_eq!(MessageBox::RegAsyncEvents.id(), 3);
    assert_eq!(MessageBox::MraTrigger.id(), 100);
}

#[test]
fn unknown_id_returns_the_raw_value() {
    assert_eq!(MessageBox::try_from(9999), Err(9999));
    assert_eq!(MessageBox::try_from(0), Err(0));
}

#[test]
fn scalar_helpers() {
    assert_eq!(parse_volume("30"), Some(30));
    assert_eq!(parse_volume(" 25 "), Some(25));
    assert_eq!(parse_volume("n/a"), None);
    assert_eq!(parse_volume("100"), Some(100));
    assert_eq!(parse_volume("101"), None);
    assert_eq!(parse_volume("200"), None);
    assert!(parse_mute("MUTE"));
    assert!(parse_mute("mute"));
    assert!(!parse_mute("UNMUTE"));
    assert_eq!(parse_play_state("1"), Some(1));
    assert_eq!(parse_source("10"), Some(10));
}

#[test]
fn source_label_maps_verified_codes_and_degrades() {
    assert_eq!(source_label(0), "Idle");
    assert_eq!(source_label(4), "Streaming");
    assert_eq!(source_label(2), "Source 2");
    assert_eq!(source_label(99), "Source 99");
    assert!(!source_controllable(0));
    assert!(source_controllable(4));
    assert!(source_controllable(7));
}

#[test]
fn ddms_banner_parses_and_classifies() {
    let banner = "HTTP/1.1 200 OK\r\n\
        DeviceName:Lofficina-main\r\n\
        State:S\r\n\
        NETMODE:ETH0\r\n\
        WIFIBAND:ETH\r\n\
        PORT:7777\r\n\
        TCPPORT:2020\r\n\
        MRAMode:DDMS\r\n\
        USN:00:E0:3A:00:0A:8A\r\n\
        FWVERSION:AR241CE_9243\r\n\
        CAST_MODEL:LP10\r\n";
    let b = DdmsBanner::parse(banner);
    assert_eq!(b.device_name(), Some("Lofficina-main"));
    assert_eq!(b.net_mode(), Some(NetMode::Ethernet));
    assert_eq!(b.wifi_band(), Some("ETH"));
    assert_eq!(b.port(), Some(7777));
    assert_eq!(b.usn(), Some("00:E0:3A:00:0A:8A"));
    assert_eq!(b.model(), Some("LP10"));
    assert_eq!(b.role(), Role::Solo);
}

#[test]
fn ddms_wlan_is_wifi_and_grouped_state_is_not_solo() {
    let b = DdmsBanner::parse("DeviceName:Garden\r\nState:M\r\nNETMODE:WLAN\r\nWIFIBAND:2G\r\n");
    assert_eq!(b.net_mode(), Some(NetMode::Wifi));
    assert_eq!(b.wifi_band(), Some("2G"));
    assert_eq!(b.role(), Role::Master);

    let empty = DdmsBanner::parse("NETMODE:WLAN\r\n");
    assert_eq!(empty.role(), Role::Solo, "no State reads as solo");
}

#[test]
fn display_name_prefers_alias_then_name_then_ip() {
    assert_eq!(display_name(Some("Cucina"), "LP10", "192.168.1.5"), "Cucina");
    assert_eq!(display_name(Some("  "), "LP10", "192.168.1.5"), "LP10");
    assert_eq!(display_name(None, "", "192.168.1.5"), "192.168.1.5");
}

#[test]
fn reply_status_one_is_the_payload_and_else_a_device_error() {
    let ok = Frame { command: 64, command_type: 2, status: 1, payload: "30".to_string() };
    assert_eq!(reply_payload("10.0.0.2", 64, ok).unwrap(), "30");
    let bad = Frame { command: 64, command_type: 2, status: 0, payload: String::new() };
    let err = reply_payload("10.0.0.2", 64, bad).unwrap_err();
    assert_eq!(err.code(), "device_error");
    assert_eq!(err.message(), "10.0.0.2 rejected command 64 (status 0).");
}

#[test]
fn uncorrelated_frames_become_pushes_only_for_known_commands() {
    let known = Frame { command: 64, command_type: 2, status: 1, payload: "31".to_string() };
    let (mb, status, payload) = push_event(known).expect("a known push");
    assert_eq!(mb, MessageBox::Volume);
    assert_eq!(status, 1);
    assert_eq!(payload, "31");
    let unknown = Frame { command: 9999, command_type: 2, status: 1, payload: String::new() };
    assert!(push_event(unknown).is_none());
}

#[test]
fn track_info_parse_is_tolerant() {
    let t = Track::parse_track_info(r#"{"title":"Song","artist":"Band","duration":210000}"#);
    assert_eq!(t.title, "Song");
    assert_eq!(t.artist, "Band");
    assert_eq!(t.duration_ms, Some(210000));
    assert!(Track::parse_track_info("garbage").is_empty());
}

#[test]
fn track_info_reads_alternate_spellings_and_string_durations() {
    let t = Track::parse_track_info(
        r#"  {"Title":"  Night  ","ARTIST":"   ","artistName":"Duo","totlen":" 180000 ","album":7}  "#,
    );
    assert_eq!(t.title, "Night");
    assert_eq!(t.artist, "Duo");
    assert_eq!(t.album, "");
    assert_eq!(t.duration_ms, Some(180000));
    assert_eq!(t.position_ms, None);
}

#[test]
fn track_fields_can_be_read_from_parsed_members() {
    let fields = vec![
        ("trackName".to_string(), JsonScalar::Str("Tune".into())),
        ("durationMs".to_string(), JsonScalar::Num(Some(5))),
    ];
    let t = Track::from_json_fields(&fields);
    assert_eq!(t.title, "Tune");
    assert_eq!(t.duration_ms, Some(5));
    assert!(Track::parse_track_info("[1, 2]").is_empty());
}

use musicsync::linkplay::client::{expect_ok, retry_delay_ms, JoinVariant, LinkplayCommand, TransportCmd};
use musicsync::linkplay::hexstr::decode;
use musicsync::linkplay::models::{
    blank_to_none, derive_role, display_name, source_label, DeviceRole, DeviceSnapshot, PlayerInfo,
    PlayerStatus, SlaveEntry, SlaveInfo, SlaveList, StatusEx,
};

fn status(uuid: &str, group: u8, master_uuid: &str, master_ip: &str) -> StatusEx {
    StatusEx {
        uuid: uuid.into(),
        group,
        master_uuid: master_uuid.into(),
        master_ip: master_ip.into(),
        ..StatusEx::default()
    }
}

fn entry(name: &str, uuid: &str, ip: &str, volume: u8) -> SlaveEntry {
    SlaveEntry {
        name: name.into(),
        uuid: uuid.into(),
        ip: ip.into(),
        version: String::new(),
        channel: 0,
        volume,
        mute: false,
    }
}

#[test]
fn read_commands_match_the_documented_syntax() {
    assert_eq!(LinkplayCommand::GetStatusEx.to_query(), "getStatusEx");
    assert_eq!(LinkplayCommand::GetPlayerStatus.to_query(), "getPlayerStatus");
    assert_eq!(LinkplayCommand::GetSlaveList.to_query(), "multiroom:getSlaveList");
}

#[test]
fn join_variants_render_their_own_syntax() {
    let eth = LinkplayCommand::JoinGroup { master_ip: "192.168.10.20".into(), variant: JoinVariant::Eth };
    assert_eq!(eth.to_query(), "ConnectMasterAp:JoinGroupMaster:eth192.168.10.20:wifi0.0.0.0");

    let multi = LinkplayCommand::JoinGroup {
        master_ip: "192.168.10.20".into(),
        variant: JoinVariant::MultiroomEth,
    };
    assert_eq!(multi.to_query(), "multiroom:JoinGroupMaster:eth192.168.10.20:wifi0.0.0.0");

    let legacy = LinkplayCommand::JoinGroup {
        master_ip: "192.168.10.20".into(),
        variant: JoinVariant::LegacySsid { ssid_hex: "4c503130".into() },
    };
    assert_eq!(legacy.to_query(), "ConnectMasterAp:ssid=4c503130:ch=0:auth=OPEN:encry=NONE:pwd=:chext=0");
}

#[test]
fn group_commands_match_the_documented_syntax() {
    assert_eq!(LinkplayCommand::Ungroup.to_query(), "multiroom:Ungroup");
    assert_eq!(
        LinkplayCommand::KickSlave { slave_ip: "192.168.10.21".into() }.to_query(),
        "multiroom:SlaveKickout:192.168.10.21"
    );
    assert_eq!(
        LinkplayCommand::SlaveVolume { slave_ip: "192.168.10.21".into(), vol: 42 }.to_query(),
        "multiroom:SlaveVolume:192.168.10.21:42"
    );
    assert_eq!(
        LinkplayCommand::SlaveMute { slave_ip: "192.168.10.21".into(), mute: true }.to_query(),
        "multiroom:SlaveMute:192.168.10.21:1"
    );
    assert_eq!(
        LinkplayCommand::SlaveMute { slave_ip: "192.168.10.21".into(), mute: false }.to_query(),
        "multiroom:SlaveMute:192.168.10.21:0"
    );
}

#[test]
fn player_commands_match_the_documented_syntax() {
    assert_eq!(LinkplayCommand::SetVolume(75).to_query(), "setPlayerCmd:vol:75");
    assert_eq!(LinkplayCommand::SetMute(true).to_query(), "setPlayerCmd:mute:1");
    assert_eq!(LinkplayCommand::SetMute(false).to_query(), "setPlayerCmd:mute:0");
    assert_eq!(LinkplayCommand::Seek(125).to_query(), "setPlayerCmd:seek:125");
    for (cmd, expected) in [
        (TransportCmd::Pause, "setPlayerCmd:pause"),
        (TransportCmd::Resume, "setPlayerCmd:resume"),
        (TransportCmd::OnePause, "setPlayerCmd:onepause"),
        (TransportCmd::Stop, "setPlayerCmd:stop"),
        (TransportCmd::Prev, "setPlayerCmd:prev"),
        (TransportCmd::Next, "setPlayerCmd:next"),
    ] {
        assert_eq!(LinkplayCommand::Transport(cmd).to_query(), expected);
    }
}

#[test]
fn volume_is_clamped_to_the_api_range() {
    assert_eq!(LinkplayCommand::SetVolume(255).to_query(), "setPlayerCmd:vol:100");
    assert_eq!(
        LinkplayCommand::SlaveVolume { slave_ip: "1.2.3.4".into(), vol: 200 }.to_query(),
        "multiroom:SlaveVolume:1.2.3.4:100"
    );
}

#[test]
fn device_name_is_url_encoded() {
    assert_eq!(LinkplayCommand::SetDeviceName("Whole House".into()).to_query(), "setDeviceName:Whole%20House");
    assert_eq!(LinkplayCommand::SetDeviceName("Cucina".into()).to_query(), "setDeviceName:Cucina");
    assert_eq!(LinkplayCommand::SetDeviceName("A:B".into()).to_query(), "setDeviceName:A%3AB");
    assert_eq!(LinkplayCommand::SetDeviceName("Café".into()).to_query(), "setDeviceName:Caf%C3%A9");
}

#[test]
fn unreserved_characters_survive_encoding() {
    assert_eq!(LinkplayCommand::SetDeviceName("a-b_c.d~e/f".into()).to_query(), "setDeviceName:a-b_c.d~e%2Ff");
}

#[test]
fn only_ok_is_accepted_as_an_ok_reply() {
    assert!(expect_ok("1.2.3.4", "multiroom:Ungroup", " ok\n").is_ok());
    let err = expect_ok("1.2.3.4", "multiroom:Ungroup", " failed ").unwrap_err();
    assert_eq!(err.message(), "1.2.3.4 rejected `multiroom:Ungroup`: failed");
}

#[test]
fn retries_back_off_and_stop_after_the_third_attempt() {
    assert_eq!(retry_delay_ms(0), Some(200));
    assert_eq!(retry_delay_ms(1), Some(600));
    assert_eq!(retry_delay_ms(2), None);
}

#[test]
fn decodes_realistic_hex_payload() {
    let raw = "426f68656d69616e2052686170736f6479";
    assert_eq!(decode(raw), "Bohemian Rhapsody");
}

#[test]
fn decodes_accented_utf8() {
    let raw = hex::encode("Sinéad");
    assert_eq!(decode(&raw), "Sinéad");
}

#[test]
fn passes_plain_text_through() {
    assert_eq!(decode("Nothing Compares 2 U"), "Nothing Compares 2 U");
    assert_eq!(decode("abc"), "abc");
    assert_eq!(decode("Radiohead"), "Radiohead");
}

#[test]
fn invalid_utf8_falls_back_to_the_raw_string() {
    assert_eq!(decode("fffe"), "fffe");
}

#[test]
fn empty_and_unknown_become_empty() {
    assert_eq!(decode(""), "");
    assert_eq!(decode("   "), "");
    assert_eq!(decode("un_known"), "");
    assert_eq!(decode("UNKNOWN"), "");
}

#[test]
fn hex_is_read_in_either_case_after_trimming() {
    assert_eq!(decode(" 4F4B "), "OK");
    assert_eq!(decode("4f4b"), "OK");
}

#[test]
fn source_label_names_known_modes_and_numbers_the_rest() {
    assert_eq!(source_label(0), "idle");
    assert_eq!(source_label(41), "bluetooth");
    assert_eq!(source_label(99), "follower");
    assert_eq!(source_label(77), "mode 77");
}

#[test]
fn solo_device_is_solo() {
    let s = status("A", 0, "", "");
    let empty = SlaveList::default();
    assert_eq!(derive_role(&s, Some(&empty), Some(10)), DeviceRole::Solo);
}

#[test]
fn slave_detected_from_group_flag() {
    let s = status("B", 1, "A", "192.168.1.10");
    assert_eq!(
        derive_role(&s, None, None),
        DeviceRole::Slave { master_uuid: Some("A".into()), master_ip: Some("192.168.1.10".into()) }
    );
}

#[test]
fn slave_detected_from_master_ip_alone() {
    let s = status("B", 0, "", "192.168.1.10");
    assert!(matches!(derive_role(&s, None, None), DeviceRole::Slave { .. }));
    let s0 = status("B", 0, "", "0.0.0.0");
    assert_eq!(derive_role(&s0, None, None), DeviceRole::Solo);
}

#[test]
fn master_detected_from_slave_list() {
    let s = status("A", 0, "", "");
    let list = SlaveList {
        slaves: 2,
        slave_list: vec![entry("Kitchen", "B", "192.168.1.11", 30), entry("Bath", "C", "192.168.1.12", 22)],
    };
    assert_eq!(
        derive_role(&s, Some(&list), Some(10)),
        DeviceRole::Master { slave_uuids: vec!["B".into(), "C".into()] }
    );
}

#[test]
fn following_beats_a_stale_slave_list() {
    let s = status("B", 1, "", "192.168.1.10");
    let list = SlaveList { slaves: 1, slave_list: vec![entry("", "C", "192.168.1.12", 0)] };
    assert!(matches!(derive_role(&s, Some(&list), None), DeviceRole::Slave { .. }));
}

#[test]
fn player_mode_99_is_the_fallback_slave_signal() {
    let s = status("B", 0, "", "");
    assert_eq!(
        derive_role(&s, Some(&SlaveList::default()), Some(99)),
        DeviceRole::Slave { master_uuid: None, master_ip: None }
    );
}

#[test]
fn slave_list_entries_fall_back_to_ip_when_uuid_is_missing() {
    let s = status("A", 0, "", "");
    let list = SlaveList { slaves: 1, slave_list: vec![entry("K", "", "192.168.1.11", 0)] };
    assert_eq!(
        derive_role(&s, Some(&list), None),
        DeviceRole::Master { slave_uuids: vec!["192.168.1.11".into()] }
    );
}

#[test]
fn display_name_prefers_alias_then_device_name_then_ip() {
    assert_eq!(display_name(Some("Cucina"), "LP10", "192.168.1.5"), "Cucina");
    assert_eq!(display_name(Some("  "), "LP10", "192.168.1.5"), "LP10");
    assert_eq!(display_name(None, "", "192.168.1.5"), "192.168.1.5");
}

#[test]
fn blank_and_zero_addresses_are_unset() {
    assert_eq!(blank_to_none("  "), None);
    assert_eq!(blank_to_none("0.0.0.0"), None);
    assert_eq!(blank_to_none(" 10.0.0.1 "), Some("10.0.0.1".into()));
}

#[test]
fn snapshots_build_from_a_poll_and_go_offline_keeping_identity() {
    let mut s = status("U", 0, "", "");
    s.device_name = "LP10".into();
    s.essid = "home".into();
    s.firmware = "fw1".into();
    let player = PlayerStatus {
        status: "play".into(),
        mode: 31,
        vol: 40,
        mute: false,
        curpos: 1,
        totlen: 2,
        title: "T".into(),
        artist: "A".into(),
        album: "B".into(),
    };
    let list = SlaveList { slaves: 1, slave_list: vec![entry("K", "S1", "10.0.0.3", 12)] };
    let mut snap = DeviceSnapshot::build("10.0.0.2", None, &s, Some(&player), Some(&list), 99);
    assert_eq!(snap.display_name, "LP10");
    assert_eq!(snap.ssid, "home");
    assert_eq!(snap.player.as_ref().unwrap().source, "spotify");
    assert_eq!(snap.slaves.len(), 1);
    assert_eq!(snap.last_seen, Some(99));
    assert!(matches!(snap.role, DeviceRole::Master { .. }));
    snap.mark_offline();
    assert!(!snap.online);
    assert!(snap.player.is_none());
    assert!(snap.slaves.is_empty());
    assert_eq!(snap.role, DeviceRole::Solo);
    assert_eq!(snap.firmware, "fw1");

    let cold = DeviceSnapshot::offline("U", "10.0.0.2", Some("Den".into()), None);
    assert_eq!(cold.display_name, "Den");
    assert!(!cold.online);

    let info = PlayerInfo::from(&player);
    assert_eq!(info.source, "spotify");
    let member = SlaveInfo::from(&list.slave_list[0]);
    assert_eq!(member.volume, 12);
}

#[test]
fn any_hex_encoded_text_reads_back_as_itself() {
    for text in ["A", "Café ☕", "日本の歌", "Whole House"] {
        assert_eq!(decode(&hex::encode(text)), text);
    }
}

use musicsync::commands::auth::{
    auth_state_of, hash_secret, locked_out, username_matches, validate, verify_secret, DUMMY_HASH,
    login_finish, login_step, LoginStep,
};
use musicsync::commands::devices::{
    find_saved, manual_entry, name_to_push, net_mode_str, normalize_alias, record_device, remove_saved, stable_key,
};
use musicsync::commands::playback::{mute_payload, playcntrl_verb, transport_command, volume_payload};
use musicsync::commands::settings::{apply_patch, subnet_setting, SettingsPatch};
use musicsync::luci::model::NetMode;
use musicsync::state::LoginThrottle;
use musicsync::store::{AuthConfig, Config, SavedDevice, Settings};
use musicsync::upnp::Transport;

fn device(uuid: &str, ip: &str) -> SavedDevice {
    SavedDevice { uuid: uuid.into(), ip: ip.into(), ..SavedDevice::default() }
}

#[test]
fn hash_verify_roundtrip() {
    let hash = hash_secret("1234").expect("hashing must succeed");
    assert!(hash.starts_with("$argon2"), "expected a PHC string, got {hash}");
    assert!(verify_secret(&hash, "1234"));
    assert!(!verify_secret(&hash, "4321"));
}

#[test]
fn salt_makes_hashes_unique() {
    let a = hash_secret("hunter2").unwrap();
    let b = hash_secret("hunter2").unwrap();
    assert_ne!(a, b, "each hash must carry a fresh salt");
}

#[test]
fn corrupt_hash_verifies_false_instead_of_panicking() {
    assert!(!verify_secret("not-a-phc-string", "1234"));
}

#[test]
fn dummy_hash_is_parseable_so_timing_matches_a_real_verify() {
    assert!(argon2::password_hash::PasswordHash::new(DUMMY_HASH).is_ok());
}

#[test]
fn validation_rejects_empty_username_and_short_secret() {
    assert!(validate("  ", "1234").is_err());
    assert!(validate("andrea", "123").is_err());
    assert!(validate("andrea", "1234").is_ok());
}

#[test]
fn secret_length_counts_characters() {
    assert!(validate("andrea", "ééé").is_err());
    assert!(validate("andrea", "éééé").is_ok());
    assert_eq!(
        validate("andrea", "12").unwrap_err().message(),
        "Password or PIN must be at least 4 characters."
    );
    assert_eq!(validate("", "1234").unwrap_err().message(), "Please choose a username.");
}

#[test]
fn boot_state_follows_the_profile() {
    let mut config = Config::default();
    let (opens, dto) = auth_state_of(&config, false);
    assert!(!opens);
    assert!(!dto.configured);
    assert!(!dto.requires_login);

    config.auth = Some(AuthConfig { username: "andrea".into(), password_hash: Some("h".into()) });
    let (opens, dto) = auth_state_of(&config, false);
    assert!(!opens);
    assert!(dto.requires_login);
    assert_eq!(dto.username.as_deref(), Some("andrea"));

    config.remember_me = true;
    let (opens, dto) = auth_state_of(&config, false);
    assert!(opens);
    assert!(!dto.requires_login);

    config.remember_me = false;
    config.auth = Some(AuthConfig { username: "andrea".into(), password_hash: None });
    let (opens, dto) = auth_state_of(&config, false);
    assert!(opens);
    assert!(!dto.has_password);
}

#[test]
fn login_helpers() {
    assert!(username_matches("Andrea", "  andrea "));
    assert!(!username_matches("Andrea", "bob"));
    assert_eq!(locked_out(29_500).code(), "locked_out");
    assert_eq!(locked_out(29_500).message(), "Too many failed attempts. Try again in 30s.");
}

#[test]
fn playcntrl_verbs_cover_every_transport() {
    assert_eq!(playcntrl_verb(Transport::Play), "PLAY");
    assert_eq!(playcntrl_verb(Transport::Pause), "PAUSE");
    assert_eq!(playcntrl_verb(Transport::Next), "NEXT");
    assert_eq!(playcntrl_verb(Transport::Previous), "PREV");
    assert_eq!(playcntrl_verb(Transport::Stop), "STOP");
}

#[test]
fn playback_payloads() {
    assert_eq!(volume_payload(250), "100");
    assert_eq!(volume_payload(7), "7");
    assert_eq!(mute_payload(true), "MUTE");
    assert_eq!(mute_payload(false), "UNMUTE");
    assert_eq!(transport_command(" Next ").unwrap(), Transport::Next);
    assert_eq!(
        transport_command("seek").unwrap_err().message(),
        "Unknown transport command \u{201c}seek\u{201d}."
    );
}

#[test]
fn saved_devices_are_found_added_and_forgotten() {
    let mut list = vec![device("A", "10.0.0.1"), device("B", "10.0.0.2")];
    assert_eq!(find_saved(&list, "B").unwrap(), 1);
    assert_eq!(find_saved(&list, "Z").unwrap_err().code(), "not_found");

    let mut moved = device("B", "10.0.0.9");
    moved.usn = "M".into();
    record_device(&mut list, moved);
    assert_eq!(list.len(), 2);
    assert_eq!(list[1].ip, "10.0.0.9");
    assert!(list[1].pinned_manual);

    record_device(&mut list, device("C", "10.0.0.3"));
    assert_eq!(list.len(), 3);

    assert!(remove_saved(&mut list, "A").is_ok());
    assert_eq!(list.len(), 2);
    assert_eq!(remove_saved(&mut list, "A").unwrap_err().message(), "That device is no longer in the list.");
    assert_eq!(list.len(), 2);
}

#[test]
fn keys_modes_and_aliases() {
    assert_eq!(stable_key(" U ", "M", "ip"), "U");
    assert_eq!(stable_key("", " M ", "ip"), "M");
    assert_eq!(stable_key("", "", "ip"), "ip");
    assert_eq!(net_mode_str(Some(NetMode::Ethernet)).as_deref(), Some("ethernet"));
    assert_eq!(net_mode_str(Some(NetMode::Wifi)).as_deref(), Some("wifi"));
    assert_eq!(net_mode_str(None), None);
    assert_eq!(normalize_alias(Some("  Den ".into())).as_deref(), Some("Den"));
    assert_eq!(normalize_alias(Some("   ".into())), None);
    assert!(name_to_push(&None).is_err());
    assert_eq!(name_to_push(&Some("Den".into())).unwrap(), "Den");
}

#[test]
fn subnet_setting_is_canonical_or_cleared() {
    assert_eq!(subnet_setting(None).unwrap(), None);
    assert_eq!(subnet_setting(Some("  ")).unwrap(), None);
    assert_eq!(subnet_setting(Some(" 192.168.4.77/24 ")).unwrap().as_deref(), Some("192.168.4.0/24"));
    assert_eq!(subnet_setting(Some("10.0.0.0/8")).unwrap_err().code(), "invalid_input");
}

#[test]
fn recording_twice_keeps_one_entry_and_removal_forgets_it() {
    let mut list = vec![device("A", "10.0.0.1")];
    let mut entry = device("N", "10.0.0.7");
    entry.usn = "00:11".into();
    record_device(&mut list, entry.clone());
    record_device(&mut list, entry);
    assert_eq!(list.len(), 2);
    let i = find_saved(&list, "N").unwrap();
    assert_eq!(list[i].ip, "10.0.0.7");
    assert_eq!(list[i].usn, "00:11");

    assert!(remove_saved(&mut list, "N").is_ok());
    assert!(find_saved(&list, "N").is_err());
    assert_eq!(find_saved(&list, "A").unwrap(), 0);
}

#[test]
fn a_settings_patch_changes_only_what_it_names() {
    let mut s = Settings::default();
    let patch = SettingsPatch { poll_ms: Some(5000), http_timeout_ms: Some(900), ..SettingsPatch::default() };
    apply_patch(&mut s, patch, None);
    assert_eq!(s.poll_ms, 5000);
    assert_eq!(s.theme, "dark");
    assert!(!s.start_at_login);

    let patch = SettingsPatch { theme: Some("light".into()), start_at_login: Some(true), ..SettingsPatch::default() };
    apply_patch(&mut s, patch, Some(false));
    assert_eq!(s.theme, "light");
    assert!(!s.start_at_login, "the OS state wins over the request");
    assert_eq!(s.poll_ms, 5000);
    assert_eq!(s.subnet, None);
}

#[test]
fn login_checks_the_throttle_then_the_profile_then_the_secret() {
    let mut config = Config::default();
    let mut throttle = LoginThrottle::default();
    assert!(matches!(login_step(&throttle, &config, "andrea", 0), LoginStep::Refused(e) if e.code() == "auth_error"));

    config.auth = Some(AuthConfig { username: "Andrea".into(), password_hash: None });
    assert!(matches!(login_step(&throttle, &config, "x", 0), LoginStep::Open));

    config.auth = Some(AuthConfig { username: "Andrea".into(), password_hash: Some("$argon2id$real".into()) });
    match login_step(&throttle, &config, " andrea ", 0) {
        LoginStep::Verify { hash, username_ok } => {
            assert!(username_ok);
            assert_eq!(hash, "$argon2id$real");
        }
        other => panic!("expected a verification, got {other:?}"),
    }
    match login_step(&throttle, &config, "mallory", 0) {
        LoginStep::Verify { hash, username_ok } => {
            assert!(!username_ok);
            assert_eq!(hash, DUMMY_HASH, "a wrong username still costs a verification");
        }
        other => panic!("expected a verification, got {other:?}"),
    }

    for _ in 0..4 {
        assert!(!login_finish(&mut throttle, true, false, 1_000));
    }
    assert!(!login_finish(&mut throttle, false, true, 1_000));
    match login_step(&throttle, &config, "andrea", 1_500) {
        LoginStep::Refused(e) => assert_eq!(e.message(), "Too many failed attempts. Try again in 30s."),
        other => panic!("expected the lockout, got {other:?}"),
    }
    assert!(login_finish(&mut throttle, true, true, 40_000));
    assert_eq!(throttle, LoginThrottle::default());
}

#[test]
fn a_device_added_by_hand_is_pinned_under_its_stable_key() {
    let e = manual_entry("  ", "AA:BB".to_string(), "10.0.0.9", Some(NetMode::Wifi), Some(1234));
    assert_eq!(e.uuid, "AA:BB");
    assert_eq!(e.usn, "AA:BB");
    assert_eq!(e.ip, "10.0.0.9");
    assert_eq!(e.alias, None);
    assert_eq!(e.net_mode.as_deref(), Some("wifi"));
    assert_eq!(e.last_seen, Some(1234));
    assert!(e.pinned_manual);
    let e = manual_entry("uuid:1", String::new(), "10.0.0.9", None, None);
    assert_eq!(e.uuid, "uuid:1");
    assert_eq!(e.net_mode, None);
    assert_eq!(manual_entry("", String::new(), "10.0.0.9", Some(NetMode::Ethernet), None).uuid, "10.0.0.9");
}

use musicsync::discovery::{
    already_added, candidate_key, sweep_cidr, DeviceCandidate, FoundCandidates, ddms_candidate, http_body, identity_from_xml,
    location_parts, location_target, sort_by_address, looks_like_device, parse_ipv4, msearch_request, parse_cidr, publish_due, xml_field, Phase,
    ScanOptions, UpnpIdentity, DDMS_ST, UPNP_PORT,
};
use musicsync::luci::model::{DdmsBanner, NetMode};
use musicsync::store::SavedDevice;

fn saved(uuid: &str, usn: &str, ip: &str) -> SavedDevice {
    SavedDevice { uuid: uuid.into(), usn: usn.into(), ip: ip.into(), ..SavedDevice::default() }
}

#[test]
fn cidr_accepts_a_plain_network() {
    let net = parse_cidr("192.168.10.0/24").expect("a /24 must parse");
    assert_eq!(net.to_string(), "192.168.10.0/24");
    assert_eq!(net.host_range().1, 254);
}

#[test]
fn cidr_truncates_host_bits() {
    let net = parse_cidr(" 192.168.10.47/24 ").expect("host bits must be tolerated");
    assert_eq!(net.to_string(), "192.168.10.0/24");
}

#[test]
fn cidr_rejects_garbage_and_bare_addresses() {
    for bad in ["", "not a subnet", "192.168.1.0", "192.168.1.0/33", "10.0.0.0/-1"] {
        let err = parse_cidr(bad).expect_err("must be rejected");
        assert_eq!(err.code(), "invalid_input", "{bad}");
    }
}

#[test]
fn cidr_caps_the_sweep_width() {
    assert!(parse_cidr("10.0.0.0/16").is_ok(), "/16 is the widest allowed");
    for wide in ["10.0.0.0/15", "10.0.0.0/8", "0.0.0.0/0"] {
        let err = parse_cidr(wide).expect_err("must be rejected as too broad");
        assert_eq!(err.code(), "invalid_input", "{wide}");
    }
}

#[test]
fn cidr_errors_explain_themselves() {
    assert_eq!(
        parse_cidr("10.0.0.0/8").unwrap_err().message(),
        "/8 is too broad to sweep (16777216 addresses). Use /16 or narrower."
    );
    assert_eq!(
        parse_cidr(" nope ").unwrap_err().message(),
        "\u{201c}nope\u{201d} is not a valid IPv4 range \u{2014} use CIDR notation, for example 192.168.1.0/24."
    );
}

#[test]
fn host_ranges_follow_the_prefix() {
    let net = parse_cidr("10.1.2.3/30").unwrap();
    assert_eq!(net.to_string(), "10.1.2.0/30");
    assert_eq!(net.host_range(), (0x0A01_0201, 2));
    let pair = parse_cidr("10.1.2.3/31").unwrap();
    assert_eq!(pair.host_range(), (0x0A01_0202, 2));
    let one = parse_cidr("10.1.2.3/32").unwrap();
    assert_eq!(one.host_range(), (0x0A01_0203, 1));
}

#[test]
fn sweep_cidr_prefers_request_then_setting_then_auto() {
    let requested = ScanOptions { sweep: true, cidr: Some("10.1.2.0/24".into()) };
    assert_eq!(sweep_cidr(&requested, Some("192.168.0.0/24"), None).as_deref(), Some("10.1.2.0/24"));

    let blank = ScanOptions { sweep: true, cidr: Some("   ".into()) };
    assert_eq!(
        sweep_cidr(&blank, Some("192.168.0.0/24"), None).as_deref(),
        Some("192.168.0.0/24"),
        "a blank input must not shadow the saved setting"
    );

    let detected = musicsync::net::derive_cidr24([192, 168, 10, 47]);
    let auto = sweep_cidr(&ScanOptions::default(), None, Some(detected));
    assert_eq!(auto.as_deref(), Some("192.168.10.0/24"));
    if let Some(cidr) = auto {
        assert!(parse_cidr(&cidr).is_ok(), "auto-detected {cidr} must be sweepable");
    }
    assert_eq!(sweep_cidr(&ScanOptions::default(), Some("  "), None), None);
    assert!(ScanOptions::default().sweep);
}

#[test]
fn location_parts_split_host_port_path() {
    let reply = "HTTP/1.1 200 OK\r\nLOCATION: http://192.168.10.104:49494/description.xml\r\n\r\n";
    assert_eq!(
        location_parts(reply),
        Some(("192.168.10.104".to_string(), 49494, "/description.xml".to_string()))
    );
    assert_eq!(
        location_parts("location: http://10.0.0.5/desc.xml\r\n"),
        Some(("10.0.0.5".to_string(), 49494, "/desc.xml".to_string()))
    );
    assert_eq!(
        location_parts("LOCATION: http://user@10.0.0.6:8080\r\n"),
        Some(("10.0.0.6".to_string(), 8080, "/description.xml".to_string()))
    );
    assert_eq!(location_parts("HTTP/1.1 200 OK\r\nST: x\r\n"), None);
}

#[test]
fn xml_field_extracts_the_udn() {
    let xml = "<root><device><UDN>uuid:afcea3b1-ae97-4c5a-9c2e-e2328542154a</UDN><modelName>LP10</modelName></device></root>";
    assert_eq!(xml_field(xml, "UDN").as_deref(), Some("uuid:afcea3b1-ae97-4c5a-9c2e-e2328542154a"));
    assert_eq!(xml_field(xml, "modelName").as_deref(), Some("LP10"));
    assert_eq!(xml_field(xml, "missing"), None);
}

#[test]
fn identity_strips_the_uuid_prefix() {
    let xml = "<UDN> uuid:abc </UDN><modelName>LP10</modelName><friendlyName>Den</friendlyName>";
    let id = identity_from_xml(xml).expect("identity");
    assert_eq!(id.uuid, "abc");
    assert_eq!(id.model, "LP10");
    assert_eq!(id.friendly_name, "Den");
    assert!(identity_from_xml("<friendlyName>Den</friendlyName>").is_none());
}

#[test]
fn candidate_key_prefers_uuid_then_usn_then_ip() {
    assert_eq!(candidate_key("U", "M", "1.2.3.4"), candidate_key("U", "X", "9.9.9.9"));
    assert_eq!(candidate_key("", "M", "1.2.3.4"), candidate_key("", "m", "9.9.9.9"), "usn is case-insensitive");
    assert_ne!(candidate_key("", "", "1.2.3.4"), candidate_key("", "", "9.9.9.9"));
    assert_eq!(candidate_key(" U ", "", ""), "uuid:U");
    assert_eq!(candidate_key("", "AA:BB", ""), "usn:aa:bb");
    assert_eq!(candidate_key("", "", "1.2.3.4"), "ip:1.2.3.4");
}

#[test]
fn already_added_matches_on_uuid_usn_or_ip() {
    let list = [saved("U1", "AA:BB", "192.168.1.4")];
    assert!(already_added("U1", "", "9.9.9.9", &list), "uuid match across a new IP");
    assert!(already_added("", "aa:bb", "9.9.9.9", &list), "usn match, case-insensitive");
    assert!(already_added("", "", "192.168.1.4", &list), "ip fallback");
    assert!(!already_added("U2", "CC:DD", "9.9.9.9", &list), "a different unit is new");
}

#[test]
fn ddms_candidates_fall_back_to_the_upnp_identity() {
    let banner = DdmsBanner::parse("USN:AA:BB\r\nNETMODE:WLAN\r\nWIFIBAND:5G\r\nFWVERSION:fw\r\n");
    let identity = UpnpIdentity { uuid: "U9".into(), model: "LP10".into(), friendly_name: "Den".into() };
    let list = [saved("", "aa:bb", "10.0.0.1")];
    let c = ddms_candidate("10.0.0.7", &banner, &identity, &list);
    assert_eq!(c.uuid, "U9");
    assert_eq!(c.usn, "AA:BB");
    assert_eq!(c.name, "Den");
    assert_eq!(c.model, "LP10");
    assert_eq!(c.firmware, "fw");
    assert_eq!(c.net_mode, Some(NetMode::Wifi));
    assert_eq!(c.wifi_band.as_deref(), Some("5G"));
    assert!(c.already_added);
    assert!(looks_like_device(&banner));
    assert!(!looks_like_device(&DdmsBanner::parse("NETMODE:ETH\r\n")));
}

#[test]
fn progress_is_published_when_due() {
    assert!(publish_due(Phase::Sweep, 3, 10, true, false));
    assert!(publish_due(Phase::Sweep, 10, 10, false, false));
    assert!(!publish_due(Phase::Sweep, 3, 10, false, true));
    assert!(publish_due(Phase::Sweep, 8, 10, false, true));
    assert!(publish_due(Phase::Ddms, 3, 0, false, true));
    assert_eq!(Phase::Sweep.index(), 2);
}

#[test]
fn requests_and_replies_are_framed() {
    assert_eq!(
        msearch_request("239.255.255.250:1800", DDMS_ST),
        "M-SEARCH * HTTP/1.1\r\nHOST: 239.255.255.250:1800\r\nMAN: \"ssdp:discover\"\r\nMX: 2\r\nST: urn:schemas-upnp-org:device:DDMSServer:1\r\n\r\n"
    );
    assert_eq!(http_body(b"HTTP/1.0 200 OK\r\n\r\n<root/>"), "<root/>");
    assert_eq!(http_body(b"<root/>"), "<root/>");
}

fn candidate(uuid: &str, usn: &str, ip: &str) -> DeviceCandidate {
    DeviceCandidate {
        uuid: uuid.into(),
        usn: usn.into(),
        ip: ip.into(),
        name: String::new(),
        model: String::new(),
        firmware: String::new(),
        net_mode: None,
        wifi_band: None,
        already_added: false,
    }
}

#[test]
fn found_candidates_are_deduplicated_by_key() {
    let mut found = FoundCandidates::new();
    assert!(found.record(candidate("U", "", "10.0.0.1")));
    assert!(!found.record(candidate("U", "", "10.0.0.2")));
    assert!(found.record(candidate("", "AA", "10.0.0.3")));
    assert!(!found.record(candidate("", "aa", "10.0.0.4")));
    assert_eq!(found.len(), 2);
    let all = found.into_candidates();
    assert_eq!(all[0].ip, "10.0.0.1");
    assert_eq!(all[1].ip, "10.0.0.3");
}

#[test]
fn sweep_skips_this_machine_and_confirmed_hosts() {
    let net = parse_cidr("192.168.1.0/29").unwrap();
    let base = 0xC0A8_0100u32;
    assert_eq!(net.sweep_hosts(None, &[]), (1..=6).map(|k| base + k).collect::<Vec<u32>>());
    assert_eq!(
        net.sweep_hosts(Some(base + 2), &[base + 5, base + 9]),
        vec![base + 1, base + 3, base + 4, base + 6]
    );
    let whole24 = parse_cidr("10.0.0.0/24").unwrap();
    assert_eq!(whole24.sweep_hosts(None, &[]).len(), 254);
}

#[test]
fn location_target_parses_ip_port_path() {
    let reply = "HTTP/1.1 200 OK\r\nLOCATION: http://192.168.10.104:49494/description.xml\r\n\r\n";
    assert_eq!(location_target(reply), Some((0xC0A8_0A68, 49494, "/description.xml".to_string())));
    assert_eq!(
        location_target("location: http://10.0.0.5/desc.xml\r\n"),
        Some((0x0A00_0005, UPNP_PORT, "/desc.xml".to_string()))
    );
    assert_eq!(location_target("LOCATION: http://host.local:49494/d.xml\r\n"), None);
}

#[test]
fn dotted_quads_follow_the_standard_grammar() {
    assert_eq!(parse_ipv4("192.168.1.42"), Some(0xC0A8_012A));
    assert_eq!(parse_ipv4("0.0.0.0"), Some(0));
    assert_eq!(parse_ipv4("255.255.255.255"), Some(u32::MAX));
    for bad in ["", "1.2.3", "1.2.3.4.5", "256.1.1.1", "01.1.1.1", "+1.2.3.4", "1.2.3.4 ", "1..2.3", "a.b.c.d"] {
        assert_eq!(parse_ipv4(bad), None, "{bad:?}");
    }
}

#[test]
fn candidates_come_back_in_address_order() {
    let found = vec![
        candidate("A", "", "192.168.1.20"),
        candidate("B", "", "not-an-ip"),
        candidate("C", "", "192.168.1.3"),
        candidate("D", "", "10.0.0.9"),
        candidate("E", "", "192.168.1.3"),
        candidate("F", "", "255.255.255.255"),
    ];
    let sorted: Vec<String> = sort_by_address(found).into_iter().map(|c| c.uuid).collect();
    assert_eq!(sorted, vec!["D", "C", "E", "A", "B", "F"]);
    assert!(sort_by_address(Vec::new()).is_empty());
}

#[test]
fn cidr_fields_follow_the_network_grammar() {
    assert!(parse_cidr("010.000.001.007/024").is_err(), "a three-digit prefix is refused");
    let net = parse_cidr("010.000.001.007/24").expect("leading zeros are accepted");
    assert_eq!(net.network, 0x0A00_0100);
    assert_eq!(net.prefix, 24);
    assert_eq!(parse_cidr("10.0.0.0/32").unwrap().prefix, 32);
    for bad in ["10.0.0.0/33", "1000.0.0.0/24", "10.0.0/24", "10.0.0.0.0/24", "10.0.0.0/24/1", "10.0.0.0/", "+10.0.0.0/24", "10.0.0.256/24"] {
        assert!(parse_cidr(bad).is_err(), "{bad} must be refused");
    }
}

use musicsync::upnp::{
    parse_hms, parse_position_info, soap_envelope, soap_reply, soap_request, transport_body,
    Transport, TRANSPORT_SERVICE,
};

#[test]
fn transport_parse_accepts_all_verbs() {
    assert_eq!(Transport::parse("play"), Some(Transport::Play));
    assert_eq!(Transport::parse("PAUSE"), Some(Transport::Pause));
    assert_eq!(Transport::parse("next"), Some(Transport::Next));
    assert_eq!(Transport::parse("prev"), Some(Transport::Previous));
    assert_eq!(Transport::parse("previous"), Some(Transport::Previous));
    assert_eq!(Transport::parse("stop"), Some(Transport::Stop));
    assert_eq!(Transport::parse("seek"), None);
}

#[test]
fn hms_parses_durations_and_positions() {
    assert_eq!(parse_hms("0:03:30"), Some(210_000));
    assert_eq!(parse_hms("1:00:00"), Some(3_600_000));
    assert_eq!(parse_hms("0:00:05.250"), Some(5_000));
    assert_eq!(parse_hms("2:07"), Some(127_000));
    assert_eq!(parse_hms("NOT_IMPLEMENTED"), None);
    assert_eq!(parse_hms(""), None);
}

#[test]
fn hms_rejects_non_numbers_and_too_many_pieces() {
    assert_eq!(parse_hms("42"), Some(42_000));
    assert_eq!(parse_hms(" 0 : 01 : 02 "), Some(62_000));
    assert_eq!(parse_hms("1:2:3:4"), None);
    assert_eq!(parse_hms("a:00"), None);
}

#[test]
fn position_info_pulls_didl_metadata() {
    let xml = r#"<?xml version="1.0"?><s:Envelope><s:Body>
        <u:GetPositionInfoResponse>
        <Track>1</Track>
        <TrackDuration>0:03:45</TrackDuration>
        <TrackMetaData>&lt;DIDL-Lite&gt;&lt;item&gt;&lt;dc:title&gt;Blue in Green&lt;/dc:title&gt;&lt;upnp:artist&gt;Miles Davis&lt;/upnp:artist&gt;&lt;upnp:album&gt;Kind of Blue&lt;/upnp:album&gt;&lt;/item&gt;&lt;/DIDL-Lite&gt;</TrackMetaData>
        <RelTime>0:01:12</RelTime>
        </u:GetPositionInfoResponse></s:Body></s:Envelope>"#;
    let np = parse_position_info(xml);
    assert_eq!(np.title, "Blue in Green");
    assert_eq!(np.artist, "Miles Davis");
    assert_eq!(np.album, "Kind of Blue");
    assert_eq!(np.duration_ms, Some(225_000));
    assert_eq!(np.position_ms, Some(72_000));
    assert!(!np.is_empty());
}

#[test]
fn position_info_empty_when_stopped() {
    let xml = "<TrackDuration>0:00:00</TrackDuration><TrackMetaData></TrackMetaData><RelTime>0:00:00</RelTime>";
    let np = parse_position_info(xml);
    assert!(np.is_empty());
}

#[test]
fn creator_stands_in_for_a_missing_artist() {
    let xml = "<TrackMetaData>&lt;dc:creator&gt;Nina &amp;amp; Co&lt;/dc:creator&gt;</TrackMetaData>";
    let np = parse_position_info(xml);
    assert_eq!(np.artist, "Nina &amp; Co");
    assert_eq!(np.title, "");
}

#[test]
fn play_carries_a_speed_argument() {
    assert_eq!(transport_body(Transport::Play), "<InstanceID>0</InstanceID><Speed>1</Speed>");
    assert_eq!(transport_body(Transport::Stop), "<InstanceID>0</InstanceID>");
    assert_eq!(Transport::Previous.action(), "Previous");
}

#[test]
fn soap_request_counts_envelope_bytes() {
    let env = soap_envelope("Play", TRANSPORT_SERVICE, "<x>é</x>");
    assert!(env.starts_with("<?xml version=\"1.0\" encoding=\"utf-8\"?><s:Envelope"));
    assert!(env.contains("<u:Play xmlns:u=\"urn:schemas-upnp-org:service:AVTransport:1\"><x>é</x></u:Play>"));
    let req = soap_request("/p", "1.2.3.4:49494", TRANSPORT_SERVICE, "Play", &env);
    assert!(req.starts_with("POST /p HTTP/1.0\r\nHost: 1.2.3.4:49494\r\n"));
    assert!(req.contains(&format!("Content-Length: {}\r\n", env.len())));
    assert!(req.contains("SOAPACTION: \"urn:schemas-upnp-org:service:AVTransport:1#Play\""));
    assert!(req.ends_with(&env));
}

#[test]
fn soap_reply_needs_a_200_status_line() {
    let ok = soap_reply("1.2.3.4", "Play", b"HTTP/1.0 200 OK\r\nX: y\r\n\r\n<body/>");
    assert_eq!(ok.unwrap(), "<body/>");
    let refused = soap_reply("1.2.3.4", "Play", b"HTTP/1.0 500 Internal\r\n\r\nfault").unwrap_err();
    assert_eq!(refused.code(), "device_error");
    assert_eq!(refused.message(), "1.2.3.4 rejected the UPnP Play: HTTP/1.0 500 Internal");
    let headless = soap_reply("1.2.3.4", "Stop", b"garbage").unwrap_err();
    assert_eq!(headless.message(), "1.2.3.4 rejected the UPnP Stop: ");
}

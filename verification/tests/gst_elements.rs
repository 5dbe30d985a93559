use kinugasa::rist::{
    check_payload, check_start, check_url, ensure_created, ensure_success, peer_config_outcome,
    read_outcome, Profile, ReadOutcome, RistError, RistSettings, RistStartError,
};
use kinugasa::srt::{join_stream_ids, parse_stream_ids, sanitize_pad_name, StreamRoute, StreamRoutes};
use kinugasa::srt_element::{
    accepted_socket, caller_ready, listener_steps, parse_listener_addr, read_step,
    srt_error_message, stream_id_from_buffer, stream_start_id, ListenerStep, PropertyValue,
    ReadStep, SrtServerSrcState, SrtSettings, SrtSetupError, SRTO_LATENCY, SRTO_PBKEYLEN,
    SRTO_RCVTIMEO, SRTO_REUSEADDR, SRTO_TRANSTYPE, SRTT_LIVE,
};

fn text(v: PropertyValue) -> String {
    match v {
        PropertyValue::Text(Some(s)) => s,
        other => panic!("not text: {other:?}"),
    }
}

#[test]
fn registers_rist_server_src_element() {
    let mut settings = RistSettings::default_settings();
    settings.set_property("url", PropertyValue::Text(Some("rist://@127.0.0.1:1234".to_owned())));
    assert_eq!(text(settings.property("profile")), "simple");
}

#[test]
fn configures_rist_server_src_properties() {
    let mut settings = RistSettings::default_settings();
    settings.set_property("url", PropertyValue::Text(Some("rist://@127.0.0.1:1234".to_owned())));
    settings.set_property("profile", PropertyValue::Text(Some("main".to_owned())));
    settings.set_property("read-timeout-ms", PropertyValue::UInt(25));

    assert_eq!(text(settings.property("url")), "rist://@127.0.0.1:1234");
    assert_eq!(text(settings.property("profile")), "main");
    assert!(matches!(settings.property("read-timeout-ms"), PropertyValue::UInt(25)));
}

#[test]
fn registers_srt_server_src_element() {
    let mut element = SrtServerSrcState::new();
    element.set_property("uri", PropertyValue::Text(Some("srt://0.0.0.0:1234?mode=listener".to_owned())));
    element.set_property("stream-ids", PropertyValue::Text(Some("camera-a".to_owned())));

    assert_eq!(text(element.property("uri")), "srt://0.0.0.0:1234?mode=listener");
    assert_eq!(text(element.property("stream-ids")), "camera-a");
    assert!(matches!(element.property("pbkeylen"), PropertyValue::UInt(32)));
}

#[test]
fn updates_srt_server_src_stream_ids_dynamically() {
    let mut element = SrtServerSrcState::new();
    element.set_property("stream-ids", PropertyValue::Text(Some("camera-b,camera-a".to_owned())));

    assert_eq!(element.routes.stream_ids(), ["camera-a", "camera-b"]);

    element.routes.add_stream_id("camera-c");
    assert_eq!(element.routes.stream_ids(), ["camera-a", "camera-b", "camera-c"]);

    assert!(element.routes.remove_stream_id("camera-b"));
    assert_eq!(element.routes.stream_ids(), ["camera-a", "camera-c"]);

    element.routes.clear_stream_ids();
    assert!(element.routes.stream_ids().is_empty());
}

#[test]
fn links_srt_server_src_ghost_pad_to_child_source() {
    let mut element = SrtServerSrcState::new();
    element.set_property("stream-ids", PropertyValue::Text(Some("camera-a".to_owned())));
    assert_eq!(element.routes.pad_for_stream_id("camera-a").unwrap(), "src");
}

#[test]
fn creates_srt_demux_pad_per_stream_id() {
    let mut routes = StreamRoutes::new();
    routes.set_stream_ids_text("camera-a,camera-b");

    assert_eq!(routes.pad_for_stream_id("camera-a").unwrap(), "src");
    assert_eq!(routes.pad_for_stream_id("camera-b").unwrap(), "src_camera-b");
}

#[test]
fn resetting_stream_ids_keeps_pads_of_kept_ids() {
    let mut routes = StreamRoutes::new();
    routes.set_stream_ids_text("camera-a,camera-b");
    routes.set_stream_ids_text("camera-c,camera-b");
    assert_eq!(routes.pad_for_stream_id("camera-b").unwrap(), "src_camera-b");
    assert_eq!(routes.pad_for_stream_id("camera-c").unwrap(), "src_camera-c");
    assert!(routes.pad_for_stream_id("camera-a").is_none());
    routes.set_stream_ids(vec![" camera-b ".to_owned(), "camera-a".to_owned()]);
    assert_eq!(routes.pad_for_stream_id("camera-b").unwrap(), "src");
    assert_eq!(routes.pad_for_stream_id("camera-a").unwrap(), "src_camera-a");
}

#[test]
fn pad_names_stay_unique() {
    let mut routes = StreamRoutes::new();
    routes.add_stream_id("a");
    routes.add_stream_id("cam/1");
    routes.add_stream_id("cam_1");
    assert_eq!(routes.pad_for_stream_id("a").unwrap(), "src");
    assert_eq!(routes.pad_for_stream_id("cam/1").unwrap(), "src_cam_1");
    assert_eq!(routes.pad_for_stream_id("cam_1").unwrap(), "src_cam_1_1");
    assert!(!routes.remove_stream_id("zzz"));
    routes.add_stream_id("   ");
    assert_eq!(routes.stream_ids().len(), 3);
}

#[test]
fn stream_id_lists_round_trip() {
    let ids = parse_stream_ids(" b, a ,,b");
    assert_eq!(ids, ["b", "a"]);
    assert_eq!(join_stream_ids(&ids), "b,a");
    assert_eq!(parse_stream_ids(&join_stream_ids(&ids)), ids);
}

#[test]
fn pad_name_sanitizing() {
    assert_eq!(sanitize_pad_name("cam a/1-x_y"), "cam_a_1-x_y");
}

#[test]
fn srt_pbkeylen_property_ignores_bad_lengths() {
    let mut element = SrtServerSrcState::new();
    assert!(!element.set_property("pbkeylen", PropertyValue::UInt(20)));
    assert!(matches!(element.property("pbkeylen"), PropertyValue::UInt(32)));
    assert!(element.set_property("pbkeylen", PropertyValue::UInt(16)));
    assert!(matches!(element.property("pbkeylen"), PropertyValue::UInt(16)));
    element.set_property("uri", PropertyValue::Text(None));
    assert_eq!(text(element.property("uri")), "srt://0.0.0.0:7001?mode=listener");
}

#[test]
fn listener_addresses() {
    let a = parse_listener_addr("srt://0.0.0.0:7001?mode=listener").unwrap();
    assert_eq!((a.ip, a.port), ((0, 0, 0, 0), 7001));
    let a = parse_listener_addr("srt://:9000/").unwrap();
    assert_eq!((a.ip, a.port), ((0, 0, 0, 0), 9000));
    let a = parse_listener_addr("srt://192.168.1.20:1234").unwrap();
    assert_eq!((a.ip, a.port), ((192, 168, 1, 20), 1234));
    assert_eq!(parse_listener_addr("udp://1.2.3.4:5").unwrap_err(), SrtSetupError::UriScheme);
    assert_eq!(parse_listener_addr("srt://1.2.3.4").unwrap_err(), SrtSetupError::MissingPort);
    assert_eq!(parse_listener_addr("srt://1.2.3.4:99999").unwrap_err(), SrtSetupError::InvalidPort);
    assert_eq!(
        parse_listener_addr("srt://localhost:1").unwrap_err(),
        SrtSetupError::NotIpv4("localhost".to_owned())
    );
    assert!(parse_listener_addr("srt://01.2.3.4:1").is_err());
    assert!(parse_listener_addr("srt://256.2.3.4:1").is_err());
    assert_eq!(
        SrtSetupError::NotIpv4("h".to_owned()).message(),
        "SRT demux listener only supports IPv4 hosts: h"
    );
}

#[test]
fn listener_options_in_order() {
    let mut s = SrtSettings::default_settings();
    let steps = listener_steps(&s);
    assert_eq!(steps.len(), 4);
    assert!(matches!(steps[0], ListenerStep::SetInt { option: SRTO_REUSEADDR, value: 1 }));
    assert!(matches!(steps[1], ListenerStep::SetInt { option: SRTO_TRANSTYPE, value: SRTT_LIVE }));
    assert!(matches!(steps[2], ListenerStep::SetInt { option: SRTO_LATENCY, value: 125 }));
    assert!(matches!(steps[3], ListenerStep::SetInt { option: SRTO_RCVTIMEO, value: 1000 }));
    s.passphrase = "secret-passphrase".to_owned();
    let steps = listener_steps(&s);
    assert_eq!(steps.len(), 6);
    assert!(matches!(&steps[4], ListenerStep::SetPassphrase(p) if p == "secret-passphrase"));
    assert!(matches!(steps[5], ListenerStep::SetInt { option: SRTO_PBKEYLEN, value: 32 }));
    s.passphrase = "bad\0pass".to_owned();
    let steps = listener_steps(&s);
    assert_eq!(steps.len(), 5);
    assert!(matches!(steps[4], ListenerStep::Reject(SrtSetupError::PassphraseNul)));
}

#[test]
fn caller_decisions() {
    let mut routes = StreamRoutes::new();
    routes.add_stream_id("cam");
    assert!(routes.accepts("cam"));
    assert!(!routes.accepts(" cam"));
    let r = routes.route_for_caller(Some("cam".to_owned())).unwrap();
    assert_eq!(r.pad_name, "src");
    assert!(routes.route_for_caller(Some("other".to_owned())).is_none());
    assert!(routes.route_for_caller(None).is_none());
    assert_eq!(
        stream_start_id(&StreamRoute { stream_id: "cam a".to_owned(), pad_name: "src".to_owned() }),
        "srt-src-cam_a"
    );
    assert!(caller_ready(1, 1));
    assert!(!caller_ready(-1, 1));
    assert!(!caller_ready(0, 0));
    assert_eq!(accepted_socket(-1), None);
    assert_eq!(accepted_socket(7), Some(7));
    assert_eq!(read_step(10, 100, true), ReadStep::Push { len: 10, stamp: true });
    assert_eq!(read_step(0, 100, true), ReadStep::Stop);
    assert_eq!(read_step(-1, 100, false), ReadStep::Stop);
}

#[test]
fn stream_ids_from_buffers() {
    let mut buf = [0u8; 16];
    buf[..3].copy_from_slice(b"cam");
    assert_eq!(stream_id_from_buffer(&buf, 0, 3).as_deref(), Some("cam"));
    assert_eq!(stream_id_from_buffer(&buf, -1, 3), None);
    assert_eq!(stream_id_from_buffer(&buf, 0, 0), None);
    let bad = [0xffu8, 0xfe];
    assert_eq!(stream_id_from_buffer(&bad, 0, 2), None);
    assert_eq!(stream_id_from_buffer(&[0u8; 4], 0, 4), None);
    assert_eq!(srt_error_message("failed to bind SRT listener", "boom"), "failed to bind SRT listener: boom");
}

#[test]
fn rist_start_checks() {
    let mut s = RistSettings::default_settings();
    assert_eq!(check_start(&s), Err(RistStartError::UrlRequired));
    s.url = "rist://@127.0.0.1:1234".to_owned();
    assert_eq!(check_start(&s), Ok(Profile::Simple));
    s.profile = "fancy".to_owned();
    assert_eq!(check_start(&s), Err(RistStartError::UnknownProfile("fancy".to_owned())));
    assert_eq!(
        RistStartError::UnknownProfile("fancy".to_owned()).message(),
        "unknown RIST profile: fancy"
    );
    let d = RistSettings::default_settings().read_timeout();
    assert_eq!((d.secs, d.nanos), (0, 50_000_000));
}

#[test]
fn rist_binding_outcomes() {
    assert_eq!(ensure_success(0, "rist_start"), Ok(()));
    assert_eq!(ensure_success(-1, "rist_start"), Err(RistError::Librist { operation: "rist_start" }));
    assert_eq!(
        ensure_created(0, false, "rist_peer_create", "rist_peer_create returned null peer"),
        Err(RistError::Librist { operation: "rist_peer_create returned null peer" })
    );
    assert_eq!(check_url("rist://a\0b"), Err(RistError::UrlContainsNul));
    assert_eq!(check_url("rist://@1.2.3.4:5"), Ok(()));
    assert_eq!(peer_config_outcome(-3, true), Err(RistError::Librist { operation: "rist_parse_address2" }));
    assert_eq!(read_outcome(0, false), ReadOutcome::Nothing);
    assert_eq!(read_outcome(1, true), ReadOutcome::Block);
    assert_eq!(check_payload(0, false), Ok(false));
    assert!(check_payload(5, false).is_err());
    assert_eq!(RistError::Librist { operation: "rist_start" }.message(), "librist call failed: rist_start");
}

#[test]
fn stream_ids_property_reads_back_sorted() {
    let mut element = SrtServerSrcState::new();
    element.set_property("stream-ids", PropertyValue::Text(Some(" c , a,b,a ".to_owned())));
    let read = text(element.property("stream-ids"));
    assert_eq!(read, "a,b,c");
    element.set_property("stream-ids", PropertyValue::Text(Some(read.clone())));
    assert_eq!(text(element.property("stream-ids")), read);
    element.set_property("stream-ids", PropertyValue::Text(None));
    assert_eq!(text(element.property("stream-ids")), "");
}

#[test]
fn stream_id_with_comma_does_not_survive_write_back() {
    let mut element = SrtServerSrcState::new();
    element.routes.add_stream_id("a,b");
    let read = text(element.property("stream-ids"));
    assert_eq!(read, "a,b");
    element.set_property("stream-ids", PropertyValue::Text(Some(read)));
    assert_eq!(element.routes.stream_ids(), ["a", "b"]);
}

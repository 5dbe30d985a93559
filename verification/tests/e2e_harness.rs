use std::collections::BTreeMap;

use kinugasa::e2e::{
    base_placeholders, e2e_report, ensure_same_fingerprint, expand_template, fingerprint_bytes,
    fnv1a64, marker_step, output_path, plan_commands, plan_exchange, receiver_step,
    settle_exchange, shell_quote, unique_file_name, validate_config, CompareMode, Duration,
    E2eError, MarkerStep, ProtocolE2eConfig, ReceiverStep, ReceiverWait, StreamFingerprint,
};

#[test]
fn expands_known_placeholders() {
    let mut placeholders = BTreeMap::new();
    placeholders.insert("host", "127.0.0.1".to_owned());
    placeholders.insert("port", "1234".to_owned());

    assert_eq!(
        expand_template("udp://{host}:{port}?pkt_size=1316", &placeholders),
        "udp://127.0.0.1:1234?pkt_size=1316"
    );
}

#[test]
fn parses_compare_modes() {
    assert_eq!(CompareMode::parse("both").unwrap(), CompareMode::Both);
    assert_eq!(CompareMode::parse("video").unwrap(), CompareMode::Video);
    assert_eq!(CompareMode::parse("audio").unwrap(), CompareMode::Audio);
    assert_eq!(CompareMode::parse("none").unwrap(), CompareMode::Neither);
    assert!(CompareMode::parse("metadata").is_err());
}

#[test]
fn unknown_compare_mode_names_the_value() {
    assert_eq!(
        CompareMode::parse("metadata"),
        Err(E2eError::UnknownCompareMode("metadata".to_owned()))
    );
}

#[test]
fn compare_modes_select_streams() {
    assert!(CompareMode::Both.includes_video() && CompareMode::Both.includes_audio());
    assert!(CompareMode::Video.includes_video() && !CompareMode::Video.includes_audio());
    assert!(!CompareMode::Audio.includes_video() && CompareMode::Audio.includes_audio());
    assert!(!CompareMode::Neither.includes_video() && !CompareMode::Neither.includes_audio());
}

#[test]
fn expansion_leaves_unknown_placeholders() {
    let mut placeholders = BTreeMap::new();
    placeholders.insert("host", "h".to_owned());
    assert_eq!(expand_template("{host}/{other}/{host}", &placeholders), "h/{other}/h");
    assert_eq!(expand_template("plain", &BTreeMap::new()), "plain");
}

#[test]
fn placeholders_are_replaced_in_key_order() {
    let mut placeholders = BTreeMap::new();
    placeholders.insert("b", "{a}".to_owned());
    placeholders.insert("a", "x".to_owned());
    // `a` is replaced before `b`, so the `{a}` that `b` brings in stays.
    assert_eq!(expand_template("{a}{b}", &placeholders), "x{a}");
}

#[test]
fn quotes_for_the_shell() {
    assert_eq!(shell_quote("plain"), "'plain'");
    assert_eq!(shell_quote(""), "''");
    assert_eq!(shell_quote("it's"), "'it'\\''s'");
}

#[test]
fn fnv1a64_known_values() {
    assert_eq!(fnv1a64(b""), 0xcbf29ce484222325);
    assert_eq!(fnv1a64(b"a"), 0xaf63dc4c8601ec8c);
    assert_eq!(fnv1a64(b"foobar"), 0x85944171f73967e8);
}

#[test]
fn fingerprint_counts_and_hashes() {
    let f = fingerprint_bytes(b"foobar");
    assert_eq!(f, StreamFingerprint { bytes: 6, hash: 0x85944171f73967e8 });
}

#[test]
fn fingerprints_must_match() {
    let a = StreamFingerprint { bytes: 3, hash: 7 };
    let b = StreamFingerprint { bytes: 3, hash: 8 };
    assert!(ensure_same_fingerprint("video", &a, &a).is_ok());
    assert_eq!(
        ensure_same_fingerprint("audio", &a, &b),
        Err(E2eError::FingerprintMismatch { label: "audio".to_owned(), expected: a, actual: b })
    );
}

fn valid_config() -> ProtocolE2eConfig {
    let mut c = ProtocolE2eConfig::default_config();
    c.sender_url = "udp://{host}:{port}".to_owned();
    c.receiver = "recv {receiver_url} {output}".to_owned();
    c
}

#[test]
fn default_config_values() {
    let c = ProtocolE2eConfig::default_config();
    assert_eq!(c.host, "127.0.0.1");
    assert_eq!(c.duration, Duration { secs: 5, nanos: 0 });
    assert_eq!(c.startup_delay, Duration { secs: 0, nanos: 800_000_000 });
    assert_eq!(c.receiver_timeout, Duration { secs: 10, nanos: 0 });
    assert_eq!(c.compare, CompareMode::Both);
    assert_eq!(c.port, None);
}

#[test]
fn validation_errors_in_order() {
    let c = ProtocolE2eConfig::default_config();
    assert_eq!(validate_config(&c), Err(E2eError::SenderUrlRequired));

    let mut c = valid_config();
    c.receiver = String::new();
    assert_eq!(validate_config(&c), Err(E2eError::ReceiverRequired));

    let mut c = valid_config();
    c.skip_send = true;
    assert_eq!(validate_config(&c), Err(E2eError::SkipSendRequiresReceiverDone));

    let mut c = valid_config();
    c.duration = Duration { secs: 0, nanos: 0 };
    assert_eq!(validate_config(&c), Err(E2eError::ZeroDuration));

    let mut c = valid_config();
    c.receiver_timeout = Duration { secs: 0, nanos: 0 };
    assert_eq!(validate_config(&c), Err(E2eError::ZeroReceiverTimeout));

    assert_eq!(validate_config(&valid_config()), Ok(()));
}

#[test]
fn base_placeholders_hold_the_run() {
    let mut c = valid_config();
    c.port = Some(4000);
    let m = base_placeholders(&c, "5", "/w/reference.ts", "/w/received.ts");
    assert_eq!(m.len(), 5);
    assert_eq!(m["duration"], "5");
    assert_eq!(m["host"], "127.0.0.1");
    assert_eq!(m["port"], "4000");
    assert_eq!(m["output"], "'/w/received.ts'");
    assert_eq!(m["reference"], "'/w/reference.ts'");
}

#[test]
fn plan_expands_urls_and_receiver() {
    let mut c = valid_config();
    c.port = Some(4000);
    let plan = plan_commands(&c, "5", "/w/ref.ts", "/w/out.ts");
    assert_eq!(plan.sender_url, "udp://127.0.0.1:4000");
    assert_eq!(plan.receiver_url, "udp://127.0.0.1:4000");
    assert_eq!(plan.receiver_command, "recv 'udp://127.0.0.1:4000' '/w/out.ts'");
    assert!(plan.start_receiver);

    c.receiver_url = Some("srt://{host}:{port}?mode=listener".to_owned());
    c.receiver = String::new();
    let plan = plan_commands(&c, "5", "/w/ref.ts", "/w/out.ts");
    assert_eq!(plan.receiver_url, "srt://127.0.0.1:4000?mode=listener");
    assert!(!plan.start_receiver);
}

#[test]
fn exchange_sends_unless_skipped_and_waits_by_receiver_kind() {
    let mut c = valid_config();
    let x = plan_exchange(&c, true);
    assert!(x.send);
    assert!(matches!(x.wait, ReceiverWait::Process));
    assert!(matches!(plan_exchange(&c, false).wait, ReceiverWait::Missing));
    c.skip_send = true;
    c.receiver_done = Some("/w/done".to_owned());
    let x = plan_exchange(&c, false);
    assert!(!x.send);
    match x.wait {
        ReceiverWait::Marker(m) => assert_eq!(m, "/w/done"),
        other => panic!("unexpected wait: {other:?}"),
    }
    assert!(matches!(plan_exchange(&c, true).wait, ReceiverWait::Process));
}

#[test]
fn report_keeps_fingerprints_of_compared_streams_only() {
    let mut c = valid_config();
    c.port = Some(4000);
    c.compare = CompareMode::Audio;
    let plan = plan_commands(&c, "5", "/w/ref.ts", "/w/out.ts");
    let v = StreamFingerprint { bytes: 3, hash: 9 };
    let a = StreamFingerprint { bytes: 4, hash: 8 };
    let r = e2e_report(&c, "/w".to_owned(), "/w/ref.ts".to_owned(), "/w/out.ts".to_owned(), plan, true, Some(v), Some(a));
    assert_eq!(r.video_fingerprint, None);
    assert_eq!(r.audio_fingerprint, Some(a));
    assert_eq!(r.sender_url, "udp://127.0.0.1:4000");
    assert_eq!(r.output_ts, "/w/out.ts");
    assert!(r.receiver_was_terminated);
    assert_eq!(r.receiver_done, None);
}

#[test]
fn output_defaults_to_work_dir() {
    let mut c = valid_config();
    assert_eq!(output_path(&c, "/w/received.ts".to_owned()), "/w/received.ts");
    c.output = Some("/o.ts".to_owned());
    assert_eq!(output_path(&c, "/w/received.ts".to_owned()), "/o.ts");
}

#[test]
fn failed_sender_kills_started_receiver() {
    let s = settle_exchange::<String>(false, true, Err("send".to_owned()), Ok(false));
    assert!(s.kill_receiver);
    assert_eq!(s.outcome, Err("send".to_owned()));

    let s = settle_exchange::<String>(true, true, Err("send".to_owned()), Ok(true));
    assert!(!s.kill_receiver);
    assert_eq!(s.outcome, Ok(true));

    let s = settle_exchange::<String>(false, false, Ok(()), Err("recv".to_owned()));
    assert!(!s.kill_receiver);
    assert_eq!(s.outcome, Err("recv".to_owned()));
}

#[test]
fn receiver_and_marker_steps() {
    let timeout = Duration { secs: 1, nanos: 0 };
    let early = Duration { secs: 0, nanos: 999_999_999 };
    assert_eq!(receiver_step(Some(true), &early, &timeout), ReceiverStep::Finished);
    assert_eq!(receiver_step(Some(false), &early, &timeout), ReceiverStep::Failed);
    assert_eq!(receiver_step(None, &early, &timeout), ReceiverStep::Wait);
    assert_eq!(receiver_step(None, &timeout, &timeout), ReceiverStep::Terminate);
    assert_eq!(marker_step(true, &timeout, &timeout), MarkerStep::Done);
    assert_eq!(marker_step(false, &early, &timeout), MarkerStep::Wait);
    assert_eq!(marker_step(false, &timeout, &timeout), MarkerStep::TimedOut);
}

#[test]
fn unique_names_carry_pid_and_time() {
    assert_eq!(unique_file_name("capture", 42, 1700, "ts"), "capture-42-1700.ts");
}

#[test]
fn durations_from_millis() {
    assert_eq!(Duration::from_millis(800), Duration { secs: 0, nanos: 800_000_000 });
    assert_eq!(Duration::from_millis(2500), Duration { secs: 2, nanos: 500_000_000 });
    assert!(Duration { secs: 0, nanos: 0 }.is_zero());
}

#[test]
fn harness_error_messages() {
    let a = StreamFingerprint { bytes: 10, hash: 0xab };
    let b = StreamFingerprint { bytes: 12, hash: 0xcbf29ce484222325 };
    let e = E2eError::FingerprintMismatch { label: "video".to_owned(), expected: a, actual: b };
    assert_eq!(
        e.message(),
        format!(
            "video fingerprint mismatch: expected {} bytes hash {:016x}, got {} bytes hash {:016x}",
            a.bytes, a.hash, b.bytes, b.hash
        )
    );
    assert_eq!(E2eError::ZeroDuration.message(), "--duration must be greater than zero");
    assert_eq!(
        E2eError::UnknownCompareMode("x".to_owned()).message(),
        "unknown compare mode: x"
    );
}

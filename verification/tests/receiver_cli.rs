use kinugasa::protocol_args::parse_protocol_e2e_args;
use kinugasa::receiver_args::{
    dedupe_stream_ids, ensure_pbkeylen, output_routes, parse_multi_stream_args,
    parse_rist_receive_args, parse_srt_receive_args, parse_stream_output, parse_timed_action,
    plan_initial_links, ArgError, ArgsEnd, MultiStreamConfig, RouteError, SecondsUse,
    StreamOutput,
};
use kinugasa::e2e::CompareMode;
use kinugasa::rist::Profile;

fn args(list: &[&str]) -> Vec<String> {
    list.iter().map(|s| s.to_string()).collect()
}

#[test]
fn pbkeylen_must_be_a_key_size() {
    for ok in [0, 16, 24, 32] {
        assert!(ensure_pbkeylen(ok).is_ok());
    }
    assert!(matches!(ensure_pbkeylen(8), Err(ArgError::InvalidPbkeylen)));
}

#[test]
fn stream_ids_are_deduplicated_in_order() {
    let out = dedupe_stream_ids(args(&["a", "b", "a", "", "c", "b"]));
    assert_eq!(out, ["a", "b", "c"]);
}

#[test]
fn stream_output_parsing() {
    let o = parse_stream_output(" cam-a =/tmp/a.ts").unwrap();
    assert_eq!(o.stream_id, "cam-a");
    assert_eq!(o.output, "/tmp/a.ts");
    assert!(matches!(parse_stream_output("cam-a"), Err(ArgError::StreamOutputFormat)));
    assert!(matches!(parse_stream_output(" =/x"), Err(ArgError::StreamOutputEmptyId)));
    assert!(matches!(parse_stream_output("cam="), Err(ArgError::StreamOutputEmptyPath)));
}

#[test]
fn timed_action_parsing() {
    let (id, secs) = parse_timed_action(" cam-b :1.5").unwrap();
    assert_eq!(id, "cam-b");
    assert_eq!(secs, "1.5");
    assert!(matches!(parse_timed_action("cam-b"), Err(ArgError::TimedActionFormat)));
    assert!(matches!(parse_timed_action(" :2"), Err(ArgError::TimedActionEmptyId)));
}

#[test]
fn multi_stream_arguments() {
    let p = parse_multi_stream_args(&args(&[
        "--url",
        "srt://0.0.0.0:1234?mode=listener",
        "--stream-ids",
        "a, b,,a",
        "--stream-id",
        "c",
        "--stream-output",
        "a=/a.ts",
        "--duration",
        "2.5",
        "--add-stream-id-after",
        "d:1",
    ]));
    assert_eq!(p.seconds.len(), 2);
    assert_eq!(p.seconds[0].used_for, SecondsUse::Duration);
    assert_eq!(p.seconds[0].text, "2.5");
    assert_eq!(p.seconds[1].used_for, SecondsUse::Delay);
    match p.end {
        ArgsEnd::Run(c) => {
            assert_eq!(c.url, "srt://0.0.0.0:1234?mode=listener");
            assert_eq!(c.stream_ids, ["a", "b", "c"]);
            assert_eq!(c.duration, Some(0));
            assert_eq!(c.pbkeylen, 32);
            assert_eq!(c.actions.len(), 1);
            assert_eq!(c.actions[0].after, 1);
            assert_eq!(c.actions[0].stream_id, "d");
        }
        other => panic!("unexpected end: {other:?}"),
    }
}

#[test]
fn multi_stream_argument_errors() {
    assert!(matches!(
        parse_multi_stream_args(&args(&["--stream-id", "a"])).end,
        ArgsEnd::Failed(ArgError::Required("--url"))
    ));
    assert!(matches!(
        parse_multi_stream_args(&args(&["--url"])).end,
        ArgsEnd::Failed(ArgError::MissingValue("--url"))
    ));
    assert!(matches!(
        parse_multi_stream_args(&args(&["--url", "u", "--pbkeylen", "7"])).end,
        ArgsEnd::Failed(ArgError::InvalidPbkeylen)
    ));
    assert!(matches!(
        parse_multi_stream_args(&args(&["--bogus"])).end,
        ArgsEnd::Failed(ArgError::UnknownArgument(_))
    ));
    assert!(matches!(parse_multi_stream_args(&args(&["-h"])).end, ArgsEnd::Help));
}

#[test]
fn srt_single_stream_arguments() {
    let p = parse_srt_receive_args(&args(&[
        "--url", "u", "--stream-id", "cam", "--output", "o.ts", "--pbkeylen", "16",
    ]));
    match p.end {
        ArgsEnd::Run(c) => {
            assert_eq!(c.stream_id, "cam");
            assert_eq!(c.output, "o.ts");
            assert_eq!(c.pbkeylen, 16);
            assert_eq!(c.duration, None);
        }
        other => panic!("unexpected end: {other:?}"),
    }
    assert!(matches!(
        parse_srt_receive_args(&args(&["--url", "u", "--output", "o"])).end,
        ArgsEnd::Failed(ArgError::Required("--stream-id"))
    ));
}

#[test]
fn rist_receiver_arguments() {
    let p = parse_rist_receive_args(&args(&[
        "--url", "rist://@127.0.0.1:1234", "--output", "o.ts", "--profile", "main",
    ]));
    match p.end {
        ArgsEnd::Run(c) => {
            assert_eq!(c.profile, Profile::Main);
            assert_eq!(c.url, "rist://@127.0.0.1:1234");
        }
        other => panic!("unexpected end: {other:?}"),
    }
    assert!(matches!(
        parse_rist_receive_args(&args(&["--profile", "fancy"])).end,
        ArgsEnd::Failed(ArgError::UnknownProfile(_))
    ));
}

#[test]
fn protocol_harness_arguments() {
    let p = parse_protocol_e2e_args(&args(&[
        "--sender-url",
        "udp://{host}:{port}",
        "--receiver",
        "recv",
        "--port",
        "5000",
        "--compare",
        "video",
        "--duration",
        "3",
        "--receiver-timeout",
        "1.5",
        "--skip-send",
    ]));
    assert_eq!(p.seconds.len(), 2);
    assert_eq!(p.seconds[0].used_for, SecondsUse::Duration);
    assert_eq!(p.seconds[1].used_for, SecondsUse::ReceiverTimeout);
    match p.end {
        ArgsEnd::Run(c) => {
            assert_eq!(c.port, Some(5000));
            assert_eq!(c.compare, CompareMode::Video);
            assert!(c.skip_send);
            assert_eq!(c.sender_url, "udp://{host}:{port}");
        }
        other => panic!("unexpected end: {other:?}"),
    }
    assert!(matches!(
        parse_protocol_e2e_args(&args(&["--port", "70000"])).end,
        ArgsEnd::Failed(ArgError::InvalidPort)
    ));
    assert!(matches!(
        parse_protocol_e2e_args(&args(&["--compare", "metadata"])).end,
        ArgsEnd::Failed(ArgError::UnknownCompareMode(_))
    ));
    assert!(matches!(
        parse_protocol_e2e_args(&args(&["--receiver"])).end,
        ArgsEnd::Failed(ArgError::MissingValue("--receiver"))
    ));
}

fn multi(output: Option<&str>, ids: &[&str], outs: &[(&str, &str)]) -> MultiStreamConfig {
    MultiStreamConfig {
        url: "u".to_owned(),
        stream_ids: args(ids),
        output: output.map(str::to_owned),
        stream_outputs: outs
            .iter()
            .map(|(i, o)| StreamOutput { stream_id: i.to_string(), output: o.to_string() })
            .collect(),
        duration: None,
        passphrase: String::new(),
        pbkeylen: 32,
        actions: Vec::new(),
    }
}

#[test]
fn output_routes_rules() {
    assert_eq!(output_routes(&multi(Some("o"), &[], &[("a", "x")])).unwrap_err(), RouteError::BothOutputs);
    assert_eq!(output_routes(&multi(None, &["a"], &[])).unwrap_err(), RouteError::OutputRequired);
    assert_eq!(output_routes(&multi(Some("o"), &[], &[])).unwrap_err(), RouteError::OutputNeedsStreamId);
    assert_eq!(
        output_routes(&multi(Some("o"), &["a", "b"], &[])).unwrap_err(),
        RouteError::OutputForOneStreamOnly
    );
    let r = output_routes(&multi(Some("o.ts"), &["a"], &[])).unwrap();
    assert_eq!(r.len(), 1);
    assert_eq!(r[0].stream_id, "a");
    assert_eq!(r[0].output, "o.ts");
    assert_eq!(
        RouteError::DuplicateRoute("a".to_owned()).message(),
        "duplicate output route for stream ID a"
    );
}

#[test]
fn initial_links_need_unique_routes() {
    let routes = vec![
        StreamOutput { stream_id: "a".to_owned(), output: "1".to_owned() },
        StreamOutput { stream_id: "b".to_owned(), output: "2".to_owned() },
    ];
    assert_eq!(plan_initial_links(&routes, &args(&["b", "a"])).unwrap(), vec![1, 0]);
    assert_eq!(
        plan_initial_links(&routes, &args(&["a", "c"])).unwrap_err(),
        RouteError::MissingInitialOutput("c".to_owned())
    );
    let dup = vec![
        StreamOutput { stream_id: "a".to_owned(), output: "1".to_owned() },
        StreamOutput { stream_id: "a".to_owned(), output: "2".to_owned() },
    ];
    assert_eq!(
        plan_initial_links(&dup, &args(&["a"])).unwrap_err(),
        RouteError::DuplicateRoute("a".to_owned())
    );
}

#[test]
fn argument_error_messages() {
    assert_eq!(ArgError::MissingValue("--url").message(), "--url requires a value");
    assert_eq!(ArgError::Required("--output").message(), "--output is required");
    assert_eq!(ArgError::UnknownArgument("-x".to_owned()).message(), "unknown argument: -x");
    assert_eq!(ArgError::InvalidPbkeylen.message(), "--pbkeylen must be 0, 16, 24, or 32");
    assert_eq!(ArgError::InvalidPort.message(), "--port must be a u16");
    assert_eq!(ArgError::UnknownProfile("p".to_owned()).message(), "unknown RIST profile: p");
}

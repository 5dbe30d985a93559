//! Command-line arguments of the protocol end-to-end harness.
//!
//! `--duration`, `--startup-delay` and `--receiver-timeout` are read as floating-point seconds by
//! the program itself; here each is handed back, in order, as a [`SecondsRequest`], and the
//! configuration keeps the default for it.

use vstd::prelude::*;

use crate::e2e::{compare_mode_named, CompareMode, Duration, ProtocolE2eConfig};
use crate::receiver_args::{
    opt_view, seconds_view, ArgError, ArgFailure, ArgsEnd, ParsedArgs, SecondsRequest, SecondsUse,
};
use crate::text::{parse_unsigned, parse_unsigned_str, str_equals, string_from_str, views};

verus! {

/// The harness's arguments read so far, by their views.
pub struct ProtocolView {
    pub sender_url: Seq<char>,
    pub receiver: Seq<char>,
    pub receiver_url: Option<Seq<char>>,
    pub receiver_done: Option<Seq<char>>,
    pub output: Option<Seq<char>>,
    pub work_dir: Option<Seq<char>>,
    pub host: Seq<char>,
    pub port: Option<u16>,
    pub compare: CompareMode,
    pub skip_send: bool,
    pub ignore_sender_exit_status: bool,
    pub keep_work_dir: bool,
    pub seconds: Seq<(SecondsUse, Seq<char>)>,
}

/// How reading the harness's arguments ends, by views.
pub enum ProtocolEnd {
    Run(ProtocolView),
    Help,
    Failed(ArgFailure),
}

/// The view of a configuration and the seconds requests read with it.
pub open spec fn protocol_view(c: ProtocolE2eConfig, seconds: Seq<SecondsRequest>) -> ProtocolView {
    ProtocolView {
        sender_url: c.sender_url@,
        receiver: c.receiver@,
        receiver_url: opt_view(c.receiver_url),
        receiver_done: opt_view(c.receiver_done),
        output: opt_view(c.output),
        work_dir: opt_view(c.work_dir),
        host: c.host@,
        port: c.port,
        compare: c.compare,
        skip_send: c.skip_send,
        ignore_sender_exit_status: c.ignore_sender_exit_status,
        keep_work_dir: c.keep_work_dir,
        seconds: seconds_view(seconds),
    }
}

/// Nothing read yet: the defaults.
pub open spec fn protocol_initial() -> ProtocolView {
    ProtocolView {
        sender_url: Seq::empty(),
        receiver: Seq::empty(),
        receiver_url: None,
        receiver_done: None,
        output: None,
        work_dir: None,
        host: "127.0.0.1"@,
        port: None,
        compare: CompareMode::Both,
        skip_send: false,
        ignore_sender_exit_status: false,
        keep_work_dir: false,
        seconds: Seq::empty(),
    }
}

/// Whether `a` is a flag of the harness that takes a value.
pub open spec fn takes_value(a: Seq<char>) -> bool {
    a == "--sender-url"@ || a == "--receiver"@ || a == "--receiver-url"@ || a
        == "--receiver-done"@ || a == "--output"@ || a == "--work-dir"@ || a == "--host"@ || a
        == "--port"@ || a == "--duration"@ || a == "--startup-delay"@ || a
        == "--receiver-timeout"@ || a == "--compare"@
}

/// `st` after the flag `a` with the value `v`, or the error it raises.
pub open spec fn protocol_with_value(st: ProtocolView, a: Seq<char>, v: Seq<char>) -> Result<
    ProtocolView,
    ArgFailure,
> {
    if a == "--sender-url"@ {
        Ok(ProtocolView { sender_url: v, ..st })
    } else if a == "--receiver"@ {
        Ok(ProtocolView { receiver: v, ..st })
    } else if a == "--receiver-url"@ {
        Ok(ProtocolView { receiver_url: Some(v), ..st })
    } else if a == "--receiver-done"@ {
        Ok(ProtocolView { receiver_done: Some(v), ..st })
    } else if a == "--output"@ {
        Ok(ProtocolView { output: Some(v), ..st })
    } else if a == "--work-dir"@ {
        Ok(ProtocolView { work_dir: Some(v), ..st })
    } else if a == "--host"@ {
        Ok(ProtocolView { host: v, ..st })
    } else if a == "--port"@ {
        match parse_unsigned(v, u16::MAX as nat) {
            Some(n) => Ok(ProtocolView { port: Some(n as u16), ..st }),
            None => Err(ArgFailure::InvalidPort),
        }
    } else if a == "--duration"@ {
        Ok(ProtocolView { seconds: st.seconds.push((SecondsUse::Duration, v)), ..st })
    } else if a == "--startup-delay"@ {
        Ok(ProtocolView { seconds: st.seconds.push((SecondsUse::StartupDelay, v)), ..st })
    } else if a == "--receiver-timeout"@ {
        Ok(ProtocolView { seconds: st.seconds.push((SecondsUse::ReceiverTimeout, v)), ..st })
    } else {
        match compare_mode_named(v) {
            Some(mode) => Ok(ProtocolView { compare: mode, ..st }),
            None => Err(ArgFailure::UnknownCompareMode(v)),
        }
    }
}

/// Reads the harness's arguments from position `i` on, in state `st`: the seconds requests met
/// and how reading ends.
pub open spec fn protocol_from(args: Seq<Seq<char>>, i: int, st: ProtocolView) -> (Seq<
    (SecondsUse, Seq<char>),
>, ProtocolEnd)
    decreases args.len() - i,
{
    if i < 0 || i >= args.len() {
        (st.seconds, ProtocolEnd::Run(st))
    } else {
        let a = args[i];
        if takes_value(a) {
            if i + 1 >= args.len() {
                (st.seconds, ProtocolEnd::Failed(ArgFailure::MissingValue(a)))
            } else {
                match protocol_with_value(st, a, args[i + 1]) {
                    Ok(next) => protocol_from(args, i + 2, next),
                    Err(f) => (st.seconds, ProtocolEnd::Failed(f)),
                }
            }
        } else if a == "--skip-send"@ {
            protocol_from(args, i + 1, ProtocolView { skip_send: true, ..st })
        } else if a == "--ignore-sender-exit-status"@ {
            protocol_from(args, i + 1, ProtocolView { ignore_sender_exit_status: true, ..st })
        } else if a == "--keep-work-dir"@ {
            protocol_from(args, i + 1, ProtocolView { keep_work_dir: true, ..st })
        } else if a == "--help"@ || a == "-h"@ {
            (st.seconds, ProtocolEnd::Help)
        } else {
            (st.seconds, ProtocolEnd::Failed(ArgFailure::UnknownArgument(a)))
        }
    }
}

/// The view of the outcome of reading the harness's arguments.
pub open spec fn protocol_outcome(p: ParsedArgs<ProtocolE2eConfig>) -> (Seq<
    (SecondsUse, Seq<char>),
>, ProtocolEnd) {
    (
        seconds_view(p.seconds@),
        match p.end {
            ArgsEnd::Run(c) => ProtocolEnd::Run(protocol_view(c, p.seconds@)),
            ArgsEnd::Help => ProtocolEnd::Help,
            ArgsEnd::Failed(e) => ProtocolEnd::Failed(e@),
        },
    )
}

/// The flag at `a` when it takes a value, as a `'static` name.
fn value_flag(a: &str) -> (f: Option<&'static str>)
    ensures
        takes_value(a@) <==> f is Some,
        f matches Some(x) ==> x@ == a@,
{
    if str_equals(a, "--sender-url") {
        Some("--sender-url")
    } else if str_equals(a, "--receiver") {
        Some("--receiver")
    } else if str_equals(a, "--receiver-url") {
        Some("--receiver-url")
    } else if str_equals(a, "--receiver-done") {
        Some("--receiver-done")
    } else if str_equals(a, "--output") {
        Some("--output")
    } else if str_equals(a, "--work-dir") {
        Some("--work-dir")
    } else if str_equals(a, "--host") {
        Some("--host")
    } else if str_equals(a, "--port") {
        Some("--port")
    } else if str_equals(a, "--duration") {
        Some("--duration")
    } else if str_equals(a, "--startup-delay") {
        Some("--startup-delay")
    } else if str_equals(a, "--receiver-timeout") {
        Some("--receiver-timeout")
    } else if str_equals(a, "--compare") {
        Some("--compare")
    } else {
        None
    }
}

/// Applies the flag `a` with the value `v` to the configuration and the seconds requests.
fn apply_value(
    config: &mut ProtocolE2eConfig,
    seconds: &mut Vec<SecondsRequest>,
    a: &str,
    v: String,
) -> (r: Result<(), ArgError>)
    requires
        takes_value(a@),
    ensures
        match protocol_with_value(protocol_view(*old(config), old(seconds)@), a@, v@) {
            Ok(next) => r is Ok && protocol_view(*final(config), final(seconds)@) == next,
            Err(f) => r matches Err(e) && e@ == f,
        },
        r is Err ==> final(seconds)@ == old(seconds)@,
        final(config).duration == old(config).duration,
        final(config).startup_delay == old(config).startup_delay,
        final(config).receiver_timeout == old(config).receiver_timeout,
{
    let ghost before = seconds_view(seconds@);
    if str_equals(a, "--sender-url") {
        config.sender_url = v;
    } else if str_equals(a, "--receiver") {
        config.receiver = v;
    } else if str_equals(a, "--receiver-url") {
        config.receiver_url = Some(v);
    } else if str_equals(a, "--receiver-done") {
        config.receiver_done = Some(v);
    } else if str_equals(a, "--output") {
        config.output = Some(v);
    } else if str_equals(a, "--work-dir") {
        config.work_dir = Some(v);
    } else if str_equals(a, "--host") {
        config.host = v;
    } else if str_equals(a, "--port") {
        match parse_unsigned_str(v.as_str(), 0xffff) {
            Some(n) => {
                config.port = Some(n as u16);
            },
            None => {
                return Err(ArgError::InvalidPort);
            },
        }
    } else if str_equals(a, "--duration") {
        seconds.push(SecondsRequest { used_for: SecondsUse::Duration, text: v });
        assert(seconds_view(seconds@) =~= before.push((SecondsUse::Duration, v@)));
    } else if str_equals(a, "--startup-delay") {
        seconds.push(SecondsRequest { used_for: SecondsUse::StartupDelay, text: v });
        assert(seconds_view(seconds@) =~= before.push((SecondsUse::StartupDelay, v@)));
    } else if str_equals(a, "--receiver-timeout") {
        seconds.push(SecondsRequest { used_for: SecondsUse::ReceiverTimeout, text: v });
        assert(seconds_view(seconds@) =~= before.push((SecondsUse::ReceiverTimeout, v@)));
    } else {
        match CompareMode::parse(v.as_str()) {
            Ok(mode) => {
                config.compare = mode;
            },
            Err(_) => {
                return Err(ArgError::UnknownCompareMode(v));
            },
        }
    }
    Ok(())
}

/// Reads the harness's arguments (the program's arguments without its name). Durations keep their
/// defaults in the configuration; their texts come back as seconds requests.
pub fn parse_protocol_e2e_args(args: &Vec<String>) -> (r: ParsedArgs<ProtocolE2eConfig>)
    ensures
        protocol_outcome(r) == protocol_from(views(args@), 0, protocol_initial()),
        r.end matches ArgsEnd::Run(c) ==> {
            &&& c.duration == (Duration { secs: 5, nanos: 0 })
            &&& c.startup_delay == (Duration { secs: 0, nanos: 800_000_000 })
            &&& c.receiver_timeout == (Duration { secs: 10, nanos: 0 })
        },
{
    let ghost av = views(args@);
    let mut config = ProtocolE2eConfig::default_config();
    let ghost d = config;
    let mut seconds: Vec<SecondsRequest> = Vec::new();
    assert(protocol_view(config, seconds@) == protocol_initial()) by {
        assert(seconds_view(seconds@) =~= Seq::<(SecondsUse, Seq<char>)>::empty());
        assert(config.sender_url@ =~= Seq::<char>::empty());
        assert(config.receiver@ =~= Seq::<char>::empty());
    }
    let mut i: usize = 0;
    while i < args.len()
        invariant
            i <= args.len(),
            av == views(args@),
            config.duration == d.duration,
            config.startup_delay == d.startup_delay,
            config.receiver_timeout == d.receiver_timeout,
            protocol_from(av, i as int, protocol_view(config, seconds@)) == protocol_from(
                av,
                0,
                protocol_initial(),
            ),
        decreases args.len() - i,
    {
        let a = args[i].as_str();
        assert(av[i as int] == a@);
        match value_flag(a) {
            Some(f) => {
                if i + 1 >= args.len() {
                    return ParsedArgs { seconds, end: ArgsEnd::Failed(ArgError::MissingValue(f)) };
                }
                let v = args[i + 1].clone();
                assert(av[i + 1] == v@);
                match apply_value(&mut config, &mut seconds, a, v) {
                    Ok(()) => {},
                    Err(e) => {
                        return ParsedArgs { seconds, end: ArgsEnd::Failed(e) };
                    },
                }
                i = i + 2;
            },
            None => {
                if str_equals(a, "--skip-send") {
                    config.skip_send = true;
                } else if str_equals(a, "--ignore-sender-exit-status") {
                    config.ignore_sender_exit_status = true;
                } else if str_equals(a, "--keep-work-dir") {
                    config.keep_work_dir = true;
                } else if str_equals(a, "--help") || str_equals(a, "-h") {
                    return ParsedArgs { seconds, end: ArgsEnd::Help };
                } else {
                    return ParsedArgs {
                        seconds,
                        end: ArgsEnd::Failed(ArgError::UnknownArgument(string_from_str(a))),
                    };
                }
                i = i + 1;
            },
        }
    }
    ParsedArgs { seconds, end: ArgsEnd::Run(config) }
}

} // verus!

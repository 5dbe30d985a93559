//! Command-line arguments of the receiver programs: the SRT multi-stream receiver, the SRT
//! single-stream receiver and the RIST receiver.
//!
//! Values given in seconds are read as floating-point numbers by the program itself; here each
//! such value is handed back, in the order in which it occurs, as a [`SecondsRequest`].

use vstd::prelude::*;

use crate::rist::{profile_named, Profile};
use crate::text::{
    chars_of, is_blank, parse_unsigned, parse_unsigned_str, split_chars, split_on, split_once,
    str_equals, string_from_str, string_of_range, trim, trim_str, views,
};

verus! {

/// Whether a timed action starts or stops accepting a stream ID.
#[derive(Debug, Clone, Copy, PartialEq, Eq, Structural)]
pub enum ActionKind {
    Add,
    Remove,
}

/// A stream ID and the file its payload is written to.
#[derive(Debug, Clone)]
pub struct StreamOutput {
    pub stream_id: String,
    pub output: String,
}

/// A change of the accepted stream IDs after a delay, the delay being the seconds request with
/// index `after`.
#[derive(Debug, Clone)]
pub struct TimedAction {
    pub after: usize,
    pub kind: ActionKind,
    pub stream_id: String,
}

/// What a value in seconds is for.
#[derive(Debug, Clone, Copy, PartialEq, Eq, Structural)]
pub enum SecondsUse {
    /// The value of `--duration`.
    Duration,
    /// The delay of a timed action.
    Delay,
    /// The value of `--startup-delay`.
    StartupDelay,
    /// The value of `--receiver-timeout`.
    ReceiverTimeout,
}

/// A value in seconds that the program reads itself.
#[derive(Debug, Clone)]
pub struct SecondsRequest {
    pub used_for: SecondsUse,
    pub text: String,
}

/// Errors in the arguments.
#[derive(Debug, Clone)]
pub enum ArgError {
    /// A flag given as the last argument, with no value after it.
    MissingValue(&'static str),
    /// A `--pbkeylen` that is not 0, 16, 24 or 32.
    InvalidPbkeylen,
    /// An argument that is no flag of the program.
    UnknownArgument(String),
    /// A required flag that was not given.
    Required(&'static str),
    /// A `--stream-output` without `=`.
    StreamOutputFormat,
    /// A `--stream-output` with a blank stream ID.
    StreamOutputEmptyId,
    /// A `--stream-output` with an empty path.
    StreamOutputEmptyPath,
    /// A timed action without `:`.
    TimedActionFormat,
    /// A timed action with a blank stream ID.
    TimedActionEmptyId,
    /// A `--profile` that names no RIST profile.
    UnknownProfile(String),
    /// A `--port` that is no `u16`.
    InvalidPort,
    /// A `--compare` that names no compare mode.
    UnknownCompareMode(String),
}

/// The errors of [`ArgError`] by their views.
pub enum ArgFailure {
    MissingValue(Seq<char>),
    InvalidPbkeylen,
    UnknownArgument(Seq<char>),
    Required(Seq<char>),
    StreamOutputFormat,
    StreamOutputEmptyId,
    StreamOutputEmptyPath,
    TimedActionFormat,
    TimedActionEmptyId,
    UnknownProfile(Seq<char>),
    InvalidPort,
    UnknownCompareMode(Seq<char>),
}

impl View for ArgError {
    type V = ArgFailure;

    open spec fn view(&self) -> ArgFailure {
        match self {
            ArgError::MissingValue(f) => ArgFailure::MissingValue(f@),
            ArgError::InvalidPbkeylen => ArgFailure::InvalidPbkeylen,
            ArgError::UnknownArgument(a) => ArgFailure::UnknownArgument(a@),
            ArgError::Required(f) => ArgFailure::Required(f@),
            ArgError::StreamOutputFormat => ArgFailure::StreamOutputFormat,
            ArgError::StreamOutputEmptyId => ArgFailure::StreamOutputEmptyId,
            ArgError::StreamOutputEmptyPath => ArgFailure::StreamOutputEmptyPath,
            ArgError::TimedActionFormat => ArgFailure::TimedActionFormat,
            ArgError::TimedActionEmptyId => ArgFailure::TimedActionEmptyId,
            ArgError::UnknownProfile(p) => ArgFailure::UnknownProfile(p@),
            ArgError::InvalidPort => ArgFailure::InvalidPort,
            ArgError::UnknownCompareMode(m) => ArgFailure::UnknownCompareMode(m@),
        }
    }
}

/// The message of an argument error.
pub open spec fn arg_error_message(f: ArgFailure) -> Seq<char> {
    match f {
        ArgFailure::MissingValue(flag) => flag + " requires a value"@,
        ArgFailure::InvalidPbkeylen => "--pbkeylen must be 0, 16, 24, or 32"@,
        ArgFailure::UnknownArgument(a) => "unknown argument: "@ + a,
        ArgFailure::Required(flag) => flag + " is required"@,
        ArgFailure::StreamOutputFormat => "--stream-output must be STREAM_ID=PATH"@,
        ArgFailure::StreamOutputEmptyId => "--stream-output stream ID must not be empty"@,
        ArgFailure::StreamOutputEmptyPath => "--stream-output path must not be empty"@,
        ArgFailure::TimedActionFormat => "timed action must be STREAM_ID:SECONDS"@,
        ArgFailure::TimedActionEmptyId => "timed action stream ID must not be empty"@,
        ArgFailure::UnknownProfile(p) => "unknown RIST profile: "@ + p,
        ArgFailure::InvalidPort => "--port must be a u16"@,
        ArgFailure::UnknownCompareMode(m) => "unknown compare mode: "@ + m,
    }
}

fn joined(a: &str, b: &str) -> (out: String)
    ensures
        out@ == a@ + b@,
{
    let mut text = chars_of(a);
    let mut rest = chars_of(b);
    text.append(&mut rest);
    crate::text::string_of(&text)
}

impl ArgError {
    /// The error's message.
    pub fn message(&self) -> (m: String)
        ensures
            m@ == arg_error_message(self@),
    {
        match self {
            ArgError::MissingValue(flag) => joined(flag, " requires a value"),
            ArgError::InvalidPbkeylen => string_from_str("--pbkeylen must be 0, 16, 24, or 32"),
            ArgError::UnknownArgument(a) => joined("unknown argument: ", a.as_str()),
            ArgError::Required(flag) => joined(flag, " is required"),
            ArgError::StreamOutputFormat => string_from_str(
                "--stream-output must be STREAM_ID=PATH",
            ),
            ArgError::StreamOutputEmptyId => string_from_str(
                "--stream-output stream ID must not be empty",
            ),
            ArgError::StreamOutputEmptyPath => string_from_str(
                "--stream-output path must not be empty",
            ),
            ArgError::TimedActionFormat => string_from_str("timed action must be STREAM_ID:SECONDS"),
            ArgError::TimedActionEmptyId => string_from_str(
                "timed action stream ID must not be empty",
            ),
            ArgError::UnknownProfile(p) => joined("unknown RIST profile: ", p.as_str()),
            ArgError::InvalidPort => string_from_str("--port must be a u16"),
            ArgError::UnknownCompareMode(m) => joined("unknown compare mode: ", m.as_str()),
        }
    }
}

/// How the arguments end: a configuration to run with, a request for help, or an error.
#[derive(Debug, Clone)]
pub enum ArgsEnd<T> {
    Run(T),
    Help,
    Failed(ArgError),
}

/// The outcome of reading the arguments: the values in seconds met before the end, in order,
/// and the end.
#[derive(Debug, Clone)]
pub struct ParsedArgs<T> {
    pub seconds: Vec<SecondsRequest>,
    pub end: ArgsEnd<T>,
}

/// Whether `pbkeylen` is a key length SRT supports: 0, 16, 24 or 32 bytes.
pub open spec fn supported_pbkeylen(pbkeylen: u32) -> bool {
    pbkeylen == 0 || pbkeylen == 16 || pbkeylen == 24 || pbkeylen == 32
}

/// Checks that `pbkeylen` is 0, 16, 24 or 32.
pub fn ensure_pbkeylen(pbkeylen: u32) -> (r: Result<(), ArgError>)
    ensures
        r is Ok <==> supported_pbkeylen(pbkeylen),
        r matches Err(e) ==> e@ == ArgFailure::InvalidPbkeylen,
{
    if pbkeylen == 0 || pbkeylen == 16 || pbkeylen == 24 || pbkeylen == 32 {
        Ok(())
    } else {
        Err(ArgError::InvalidPbkeylen)
    }
}

/// The non-blank parts of a comma-separated list, trimmed, repeats kept.
pub open spec fn listed_stream_ids(parts: Seq<Seq<char>>) -> Seq<Seq<char>>
    decreases parts.len(),
{
    if parts.len() == 0 {
        Seq::empty()
    } else {
        let acc = listed_stream_ids(parts.drop_last());
        if is_blank(parts.last()) {
            acc
        } else {
            acc.push(trim(parts.last()))
        }
    }
}

/// The trimmed, non-blank stream IDs of the comma-separated `value`.
pub fn parse_stream_ids(value: &str) -> (ids: Vec<String>)
    ensures
        views(ids@) == listed_stream_ids(split_on(value@, ',')),
{
    let chars = chars_of(value);
    let parts = split_chars(&chars, ',');
    let ghost pv = views(parts@);
    let mut ids: Vec<String> = Vec::new();
    let mut i: usize = 0;
    while i < parts.len()
        invariant
            i <= parts.len(),
            pv == views(parts@),
            views(ids@) == listed_stream_ids(pv.take(i as int)),
        decreases parts.len() - i,
    {
        let t = trim_str(parts[i].as_str());
        proof {
            assert(pv.take(i + 1).drop_last() =~= pv.take(i as int));
            assert(pv.take(i + 1).last() == parts@[i as int]@);
        }
        if t.as_str().unicode_len() > 0 {
            let ghost before = views(ids@);
            ids.push(t);
            assert(views(ids@) =~= before.push(trim(pv[i as int])));
        }
        i = i + 1;
    }
    assert(pv.take(parts.len() as int) =~= pv);
    ids
}

/// The non-empty elements of `ids`, each kept at its first occurrence only.
pub open spec fn deduped(ids: Seq<Seq<char>>) -> Seq<Seq<char>>
    decreases ids.len(),
{
    if ids.len() == 0 {
        Seq::empty()
    } else {
        let acc = deduped(ids.drop_last());
        if ids.last().len() > 0 && !acc.contains(ids.last()) {
            acc.push(ids.last())
        } else {
            acc
        }
    }
}

/// `stream_ids` without empty IDs and without repeats, first occurrences kept in order.
pub fn dedupe_stream_ids(stream_ids: Vec<String>) -> (out: Vec<String>)
    ensures
        views(out@) == deduped(views(stream_ids@)),
{
    let ghost v = views(stream_ids@);
    let mut out: Vec<String> = Vec::new();
    let mut i: usize = 0;
    while i < stream_ids.len()
        invariant
            i <= stream_ids.len(),
            v == views(stream_ids@),
            views(out@) == deduped(v.take(i as int)),
        decreases stream_ids.len() - i,
    {
        let id = stream_ids[i].clone();
        let c = chars_of(id.as_str());
        proof {
            assert(v.take(i + 1).drop_last() =~= v.take(i as int));
            assert(v.take(i + 1).last() == id@);
        }
        if c.len() > 0 && !contains_view(&out, &c) {
            let ghost before = views(out@);
            out.push(id);
            assert(views(out@) =~= before.push(c@));
        }
        i = i + 1;
    }
    assert(v.take(stream_ids.len() as int) =~= v);
    out
}

fn contains_view(items: &Vec<String>, s: &Vec<char>) -> (b: bool)
    ensures
        b == views(items@).contains(s@),
{
    let mut i: usize = 0;
    while i < items.len()
        invariant
            i <= items.len(),
            forall|k: int| 0 <= k < i ==> views(items@)[k] != s@,
        decreases items.len() - i,
    {
        let c = chars_of(items[i].as_str());
        assert(views(items@)[i as int] == c@);
        if crate::text::chars_equal(&c, s) {
            return true;
        }
        i = i + 1;
    }
    false
}

/// What `--stream-output ID=PATH` reads as: the trimmed ID and the path as given.
pub open spec fn stream_output_of(value: Seq<char>) -> Result<(Seq<char>, Seq<char>), ArgFailure> {
    match split_once(value, '=') {
        None => Err(ArgFailure::StreamOutputFormat),
        Some((id, path)) => if is_blank(id) {
            Err(ArgFailure::StreamOutputEmptyId)
        } else if path.len() == 0 {
            Err(ArgFailure::StreamOutputEmptyPath)
        } else {
            Ok((trim(id), path))
        },
    }
}

/// `s` cut at its first `c`.
fn split_once_str(s: &str, c: char) -> (r: Option<(String, String)>)
    ensures
        match split_once(s@, c) {
            Some((a, b)) => r matches Some((x, y)) && x@ == a && y@ == b,
            None => r is None,
        },
{
    let chars = chars_of(s);
    match crate::text::find_char_from(&chars, c, 0) {
        Some(i) => {
            proof {
                crate::text::lemma_find_char(chars@, c);
                assert(chars@.skip(0) =~= chars@);
            }
            let a = string_of_range(&chars, 0, i);
            let b = string_of_range(&chars, i + 1, chars.len());
            assert(a@ =~= s@.take(i as int));
            assert(b@ =~= s@.skip(i + 1));
            Some((a, b))
        },
        None => {
            assert(chars@.skip(0) =~= chars@);
            None
        },
    }
}

/// Reads `ID=PATH`: the trimmed stream ID and the path as given.
pub fn parse_stream_output(value: &str) -> (r: Result<StreamOutput, ArgError>)
    ensures
        match stream_output_of(value@) {
            Ok((id, path)) => r matches Ok(o) && o.stream_id@ == id && o.output@ == path,
            Err(f) => r matches Err(e) && e@ == f,
        },
{
    match split_once_str(value, '=') {
        None => Err(ArgError::StreamOutputFormat),
        Some((id, path)) => {
            let t = trim_str(id.as_str());
            if t.as_str().unicode_len() == 0 {
                return Err(ArgError::StreamOutputEmptyId);
            }
            if path.as_str().unicode_len() == 0 {
                return Err(ArgError::StreamOutputEmptyPath);
            }
            Ok(StreamOutput { stream_id: t, output: path })
        },
    }
}

/// What `STREAM_ID:SECONDS` reads as: the trimmed ID and the seconds text.
pub open spec fn timed_action_of(value: Seq<char>) -> Result<(Seq<char>, Seq<char>), ArgFailure> {
    match split_once(value, ':') {
        None => Err(ArgFailure::TimedActionFormat),
        Some((id, seconds)) => if is_blank(id) {
            Err(ArgFailure::TimedActionEmptyId)
        } else {
            Ok((trim(id), seconds))
        },
    }
}

/// Reads `STREAM_ID:SECONDS`: the trimmed stream ID and the text of the delay.
pub fn parse_timed_action(value: &str) -> (r: Result<(String, String), ArgError>)
    ensures
        match timed_action_of(value@) {
            Ok((id, seconds)) => r matches Ok((i, s)) && i@ == id && s@ == seconds,
            Err(f) => r matches Err(e) && e@ == f,
        },
{
    match split_once_str(value, ':') {
        None => Err(ArgError::TimedActionFormat),
        Some((id, seconds)) => {
            let t = trim_str(id.as_str());
            if t.as_str().unicode_len() == 0 {
                return Err(ArgError::TimedActionEmptyId);
            }
            Ok((t, seconds))
        },
    }
}


/// The views of seconds requests.
pub open spec fn seconds_view(s: Seq<SecondsRequest>) -> Seq<(SecondsUse, Seq<char>)> {
    s.map_values(|r: SecondsRequest| (r.used_for, r.text@))
}

/// The configuration of the SRT multi-stream receiver.
#[derive(Debug, Clone)]
pub struct MultiStreamConfig {
    pub url: String,
    pub stream_ids: Vec<String>,
    pub output: Option<String>,
    pub stream_outputs: Vec<StreamOutput>,
    /// The index of the seconds request of `--duration`; `None` for the default of five
    /// seconds.
    pub duration: Option<usize>,
    pub passphrase: String,
    pub pbkeylen: u32,
    pub actions: Vec<TimedAction>,
}

/// The arguments of the multi-stream receiver read so far, by their views.
pub struct MultiStreamView {
    pub url: Option<Seq<char>>,
    pub stream_ids: Seq<Seq<char>>,
    pub output: Option<Seq<char>>,
    pub stream_outputs: Seq<(Seq<char>, Seq<char>)>,
    pub duration: Option<nat>,
    pub passphrase: Seq<char>,
    pub pbkeylen: u32,
    pub actions: Seq<(nat, ActionKind, Seq<char>)>,
    pub seconds: Seq<(SecondsUse, Seq<char>)>,
}

/// How reading the multi-stream receiver's arguments ends, by views.
pub enum MultiStreamEnd {
    Run(MultiStreamView),
    Help,
    Failed(ArgFailure),
}

/// Nothing read yet: the defaults.
pub open spec fn multi_stream_initial() -> MultiStreamView {
    MultiStreamView {
        url: None,
        stream_ids: Seq::empty(),
        output: None,
        stream_outputs: Seq::empty(),
        duration: None,
        passphrase: Seq::empty(),
        pbkeylen: 32,
        actions: Seq::empty(),
        seconds: Seq::empty(),
    }
}

/// The end once every argument is read.
pub open spec fn multi_stream_finish(st: MultiStreamView) -> MultiStreamEnd {
    if !supported_pbkeylen(st.pbkeylen) {
        MultiStreamEnd::Failed(ArgFailure::InvalidPbkeylen)
    } else if st.url is None {
        MultiStreamEnd::Failed(ArgFailure::Required("--url"@))
    } else {
        MultiStreamEnd::Run(MultiStreamView { stream_ids: deduped(st.stream_ids), ..st })
    }
}

/// Reads the multi-stream receiver's arguments from position `i` on, in state `st`.
pub open spec fn multi_stream_from(args: Seq<Seq<char>>, i: int, st: MultiStreamView) -> (Seq<
    (SecondsUse, Seq<char>),
>, MultiStreamEnd)
    decreases args.len() - i,
{
    if i < 0 || i >= args.len() {
        (st.seconds, multi_stream_finish(st))
    } else {
        let a = args[i];
        let has_value = i + 1 < args.len();
        let v = args[i + 1];
        if a == "--url"@ {
            if has_value {
                multi_stream_from(args, i + 2, MultiStreamView { url: Some(v), ..st })
            } else {
                (st.seconds, MultiStreamEnd::Failed(ArgFailure::MissingValue(a)))
            }
        } else if a == "--stream-id"@ {
            if has_value {
                multi_stream_from(
                    args,
                    i + 2,
                    MultiStreamView { stream_ids: st.stream_ids.push(v), ..st },
                )
            } else {
                (st.seconds, MultiStreamEnd::Failed(ArgFailure::MissingValue(a)))
            }
        } else if a == "--stream-ids"@ {
            if has_value {
                multi_stream_from(
                    args,
                    i + 2,
                    MultiStreamView {
                        stream_ids: st.stream_ids + listed_stream_ids(split_on(v, ',')),
                        ..st
                    },
                )
            } else {
                (st.seconds, MultiStreamEnd::Failed(ArgFailure::MissingValue(a)))
            }
        } else if a == "--output"@ {
            if has_value {
                multi_stream_from(args, i + 2, MultiStreamView { output: Some(v), ..st })
            } else {
                (st.seconds, MultiStreamEnd::Failed(ArgFailure::MissingValue(a)))
            }
        } else if a == "--stream-output"@ {
            if has_value {
                match stream_output_of(v) {
                    Ok(o) => multi_stream_from(
                        args,
                        i + 2,
                        MultiStreamView { stream_outputs: st.stream_outputs.push(o), ..st },
                    ),
                    Err(f) => (st.seconds, MultiStreamEnd::Failed(f)),
                }
            } else {
                (st.seconds, MultiStreamEnd::Failed(ArgFailure::MissingValue(a)))
            }
        } else if a == "--passphrase"@ {
            if has_value {
                multi_stream_from(args, i + 2, MultiStreamView { passphrase: v, ..st })
            } else {
                (st.seconds, MultiStreamEnd::Failed(ArgFailure::MissingValue(a)))
            }
        } else if a == "--pbkeylen"@ {
            if has_value {
                match parse_unsigned(v, u32::MAX as nat) {
                    Some(n) => if supported_pbkeylen(n as u32) {
                        multi_stream_from(args, i + 2, MultiStreamView { pbkeylen: n as u32, ..st })
                    } else {
                        (st.seconds, MultiStreamEnd::Failed(ArgFailure::InvalidPbkeylen))
                    },
                    None => (st.seconds, MultiStreamEnd::Failed(ArgFailure::InvalidPbkeylen)),
                }
            } else {
                (st.seconds, MultiStreamEnd::Failed(ArgFailure::MissingValue(a)))
            }
        } else if a == "--duration"@ {
            if has_value {
                multi_stream_from(
                    args,
                    i + 2,
                    MultiStreamView {
                        duration: Some(st.seconds.len()),
                        seconds: st.seconds.push((SecondsUse::Duration, v)),
                        ..st
                    },
                )
            } else {
                (st.seconds, MultiStreamEnd::Failed(ArgFailure::MissingValue(a)))
            }
        } else if a == "--add-stream-id-after"@ || a == "--remove-stream-id-after"@ {
            let kind = if a == "--add-stream-id-after"@ {
                ActionKind::Add
            } else {
                ActionKind::Remove
            };
            if has_value {
                match timed_action_of(v) {
                    Ok((id, secs)) => multi_stream_from(
                        args,
                        i + 2,
                        MultiStreamView {
                            actions: st.actions.push((st.seconds.len(), kind, id)),
                            seconds: st.seconds.push((SecondsUse::Delay, secs)),
                            ..st
                        },
                    ),
                    Err(f) => (st.seconds, MultiStreamEnd::Failed(f)),
                }
            } else {
                (st.seconds, MultiStreamEnd::Failed(ArgFailure::MissingValue(a)))
            }
        } else if a == "--help"@ || a == "-h"@ {
            (st.seconds, MultiStreamEnd::Help)
        } else {
            (st.seconds, MultiStreamEnd::Failed(ArgFailure::UnknownArgument(a)))
        }
    }
}

/// The multi-stream receiver's arguments read so far.
struct MultiStreamState {
    url: Option<String>,
    stream_ids: Vec<String>,
    output: Option<String>,
    stream_outputs: Vec<StreamOutput>,
    duration: Option<usize>,
    passphrase: String,
    pbkeylen: u32,
    actions: Vec<TimedAction>,
    seconds: Vec<SecondsRequest>,
}

/// The view of an optional string.
pub open spec fn opt_view(s: Option<String>) -> Option<Seq<char>> {
    match s {
        Some(x) => Some(x@),
        None => None,
    }
}

/// The views of stream outputs.
pub open spec fn outputs_view(s: Seq<StreamOutput>) -> Seq<(Seq<char>, Seq<char>)> {
    s.map_values(|o: StreamOutput| (o.stream_id@, o.output@))
}

/// The views of timed actions.
pub open spec fn actions_view(s: Seq<TimedAction>) -> Seq<(nat, ActionKind, Seq<char>)> {
    s.map_values(|t: TimedAction| (t.after as nat, t.kind, t.stream_id@))
}

impl MultiStreamState {
    spec fn view(&self) -> MultiStreamView {
        MultiStreamView {
            url: opt_view(self.url),
            stream_ids: views(self.stream_ids@),
            output: opt_view(self.output),
            stream_outputs: outputs_view(self.stream_outputs@),
            duration: match self.duration {
                Some(d) => Some(d as nat),
                None => None,
            },
            passphrase: self.passphrase@,
            pbkeylen: self.pbkeylen,
            actions: actions_view(self.actions@),
            seconds: seconds_view(self.seconds@),
        }
    }
}

/// The view of the configuration of the multi-stream receiver.
pub open spec fn multi_stream_config_view(c: MultiStreamConfig, seconds: Seq<SecondsRequest>) -> MultiStreamView {
    MultiStreamView {
        url: Some(c.url@),
        stream_ids: views(c.stream_ids@),
        output: opt_view(c.output),
        stream_outputs: outputs_view(c.stream_outputs@),
        duration: match c.duration {
            Some(d) => Some(d as nat),
            None => None,
        },
        passphrase: c.passphrase@,
        pbkeylen: c.pbkeylen,
        actions: actions_view(c.actions@),
        seconds: seconds_view(seconds),
    }
}

/// The view of the outcome of reading the multi-stream receiver's arguments.
pub open spec fn multi_stream_outcome(p: ParsedArgs<MultiStreamConfig>) -> (Seq<
    (SecondsUse, Seq<char>),
>, MultiStreamEnd) {
    (
        seconds_view(p.seconds@),
        match p.end {
            ArgsEnd::Run(c) => MultiStreamEnd::Run(multi_stream_config_view(c, p.seconds@)),
            ArgsEnd::Help => MultiStreamEnd::Help,
            ArgsEnd::Failed(e) => MultiStreamEnd::Failed(e@),
        },
    )
}

/// The value after the flag at `i`, if there is one.
fn value_after(args: &Vec<String>, i: usize) -> (v: Option<String>)
    requires
        i < args.len(),
    ensures
        i + 1 < args.len() ==> (v matches Some(x) && x@ == args@[i + 1]@),
        i + 1 >= args.len() ==> v is None,
{
    if i + 1 < args.len() {
        Some(args[i + 1].clone())
    } else {
        None
    }
}

/// Reads the arguments of the SRT multi-stream receiver (the program's arguments without its
/// name).
pub fn parse_multi_stream_args(args: &Vec<String>) -> (r: ParsedArgs<MultiStreamConfig>)
    ensures
        multi_stream_outcome(r) == multi_stream_from(views(args@), 0, multi_stream_initial()),
{
    let ghost av = views(args@);
    let mut st = MultiStreamState {
        url: None,
        stream_ids: Vec::new(),
        output: None,
        stream_outputs: Vec::new(),
        duration: None,
        passphrase: String::new(),
        pbkeylen: 32,
        actions: Vec::new(),
        seconds: Vec::new(),
    };
    assert(st.view() =~= multi_stream_initial()) by {
        assert(views(st.stream_ids@) =~= Seq::<Seq<char>>::empty());
        assert(outputs_view(st.stream_outputs@) =~= Seq::<(Seq<char>, Seq<char>)>::empty());
        assert(actions_view(st.actions@) =~= Seq::<(nat, ActionKind, Seq<char>)>::empty());
        assert(seconds_view(st.seconds@) =~= Seq::<(SecondsUse, Seq<char>)>::empty());
    }
    let mut i: usize = 0;
    while i < args.len()
        invariant
            i <= args.len(),
            av == views(args@),
            multi_stream_from(av, i as int, st.view()) == multi_stream_from(
                av,
                0,
                multi_stream_initial(),
            ),
        decreases args.len() - i,
    {
        let a = args[i].as_str();
        let ghost sv = st.view();
        assert(av[i as int] == a@);
        let value = value_after(args, i);
        if str_equals(a, "--url") {
            match value {
                Some(v) => {
                    st.url = Some(v);
                },
                None => {
                    return ParsedArgs { seconds: st.seconds, end: ArgsEnd::Failed(ArgError::MissingValue("--url")) };
                },
            }
        } else if str_equals(a, "--stream-id") {
            match value {
                Some(v) => {
                    st.stream_ids.push(v);
                    assert(views(st.stream_ids@) =~= sv.stream_ids.push(av[i + 1]));
                },
                None => {
                    return ParsedArgs { seconds: st.seconds, end: ArgsEnd::Failed(ArgError::MissingValue("--stream-id")) };
                },
            }
        } else if str_equals(a, "--stream-ids") {
            match value {
                Some(v) => {
                    let mut more = parse_stream_ids(v.as_str());
                    st.stream_ids.append(&mut more);
                    assert(views(st.stream_ids@) =~= sv.stream_ids + listed_stream_ids(split_on(av[i + 1], ',')));
                },
                None => {
                    return ParsedArgs { seconds: st.seconds, end: ArgsEnd::Failed(ArgError::MissingValue("--stream-ids")) };
                },
            }
        } else if str_equals(a, "--output") {
            match value {
                Some(v) => {
                    st.output = Some(v);
                },
                None => {
                    return ParsedArgs { seconds: st.seconds, end: ArgsEnd::Failed(ArgError::MissingValue("--output")) };
                },
            }
        } else if str_equals(a, "--stream-output") {
            match value {
                Some(v) => {
                    match parse_stream_output(v.as_str()) {
                        Ok(o) => {
                            st.stream_outputs.push(o);
                            assert(outputs_view(st.stream_outputs@) =~= sv.stream_outputs.push(stream_output_of(av[i + 1])->Ok_0));
                        },
                        Err(e) => {
                            return ParsedArgs { seconds: st.seconds, end: ArgsEnd::Failed(e) };
                        },
                    }
                },
                None => {
                    return ParsedArgs { seconds: st.seconds, end: ArgsEnd::Failed(ArgError::MissingValue("--stream-output")) };
                },
            }
        } else if str_equals(a, "--passphrase") {
            match value {
                Some(v) => {
                    st.passphrase = v;
                },
                None => {
                    return ParsedArgs { seconds: st.seconds, end: ArgsEnd::Failed(ArgError::MissingValue("--passphrase")) };
                },
            }
        } else if str_equals(a, "--pbkeylen") {
            match value {
                Some(v) => {
                    match parse_unsigned_str(v.as_str(), 0xffff_ffff) {
                        Some(n) => {
                            let n32 = n as u32;
                            if ensure_pbkeylen(n32).is_err() {
                                return ParsedArgs { seconds: st.seconds, end: ArgsEnd::Failed(ArgError::InvalidPbkeylen) };
                            }
                            st.pbkeylen = n32;
                        },
                        None => {
                            return ParsedArgs { seconds: st.seconds, end: ArgsEnd::Failed(ArgError::InvalidPbkeylen) };
                        },
                    }
                },
                None => {
                    return ParsedArgs { seconds: st.seconds, end: ArgsEnd::Failed(ArgError::MissingValue("--pbkeylen")) };
                },
            }
        } else if str_equals(a, "--duration") {
            match value {
                Some(v) => {
                    st.duration = Some(st.seconds.len());
                    st.seconds.push(SecondsRequest { used_for: SecondsUse::Duration, text: v });
                    assert(seconds_view(st.seconds@) =~= sv.seconds.push((SecondsUse::Duration, av[i + 1])));
                },
                None => {
                    return ParsedArgs { seconds: st.seconds, end: ArgsEnd::Failed(ArgError::MissingValue("--duration")) };
                },
            }
        } else if str_equals(a, "--add-stream-id-after") || str_equals(a, "--remove-stream-id-after") {
            let add = str_equals(a, "--add-stream-id-after");
            let kind = if add {
                ActionKind::Add
            } else {
                ActionKind::Remove
            };
            match value {
                Some(v) => {
                    match parse_timed_action(v.as_str()) {
                        Ok((id, secs)) => {
                            let after = st.seconds.len();
                            st.actions.push(TimedAction { after, kind, stream_id: id });
                            st.seconds.push(SecondsRequest { used_for: SecondsUse::Delay, text: secs });
                            proof {
                                let (pid, psecs) = timed_action_of(av[i + 1])->Ok_0;
                                assert(actions_view(st.actions@) =~= sv.actions.push((sv.seconds.len(), kind, pid)));
                                assert(seconds_view(st.seconds@) =~= sv.seconds.push((SecondsUse::Delay, psecs)));
                            }
                        },
                        Err(e) => {
                            return ParsedArgs { seconds: st.seconds, end: ArgsEnd::Failed(e) };
                        },
                    }
                },
                None => {
                    let flag: &'static str = if add {
                        "--add-stream-id-after"
                    } else {
                        "--remove-stream-id-after"
                    };
                    return ParsedArgs { seconds: st.seconds, end: ArgsEnd::Failed(ArgError::MissingValue(flag)) };
                },
            }
        } else if str_equals(a, "--help") || str_equals(a, "-h") {
            return ParsedArgs { seconds: st.seconds, end: ArgsEnd::Help };
        } else {
            return ParsedArgs {
                seconds: st.seconds,
                end: ArgsEnd::Failed(ArgError::UnknownArgument(string_from_str(a))),
            };
        }
        i = i + 2;
    }
    if ensure_pbkeylen(st.pbkeylen).is_err() {
        return ParsedArgs { seconds: st.seconds, end: ArgsEnd::Failed(ArgError::InvalidPbkeylen) };
    }
    match st.url {
        None => ParsedArgs { seconds: st.seconds, end: ArgsEnd::Failed(ArgError::Required("--url")) },
        Some(url) => {
            let stream_ids = dedupe_stream_ids(st.stream_ids);
            let config = MultiStreamConfig {
                url,
                stream_ids,
                output: st.output,
                stream_outputs: st.stream_outputs,
                duration: st.duration,
                passphrase: st.passphrase,
                pbkeylen: st.pbkeylen,
                actions: st.actions,
            };
            ParsedArgs { seconds: st.seconds, end: ArgsEnd::Run(config) }
        },
    }
}


/// The configuration of the SRT single-stream receiver.
#[derive(Debug, Clone)]
pub struct SingleStreamConfig {
    pub url: String,
    pub stream_id: String,
    pub output: String,
    /// The index of the seconds request of `--duration`; `None` for the default of five
    /// seconds.
    pub duration: Option<usize>,
    pub passphrase: String,
    pub pbkeylen: u32,
}

/// The arguments of a single-stream receiver read so far, by their views; the RIST receiver
/// uses `url`, `output`, `duration` and `profile`, the SRT receiver the others.
pub struct SingleView {
    pub url: Option<Seq<char>>,
    pub stream_id: Option<Seq<char>>,
    pub output: Option<Seq<char>>,
    pub duration: Option<nat>,
    pub passphrase: Seq<char>,
    pub pbkeylen: u32,
    pub profile: Profile,
    pub seconds: Seq<(SecondsUse, Seq<char>)>,
}

/// How reading a single-stream receiver's arguments ends, by views.
pub enum SingleEnd {
    Run(SingleView),
    Help,
    Failed(ArgFailure),
}

/// Nothing read yet: the defaults.
pub open spec fn single_initial() -> SingleView {
    SingleView {
        url: None,
        stream_id: None,
        output: None,
        duration: None,
        passphrase: Seq::empty(),
        pbkeylen: 32,
        profile: Profile::Simple,
        seconds: Seq::empty(),
    }
}

/// The end once every argument of the SRT receiver is read.
pub open spec fn srt_single_finish(st: SingleView) -> SingleEnd {
    if !supported_pbkeylen(st.pbkeylen) {
        SingleEnd::Failed(ArgFailure::InvalidPbkeylen)
    } else if st.url is None {
        SingleEnd::Failed(ArgFailure::Required("--url"@))
    } else if st.stream_id is None {
        SingleEnd::Failed(ArgFailure::Required("--stream-id"@))
    } else if st.output is None {
        SingleEnd::Failed(ArgFailure::Required("--output"@))
    } else {
        SingleEnd::Run(st)
    }
}

/// Reads the SRT single-stream receiver's arguments from position `i` on, in state `st`.
pub open spec fn srt_single_from(args: Seq<Seq<char>>, i: int, st: SingleView) -> (Seq<
    (SecondsUse, Seq<char>),
>, SingleEnd)
    decreases args.len() - i,
{
    if i < 0 || i >= args.len() {
        (st.seconds, srt_single_finish(st))
    } else {
        let a = args[i];
        let has_value = i + 1 < args.len();
        let v = args[i + 1];
        if a == "--url"@ || a == "--stream-id"@ || a == "--output"@ || a == "--passphrase"@ || a
            == "--pbkeylen"@ || a == "--duration"@ {
            if !has_value {
                (st.seconds, SingleEnd::Failed(ArgFailure::MissingValue(a)))
            } else if a == "--url"@ {
                srt_single_from(args, i + 2, SingleView { url: Some(v), ..st })
            } else if a == "--stream-id"@ {
                srt_single_from(args, i + 2, SingleView { stream_id: Some(v), ..st })
            } else if a == "--output"@ {
                srt_single_from(args, i + 2, SingleView { output: Some(v), ..st })
            } else if a == "--passphrase"@ {
                srt_single_from(args, i + 2, SingleView { passphrase: v, ..st })
            } else if a == "--pbkeylen"@ {
                match parse_unsigned(v, u32::MAX as nat) {
                    Some(n) => if supported_pbkeylen(n as u32) {
                        srt_single_from(args, i + 2, SingleView { pbkeylen: n as u32, ..st })
                    } else {
                        (st.seconds, SingleEnd::Failed(ArgFailure::InvalidPbkeylen))
                    },
                    None => (st.seconds, SingleEnd::Failed(ArgFailure::InvalidPbkeylen)),
                }
            } else {
                srt_single_from(
                    args,
                    i + 2,
                    SingleView {
                        duration: Some(st.seconds.len()),
                        seconds: st.seconds.push((SecondsUse::Duration, v)),
                        ..st
                    },
                )
            }
        } else if a == "--help"@ || a == "-h"@ {
            (st.seconds, SingleEnd::Help)
        } else {
            (st.seconds, SingleEnd::Failed(ArgFailure::UnknownArgument(a)))
        }
    }
}

/// The single-stream receivers' arguments read so far.
struct SingleState {
    url: Option<String>,
    stream_id: Option<String>,
    output: Option<String>,
    duration: Option<usize>,
    passphrase: String,
    pbkeylen: u32,
    profile: Profile,
    seconds: Vec<SecondsRequest>,
}

impl SingleState {
    spec fn view(&self) -> SingleView {
        SingleView {
            url: opt_view(self.url),
            stream_id: opt_view(self.stream_id),
            output: opt_view(self.output),
            duration: match self.duration {
                Some(d) => Some(d as nat),
                None => None,
            },
            passphrase: self.passphrase@,
            pbkeylen: self.pbkeylen,
            profile: self.profile,
            seconds: seconds_view(self.seconds@),
        }
    }

    fn new() -> (st: Self)
        ensures
            st.view() == single_initial(),
    {
        let st = SingleState {
            url: None,
            stream_id: None,
            output: None,
            duration: None,
            passphrase: String::new(),
            pbkeylen: 32,
            profile: Profile::Simple,
            seconds: Vec::new(),
        };
        assert(seconds_view(st.seconds@) =~= Seq::<(SecondsUse, Seq<char>)>::empty());
        assert(st.view() =~= single_initial());
        st
    }

    fn record_duration(&mut self, text: String)
        ensures
            final(self).view() == (SingleView {
                duration: Some(old(self).view().seconds.len()),
                seconds: old(self).view().seconds.push((SecondsUse::Duration, text@)),
                ..old(self).view()
            }),
    {
        self.duration = Some(self.seconds.len());
        let ghost before = seconds_view(self.seconds@);
        self.seconds.push(SecondsRequest { used_for: SecondsUse::Duration, text });
        assert(seconds_view(self.seconds@) =~= before.push((SecondsUse::Duration, text@)));
    }
}

/// The view of the outcome of reading the SRT single-stream receiver's arguments.
pub open spec fn srt_single_outcome(p: ParsedArgs<SingleStreamConfig>) -> (Seq<
    (SecondsUse, Seq<char>),
>, SingleEnd) {
    (
        seconds_view(p.seconds@),
        match p.end {
            ArgsEnd::Run(c) => SingleEnd::Run(
                SingleView {
                    url: Some(c.url@),
                    stream_id: Some(c.stream_id@),
                    output: Some(c.output@),
                    duration: match c.duration {
                        Some(d) => Some(d as nat),
                        None => None,
                    },
                    passphrase: c.passphrase@,
                    pbkeylen: c.pbkeylen,
                    profile: Profile::Simple,
                    seconds: seconds_view(p.seconds@),
                },
            ),
            ArgsEnd::Help => SingleEnd::Help,
            ArgsEnd::Failed(e) => SingleEnd::Failed(e@),
        },
    )
}

/// Reads the arguments of the SRT single-stream receiver (the program's arguments without its
/// name).
pub fn parse_srt_receive_args(args: &Vec<String>) -> (r: ParsedArgs<SingleStreamConfig>)
    ensures
        srt_single_outcome(r) == srt_single_from(views(args@), 0, single_initial()),
{
    let ghost av = views(args@);
    let mut st = SingleState::new();
    let mut i: usize = 0;
    while i < args.len()
        invariant
            i <= args.len(),
            av == views(args@),
            st.view().profile == Profile::Simple,
            srt_single_from(av, i as int, st.view()) == srt_single_from(av, 0, single_initial()),
        decreases args.len() - i,
    {
        let a = args[i].as_str();
        assert(av[i as int] == a@);
        let value = value_after(args, i);
        let flag: Option<&'static str> = if str_equals(a, "--url") {
            Some("--url")
        } else if str_equals(a, "--stream-id") {
            Some("--stream-id")
        } else if str_equals(a, "--output") {
            Some("--output")
        } else if str_equals(a, "--passphrase") {
            Some("--passphrase")
        } else if str_equals(a, "--pbkeylen") {
            Some("--pbkeylen")
        } else if str_equals(a, "--duration") {
            Some("--duration")
        } else {
            None
        };
        match flag {
            None => {
                if str_equals(a, "--help") || str_equals(a, "-h") {
                    return ParsedArgs { seconds: st.seconds, end: ArgsEnd::Help };
                }
                return ParsedArgs {
                    seconds: st.seconds,
                    end: ArgsEnd::Failed(ArgError::UnknownArgument(string_from_str(a))),
                };
            },
            Some(f) => {
                assert(f@ == a@);
                match value {
                    None => {
                        return ParsedArgs { seconds: st.seconds, end: ArgsEnd::Failed(ArgError::MissingValue(f)) };
                    },
                    Some(v) => {
                        if str_equals(a, "--url") {
                            st.url = Some(v);
                        } else if str_equals(a, "--stream-id") {
                            st.stream_id = Some(v);
                        } else if str_equals(a, "--output") {
                            st.output = Some(v);
                        } else if str_equals(a, "--passphrase") {
                            st.passphrase = v;
                        } else if str_equals(a, "--pbkeylen") {
                            match parse_unsigned_str(v.as_str(), 0xffff_ffff) {
                                Some(n) => {
                                    let n32 = n as u32;
                                    if ensure_pbkeylen(n32).is_err() {
                                        return ParsedArgs { seconds: st.seconds, end: ArgsEnd::Failed(ArgError::InvalidPbkeylen) };
                                    }
                                    st.pbkeylen = n32;
                                },
                                None => {
                                    return ParsedArgs { seconds: st.seconds, end: ArgsEnd::Failed(ArgError::InvalidPbkeylen) };
                                },
                            }
                        } else {
                            st.record_duration(v);
                        }
                    },
                }
            },
        }
        i = i + 2;
    }
    if ensure_pbkeylen(st.pbkeylen).is_err() {
        return ParsedArgs { seconds: st.seconds, end: ArgsEnd::Failed(ArgError::InvalidPbkeylen) };
    }
    match (st.url, st.stream_id, st.output) {
        (None, _, _) => ParsedArgs { seconds: st.seconds, end: ArgsEnd::Failed(ArgError::Required("--url")) },
        (Some(_), None, _) => ParsedArgs { seconds: st.seconds, end: ArgsEnd::Failed(ArgError::Required("--stream-id")) },
        (Some(_), Some(_), None) => ParsedArgs { seconds: st.seconds, end: ArgsEnd::Failed(ArgError::Required("--output")) },
        (Some(url), Some(stream_id), Some(output)) => {
            let config = SingleStreamConfig {
                url,
                stream_id,
                output,
                duration: st.duration,
                passphrase: st.passphrase,
                pbkeylen: st.pbkeylen,
            };
            ParsedArgs { seconds: st.seconds, end: ArgsEnd::Run(config) }
        },
    }
}

/// The configuration of the RIST receiver.
#[derive(Debug, Clone)]
pub struct RistReceiveConfig {
    pub url: String,
    pub output: String,
    /// The index of the seconds request of `--duration`; `None` for the default of five
    /// seconds.
    pub duration: Option<usize>,
    pub profile: Profile,
}

/// The end once every argument of the RIST receiver is read.
pub open spec fn rist_finish(st: SingleView) -> SingleEnd {
    if st.url is None {
        SingleEnd::Failed(ArgFailure::Required("--url"@))
    } else if st.output is None {
        SingleEnd::Failed(ArgFailure::Required("--output"@))
    } else {
        SingleEnd::Run(st)
    }
}

/// Reads the RIST receiver's arguments from position `i` on, in state `st`.
pub open spec fn rist_from(args: Seq<Seq<char>>, i: int, st: SingleView) -> (Seq<
    (SecondsUse, Seq<char>),
>, SingleEnd)
    decreases args.len() - i,
{
    if i < 0 || i >= args.len() {
        (st.seconds, rist_finish(st))
    } else {
        let a = args[i];
        let has_value = i + 1 < args.len();
        let v = args[i + 1];
        if a == "--url"@ || a == "--output"@ || a == "--duration"@ || a == "--profile"@ {
            if !has_value {
                (st.seconds, SingleEnd::Failed(ArgFailure::MissingValue(a)))
            } else if a == "--url"@ {
                rist_from(args, i + 2, SingleView { url: Some(v), ..st })
            } else if a == "--output"@ {
                rist_from(args, i + 2, SingleView { output: Some(v), ..st })
            } else if a == "--duration"@ {
                rist_from(
                    args,
                    i + 2,
                    SingleView {
                        duration: Some(st.seconds.len()),
                        seconds: st.seconds.push((SecondsUse::Duration, v)),
                        ..st
                    },
                )
            } else {
                match profile_named(v) {
                    Some(p) => rist_from(args, i + 2, SingleView { profile: p, ..st }),
                    None => (st.seconds, SingleEnd::Failed(ArgFailure::UnknownProfile(v))),
                }
            }
        } else if a == "--help"@ || a == "-h"@ {
            (st.seconds, SingleEnd::Help)
        } else {
            (st.seconds, SingleEnd::Failed(ArgFailure::UnknownArgument(a)))
        }
    }
}

/// The view of the outcome of reading the RIST receiver's arguments.
pub open spec fn rist_outcome(p: ParsedArgs<RistReceiveConfig>, st: SingleView) -> (Seq<
    (SecondsUse, Seq<char>),
>, SingleEnd) {
    (
        seconds_view(p.seconds@),
        match p.end {
            ArgsEnd::Run(c) => SingleEnd::Run(
                SingleView {
                    url: Some(c.url@),
                    output: Some(c.output@),
                    duration: match c.duration {
                        Some(d) => Some(d as nat),
                        None => None,
                    },
                    profile: c.profile,
                    seconds: seconds_view(p.seconds@),
                    ..st
                },
            ),
            ArgsEnd::Help => SingleEnd::Help,
            ArgsEnd::Failed(e) => SingleEnd::Failed(e@),
        },
    )
}

/// Reads the arguments of the RIST receiver (the program's arguments without its name).
pub fn parse_rist_receive_args(args: &Vec<String>) -> (r: ParsedArgs<RistReceiveConfig>)
    ensures
        ({
            let expected = rist_from(views(args@), 0, single_initial());
            &&& rist_outcome(r, single_initial()).0 == expected.0
            &&& match (rist_outcome(r, single_initial()).1, expected.1) {
                (SingleEnd::Run(x), SingleEnd::Run(y)) => x.url == y.url && x.output == y.output
                    && x.duration == y.duration && x.profile == y.profile,
                (x, y) => x == y,
            }
        }),
{
    let ghost av = views(args@);
    let mut st = SingleState::new();
    let mut i: usize = 0;
    while i < args.len()
        invariant
            i <= args.len(),
            av == views(args@),
            st.view().stream_id is None,
            st.view().passphrase == Seq::<char>::empty(),
            st.view().pbkeylen == 32,
            rist_from(av, i as int, st.view()) == rist_from(av, 0, single_initial()),
        decreases args.len() - i,
    {
        let a = args[i].as_str();
        assert(av[i as int] == a@);
        let value = value_after(args, i);
        let flag: Option<&'static str> = if str_equals(a, "--url") {
            Some("--url")
        } else if str_equals(a, "--output") {
            Some("--output")
        } else if str_equals(a, "--duration") {
            Some("--duration")
        } else if str_equals(a, "--profile") {
            Some("--profile")
        } else {
            None
        };
        match flag {
            None => {
                if str_equals(a, "--help") || str_equals(a, "-h") {
                    return ParsedArgs { seconds: st.seconds, end: ArgsEnd::Help };
                }
                return ParsedArgs {
                    seconds: st.seconds,
                    end: ArgsEnd::Failed(ArgError::UnknownArgument(string_from_str(a))),
                };
            },
            Some(f) => {
                assert(f@ == a@);
                match value {
                    None => {
                        return ParsedArgs { seconds: st.seconds, end: ArgsEnd::Failed(ArgError::MissingValue(f)) };
                    },
                    Some(v) => {
                        if str_equals(a, "--url") {
                            st.url = Some(v);
                        } else if str_equals(a, "--output") {
                            st.output = Some(v);
                        } else if str_equals(a, "--duration") {
                            st.record_duration(v);
                        } else {
                            match Profile::parse(v.as_str()) {
                                Some(p) => {
                                    st.profile = p;
                                },
                                None => {
                                    return ParsedArgs {
                                        seconds: st.seconds,
                                        end: ArgsEnd::Failed(ArgError::UnknownProfile(v)),
                                    };
                                },
                            }
                        }
                    },
                }
            },
        }
        i = i + 2;
    }
    match (st.url, st.output) {
        (None, _) => ParsedArgs { seconds: st.seconds, end: ArgsEnd::Failed(ArgError::Required("--url")) },
        (Some(_), None) => ParsedArgs { seconds: st.seconds, end: ArgsEnd::Failed(ArgError::Required("--output")) },
        (Some(url), Some(output)) => {
            let config = RistReceiveConfig { url, output, duration: st.duration, profile: st.profile };
            ParsedArgs { seconds: st.seconds, end: ArgsEnd::Run(config) }
        },
    }
}

/// Why the outputs of the multi-stream receiver cannot be set up.
#[derive(Debug, Clone, PartialEq, Eq)]
pub enum RouteError {
    /// Both `--output` and `--stream-output` were given.
    BothOutputs,
    /// Neither was given.
    OutputRequired,
    /// `--output` without an initial stream ID.
    OutputNeedsStreamId,
    /// `--output` with more than one initial stream ID.
    OutputForOneStreamOnly,
    /// Two outputs for the same stream ID.
    DuplicateRoute(String),
    /// An initial stream ID without an output.
    MissingInitialOutput(String),
}

/// The message of a route error.
pub open spec fn route_error_message(e: RouteError) -> Seq<char> {
    match e {
        RouteError::BothOutputs => "use either --output or --stream-output, not both"@,
        RouteError::OutputRequired =>
            "--output is required for one stream, or use repeatable --stream-output STREAM_ID=PATH"@,
        RouteError::OutputNeedsStreamId => "--output requires exactly one initial --stream-id"@,
        RouteError::OutputForOneStreamOnly =>
            "--output can only be used with one stream ID; use --stream-output instead"@,
        RouteError::DuplicateRoute(id) => "duplicate output route for stream ID "@ + id@,
        RouteError::MissingInitialOutput(id) => "missing --stream-output for initial stream ID "@
            + id@,
    }
}

impl RouteError {
    /// The error's message.
    pub fn message(&self) -> (m: String)
        ensures
            m@ == route_error_message(*self),
    {
        match self {
            RouteError::BothOutputs => string_from_str(
                "use either --output or --stream-output, not both",
            ),
            RouteError::OutputRequired => string_from_str(
                "--output is required for one stream, or use repeatable --stream-output STREAM_ID=PATH",
            ),
            RouteError::OutputNeedsStreamId => string_from_str(
                "--output requires exactly one initial --stream-id",
            ),
            RouteError::OutputForOneStreamOnly => string_from_str(
                "--output can only be used with one stream ID; use --stream-output instead",
            ),
            RouteError::DuplicateRoute(id) => {
                let mut text = chars_of("duplicate output route for stream ID ");
                let mut rest = chars_of(id.as_str());
                text.append(&mut rest);
                crate::text::string_of(&text)
            },
            RouteError::MissingInitialOutput(id) => {
                let mut text = chars_of("missing --stream-output for initial stream ID ");
                let mut rest = chars_of(id.as_str());
                text.append(&mut rest);
                crate::text::string_of(&text)
            },
        }
    }
}

/// The outputs of the multi-stream receiver, by views: the `--stream-output` routes as given, or
/// the `--output` file for the one initial stream ID.
pub open spec fn output_routes_spec(
    output: Option<Seq<char>>,
    stream_ids: Seq<Seq<char>>,
    stream_outputs: Seq<(Seq<char>, Seq<char>)>,
) -> Result<Seq<(Seq<char>, Seq<char>)>, RouteError> {
    if stream_outputs.len() > 0 {
        if output is Some {
            Err(RouteError::BothOutputs)
        } else {
            Ok(stream_outputs)
        }
    } else {
        match output {
            None => Err(RouteError::OutputRequired),
            Some(o) => if stream_ids.len() == 1 {
                Ok(seq![(stream_ids[0], o)])
            } else if stream_ids.len() == 0 {
                Err(RouteError::OutputNeedsStreamId)
            } else {
                Err(RouteError::OutputForOneStreamOnly)
            },
        }
    }
}

fn copy_outputs(outputs: &Vec<StreamOutput>) -> (out: Vec<StreamOutput>)
    ensures
        outputs_view(out@) == outputs_view(outputs@),
{
    let mut out: Vec<StreamOutput> = Vec::new();
    let mut i: usize = 0;
    while i < outputs.len()
        invariant
            i <= outputs.len(),
            outputs_view(out@) == outputs_view(outputs@.take(i as int)),
        decreases outputs.len() - i,
    {
        let ghost before = out@;
        let o = StreamOutput {
            stream_id: outputs[i].stream_id.clone(),
            output: outputs[i].output.clone(),
        };
        assert(o.stream_id@ == outputs@[i as int].stream_id@);
        assert(o.output@ == outputs@[i as int].output@);
        out.push(o);
        assert(out@ == before.push(o));
        assert(outputs_view(out@) =~= outputs_view(before).push((o.stream_id@, o.output@)));
        assert(outputs@.take(i + 1) =~= outputs@.take(i as int).push(outputs@[i as int]));
        assert(outputs_view(outputs@.take(i + 1)) =~= outputs_view(outputs@.take(i as int)).push(
            (outputs@[i as int].stream_id@, outputs@[i as int].output@),
        ));
        i = i + 1;
    }
    assert(outputs@.take(outputs.len() as int) =~= outputs@);
    out
}

/// The outputs of the multi-stream receiver: the `--stream-output` routes, or the `--output`
/// file for the single initial stream ID.
pub fn output_routes(config: &MultiStreamConfig) -> (r: Result<Vec<StreamOutput>, RouteError>)
    ensures
        match output_routes_spec(
            opt_view(config.output),
            views(config.stream_ids@),
            outputs_view(config.stream_outputs@),
        ) {
            Ok(routes) => r matches Ok(v) && outputs_view(v@) == routes,
            Err(e) => r == Err::<Vec<StreamOutput>, RouteError>(e),
        },
{
    if config.stream_outputs.len() > 0 {
        if config.output.is_some() {
            return Err(RouteError::BothOutputs);
        }
        return Ok(copy_outputs(&config.stream_outputs));
    }
    match &config.output {
        None => Err(RouteError::OutputRequired),
        Some(o) => {
            if config.stream_ids.len() == 1 {
                let mut v: Vec<StreamOutput> = Vec::new();
                v.push(StreamOutput { stream_id: config.stream_ids[0].clone(), output: o.clone() });
                assert(outputs_view(v@) =~= seq![(views(config.stream_ids@)[0], o@)]);
                Ok(v)
            } else if config.stream_ids.len() == 0 {
                Err(RouteError::OutputNeedsStreamId)
            } else {
                Err(RouteError::OutputForOneStreamOnly)
            }
        },
    }
}

/// Whether the stream ID at `j` of `ids` occurs before `j`.
pub open spec fn repeated_at(ids: Seq<Seq<char>>, j: int) -> bool {
    exists|i: int| 0 <= i < j && ids[i] == ids[j]
}

/// No stream ID occurs twice in `ids`.
pub open spec fn no_repeats(ids: Seq<Seq<char>>) -> bool {
    forall|j: int| 0 <= j < ids.len() ==> !#[trigger] repeated_at(ids, j)
}

/// `j` is the first position of `ids` whose stream ID occurred before.
pub open spec fn first_repeat(ids: Seq<Seq<char>>, j: int) -> bool {
    &&& 0 <= j < ids.len()
    &&& repeated_at(ids, j)
    &&& forall|k: int| 0 <= k < j ==> !#[trigger] repeated_at(ids, k)
}

/// Whether `id` is among `ids`.
pub open spec fn listed(ids: Seq<Seq<char>>, id: Seq<char>) -> bool {
    exists|j: int| 0 <= j < ids.len() && ids[j] == id
}

/// The stream IDs of output routes.
pub open spec fn route_ids(routes: Seq<StreamOutput>) -> Seq<Seq<char>> {
    routes.map_values(|o: StreamOutput| o.stream_id@)
}

/// The route index of each initial stream ID, or why there is none: two routes for one stream ID
/// (the first repeat reported), or an initial stream ID without a route (the first reported).
pub fn plan_initial_links(routes: &Vec<StreamOutput>, initial: &Vec<String>) -> (r: Result<
    Vec<usize>,
    RouteError,
>)
    ensures
        match r {
            Ok(idx) => {
                &&& no_repeats(route_ids(routes@))
                &&& idx@.len() == initial@.len()
                &&& forall|k: int|
                    0 <= k < idx@.len() ==> (#[trigger] idx@[k]) < routes@.len() && routes@[idx@[
                        k] as int].stream_id@ == initial@[k]@
            },
            Err(RouteError::DuplicateRoute(id)) => exists|j: int|
                first_repeat(route_ids(routes@), j) && id@ == (#[trigger] routes@[j]).stream_id@,
            Err(RouteError::MissingInitialOutput(id)) => {
                &&& no_repeats(route_ids(routes@))
                &&& exists|k: int|
                    0 <= k < initial@.len() && !listed(route_ids(routes@), initial@[k]@) && (
                    forall|m: int| 0 <= m < k ==> listed(route_ids(routes@), #[trigger] initial@[m]@))
                        && id@ == initial@[k]@
            },
            Err(_) => false,
        },
{
    let ghost ids = route_ids(routes@);
    let mut j: usize = 0;
    while j < routes.len()
        invariant
            j <= routes.len(),
            ids == route_ids(routes@),
            ids.len() == routes@.len(),
            forall|k: int| 0 <= k < j ==> !#[trigger] repeated_at(ids, k),
        decreases routes.len() - j,
    {
        let mut i: usize = 0;
        while i < j
            invariant
                i <= j < routes.len(),
                ids == route_ids(routes@),
                ids.len() == routes@.len(),
                forall|k: int| 0 <= k < j ==> !#[trigger] repeated_at(ids, k),
                forall|m: int| 0 <= m < i ==> ids[m] != ids[j as int],
            decreases j - i,
        {
            if str_equals(routes[i].stream_id.as_str(), routes[j].stream_id.as_str()) {
                assert(ids[i as int] == ids[j as int]);
                assert(repeated_at(ids, j as int));
                let dup = routes[j].stream_id.clone();
                assert(first_repeat(ids, j as int));
                return Err(RouteError::DuplicateRoute(dup));
            }
            i = i + 1;
        }
        assert(!repeated_at(ids, j as int));
        j = j + 1;
    }
    let mut idx: Vec<usize> = Vec::new();
    let mut k: usize = 0;
    while k < initial.len()
        invariant
            k <= initial.len(),
            ids == route_ids(routes@),
            no_repeats(ids),
            idx@.len() == k,
            forall|m: int|
                0 <= m < k ==> (#[trigger] idx@[m]) < routes@.len() && routes@[idx@[m] as int].stream_id@
                    == initial@[m]@,
        decreases initial.len() - k,
    {
        let mut found: Option<usize> = None;
        let mut i: usize = 0;
        while i < routes.len()
            invariant
                i <= routes.len(),
                k < initial.len(),
                ids == route_ids(routes@),
                found is None ==> forall|m: int| 0 <= m < i ==> ids[m] != initial@[k as int]@,
                found matches Some(f) ==> f < routes@.len() && routes@[f as int].stream_id@
                    == initial@[k as int]@,
            decreases routes.len() - i,
        {
            if found.is_none() && str_equals(routes[i].stream_id.as_str(), initial[k].as_str()) {
                found = Some(i);
            }
            i = i + 1;
        }
        match found {
            Some(f) => {
                idx.push(f);
            },
            None => {
                assert forall|m: int| 0 <= m < k implies listed(ids, #[trigger] initial@[m]@) by {
                    assert(ids[idx@[m] as int] == initial@[m]@);
                }
                return Err(RouteError::MissingInitialOutput(initial[k].clone()));
            },
        }
        k = k + 1;
    }
    Ok(idx)
}

} // verus!

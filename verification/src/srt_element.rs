//! The SRT server source element: its settings and properties, the listener it opens, and the
//! decisions it makes about callers and the data they send.

use vstd::prelude::*;

use crate::receiver_args::supported_pbkeylen;
use crate::srt::{
    collect_stream_ids, has_id, id_set, routes_after_setting, sanitized, sanitize_pad_name, StreamRoute, StreamRoutes,
};
use crate::text::{
    all_digits, chars_of, digits_value, find_char, find_char_from, is_digit, join_with,
    parse_unsigned, strictly_sorted,
    parse_unsigned_str, split_chars, split_on, str_equals, string_from_str, string_of,
    string_of_range, views,
};

verus! {

/// The listener URI used when none is set.
pub const DEFAULT_URI: &'static str = "srt://0.0.0.0:7001?mode=listener";

/// The largest block read at once: eight MPEG-TS packets of seven 188-byte packets each.
pub const DEFAULT_BLOCKSIZE: u32 = 1316 * 8;

/// The SRT latency in milliseconds used when none is set.
pub const DEFAULT_LATENCY: i32 = 125;

/// The accept and read timeout in milliseconds used when none is set.
pub const DEFAULT_POLL_TIMEOUT: i32 = 1000;

/// The crypto key length in bytes used when none is set.
pub const DEFAULT_PBKEYLEN: u32 = 32;

/// `SRTO_RCVTIMEO` of libsrt.
pub const SRTO_RCVTIMEO: i32 = 14;

/// `SRTO_REUSEADDR` of libsrt.
pub const SRTO_REUSEADDR: i32 = 15;

/// `SRTO_LATENCY` of libsrt.
pub const SRTO_LATENCY: i32 = 23;

/// `SRTO_PASSPHRASE` of libsrt.
pub const SRTO_PASSPHRASE: i32 = 26;

/// `SRTO_PBKEYLEN` of libsrt.
pub const SRTO_PBKEYLEN: i32 = 27;

/// `SRTO_TRANSTYPE` of libsrt.
pub const SRTO_TRANSTYPE: i32 = 50;

/// `SRTT_LIVE` of libsrt: live transmission.
pub const SRTT_LIVE: i32 = 0;

/// `SRT_ERROR` of libsrt, also its invalid socket.
pub const SRT_ERROR: i32 = -1;

/// The settings of the SRT server source.
#[derive(Debug, Clone)]
pub struct SrtSettings {
    pub uri: String,
    pub passphrase: String,
    pub pbkeylen: u32,
    pub latency: i32,
    pub poll_timeout: i32,
    pub blocksize: u32,
    pub do_timestamp: bool,
}

impl SrtSettings {
    /// The default settings: listen on port 7001 of every IPv4 address, no passphrase, 32-byte
    /// keys, 125 ms latency, a one-second poll timeout, 10528-byte blocks, timestamps on.
    pub fn default_settings() -> (s: Self)
        ensures
            s.uri@ == DEFAULT_URI@,
            s.passphrase@.len() == 0,
            s.pbkeylen == DEFAULT_PBKEYLEN,
            s.latency == DEFAULT_LATENCY,
            s.poll_timeout == DEFAULT_POLL_TIMEOUT,
            s.blocksize == DEFAULT_BLOCKSIZE,
            s.do_timestamp,
    {
        SrtSettings {
            uri: string_from_str(DEFAULT_URI),
            passphrase: String::new(),
            pbkeylen: DEFAULT_PBKEYLEN,
            latency: DEFAULT_LATENCY,
            poll_timeout: DEFAULT_POLL_TIMEOUT,
            blocksize: DEFAULT_BLOCKSIZE,
            do_timestamp: true,
        }
    }
}

/// A property value as the element receives or returns it.
#[derive(Debug, Clone)]
pub enum PropertyValue {
    Text(Option<String>),
    UInt(u32),
    Int(i32),
    Bool(bool),
}

/// Whether the element has the property `name` and `value` has its type and lies in its range
/// (`pbkeylen` 0 to 32, `latency` from 0, `poll-timeout` and `blocksize` from 1); the object
/// system checks this before it hands a value on.
pub open spec fn srt_property_accepts(name: Seq<char>, value: PropertyValue) -> bool {
    if name == "uri"@ || name == "url"@ || name == "stream-ids"@ || name == "passphrase"@ {
        value is Text
    } else if name == "pbkeylen"@ {
        value matches PropertyValue::UInt(n) && n <= 32
    } else if name == "latency"@ {
        value matches PropertyValue::Int(n) && n >= 0
    } else if name == "poll-timeout"@ {
        value matches PropertyValue::Int(n) && n >= 1
    } else if name == "blocksize"@ {
        value matches PropertyValue::UInt(n) && n >= 1
    } else if name == "do-timestamp"@ {
        value is Bool
    } else {
        false
    }
}

/// Whether the element has the property `name`.
pub open spec fn srt_property_known(name: Seq<char>) -> bool {
    name == "uri"@ || name == "url"@ || name == "stream-ids"@ || name == "passphrase"@ || name
        == "pbkeylen"@ || name == "latency"@ || name == "poll-timeout"@ || name == "blocksize"@
        || name == "do-timestamp"@
}

/// The text of an optional string property, or `fallback` when unset.
pub open spec fn text_or(value: PropertyValue, fallback: Seq<char>) -> Seq<char> {
    match value {
        PropertyValue::Text(Some(s)) => s@,
        _ => fallback,
    }
}

/// The property names differ from one another.
proof fn lemma_srt_property_names_distinct()
    ensures
        "uri"@ != "url"@,
        "uri"@ != "stream-ids"@ && "url"@ != "stream-ids"@,
        "uri"@ != "passphrase"@ && "url"@ != "passphrase"@ && "stream-ids"@ != "passphrase"@,
        "uri"@ != "pbkeylen"@ && "url"@ != "pbkeylen"@ && "stream-ids"@ != "pbkeylen"@
            && "passphrase"@ != "pbkeylen"@,
        "uri"@ != "latency"@ && "url"@ != "latency"@ && "stream-ids"@ != "latency"@
            && "passphrase"@ != "latency"@ && "pbkeylen"@ != "latency"@,
        "uri"@ != "poll-timeout"@ && "url"@ != "poll-timeout"@ && "stream-ids"@ != "poll-timeout"@
            && "passphrase"@ != "poll-timeout"@ && "pbkeylen"@ != "poll-timeout"@ && "latency"@
            != "poll-timeout"@,
        "uri"@ != "blocksize"@ && "url"@ != "blocksize"@ && "stream-ids"@ != "blocksize"@
            && "passphrase"@ != "blocksize"@ && "pbkeylen"@ != "blocksize"@ && "latency"@
            != "blocksize"@ && "poll-timeout"@ != "blocksize"@,
        "uri"@ != "do-timestamp"@ && "url"@ != "do-timestamp"@ && "stream-ids"@ != "do-timestamp"@
            && "passphrase"@ != "do-timestamp"@ && "pbkeylen"@ != "do-timestamp"@ && "latency"@
            != "do-timestamp"@ && "poll-timeout"@ != "do-timestamp"@ && "blocksize"@
            != "do-timestamp"@,
{
    reveal_strlit("uri");
    reveal_strlit("url");
    reveal_strlit("stream-ids");
    reveal_strlit("passphrase");
    reveal_strlit("pbkeylen");
    reveal_strlit("latency");
    reveal_strlit("poll-timeout");
    reveal_strlit("blocksize");
    reveal_strlit("do-timestamp");
    assert("uri"@.len() == 3 && "uri"@[0] == 'u' && "uri"@[2] == 'i');
    assert("url"@.len() == 3 && "url"@[0] == 'u' && "url"@[2] == 'l');
    assert("stream-ids"@.len() == 10 && "stream-ids"@[0] == 's');
    assert("passphrase"@.len() == 10 && "passphrase"@[0] == 'p' && "passphrase"@[1] == 'a');
    assert("pbkeylen"@.len() == 8 && "pbkeylen"@[0] == 'p' && "pbkeylen"@[1] == 'b');
    assert("latency"@.len() == 7 && "latency"@[0] == 'l');
    assert("poll-timeout"@.len() == 12 && "poll-timeout"@[0] == 'p' && "poll-timeout"@[1] == 'o');
    assert("blocksize"@.len() == 9 && "blocksize"@[0] == 'b');
    assert("do-timestamp"@.len() == 12 && "do-timestamp"@[0] == 'd');
}

/// The data of an SRT server source: its settings and its stream-ID routes.
pub struct SrtServerSrcState {
    pub settings: SrtSettings,
    pub routes: StreamRoutes,
}

impl SrtServerSrcState {
    /// The default settings and no accepted stream ID.
    pub fn new() -> (s: Self)
        ensures
            s.settings.uri@ == DEFAULT_URI@,
            s.settings.pbkeylen == DEFAULT_PBKEYLEN,
            s.routes@.len() == 0,
    {
        SrtServerSrcState { settings: SrtSettings::default_settings(), routes: StreamRoutes::new() }
    }

    /// Sets the property `name`. An unset URI falls back to the default, an unset passphrase or
    /// stream-ID list to empty; a key length other than 0, 16, 24 or 32 is ignored. Returns
    /// whether the value was taken.
    pub fn set_property(&mut self, name: &str, value: PropertyValue) -> (taken: bool)
        requires
            srt_property_accepts(name@, value),
        ensures
            taken == !(name@ == "pbkeylen"@ && !supported_pbkeylen(value->UInt_0)),
            name@ == "uri"@ || name@ == "url"@ ==> final(self).settings.uri@ == text_or(
                value,
                DEFAULT_URI@,
            ),
            name@ == "passphrase"@ ==> final(self).settings.passphrase@ == text_or(
                value,
                Seq::empty(),
            ),
            name@ == "pbkeylen"@ && taken ==> final(self).settings.pbkeylen == value->UInt_0,
            name@ == "pbkeylen"@ && !taken ==> final(self).settings.pbkeylen
                == old(self).settings.pbkeylen,
            name@ == "latency"@ ==> final(self).settings.latency == value->Int_0,
            name@ == "poll-timeout"@ ==> final(self).settings.poll_timeout == value->Int_0,
            name@ == "blocksize"@ ==> final(self).settings.blocksize == value->UInt_0,
            name@ == "do-timestamp"@ ==> final(self).settings.do_timestamp == value->Bool_0,
            name@ != "uri"@ && name@ != "url"@ ==> final(self).settings.uri == old(
                self,
            ).settings.uri,
            name@ != "passphrase"@ ==> final(self).settings.passphrase == old(
                self,
            ).settings.passphrase,
            name@ != "pbkeylen"@ ==> final(self).settings.pbkeylen == old(self).settings.pbkeylen,
            name@ != "latency"@ ==> final(self).settings.latency == old(self).settings.latency,
            name@ != "poll-timeout"@ ==> final(self).settings.poll_timeout == old(
                self,
            ).settings.poll_timeout,
            name@ != "blocksize"@ ==> final(self).settings.blocksize == old(
                self,
            ).settings.blocksize,
            name@ != "do-timestamp"@ ==> final(self).settings.do_timestamp == old(
                self,
            ).settings.do_timestamp,
            name@ != "stream-ids"@ ==> final(self).routes@ == old(self).routes@,
            name@ == "stream-ids"@ ==> id_set(final(self).routes@) == collect_stream_ids(
                split_on(text_or(value, Seq::empty()), ','),
            ).to_set(),
            name@ == "stream-ids"@ ==> final(self).routes@ == routes_after_setting(
                old(self).routes@,
                collect_stream_ids(split_on(text_or(value, Seq::empty()), ',')),
            ),
    {
        proof {
            lemma_srt_property_names_distinct();
        }
        if str_equals(name, "uri") || str_equals(name, "url") {
            match value {
                PropertyValue::Text(Some(s)) => {
                    self.settings.uri = s;
                },
                _ => {
                    self.settings.uri = string_from_str(DEFAULT_URI);
                },
            }
            true
        } else if str_equals(name, "stream-ids") {
            match value {
                PropertyValue::Text(Some(s)) => {
                    self.routes.set_stream_ids_text(s.as_str());
                },
                _ => {
                    proof {
                        reveal_strlit("");
                        assert(""@.len() == 0);
                        assert(""@ =~= Seq::<char>::empty());
                    }
                    self.routes.set_stream_ids_text("");
                },
            }
            true
        } else if str_equals(name, "passphrase") {
            match value {
                PropertyValue::Text(Some(s)) => {
                    self.settings.passphrase = s;
                },
                _ => {
                    self.settings.passphrase = String::new();
                },
            }
            true
        } else if str_equals(name, "pbkeylen") {
            match value {
                PropertyValue::UInt(n) => {
                    if n == 0 || n == 16 || n == 24 || n == 32 {
                        self.settings.pbkeylen = n;
                        true
                    } else {
                        false
                    }
                },
                _ => true,
            }
        } else if str_equals(name, "latency") {
            match value {
                PropertyValue::Int(n) => {
                    self.settings.latency = n;
                },
                _ => {},
            }
            true
        } else if str_equals(name, "poll-timeout") {
            match value {
                PropertyValue::Int(n) => {
                    self.settings.poll_timeout = n;
                },
                _ => {},
            }
            true
        } else if str_equals(name, "blocksize") {
            match value {
                PropertyValue::UInt(n) => {
                    self.settings.blocksize = n;
                },
                _ => {},
            }
            true
        } else {
            match value {
                PropertyValue::Bool(b) => {
                    self.settings.do_timestamp = b;
                },
                _ => {},
            }
            true
        }
    }

    /// The value of the property `name`; `stream-ids` reads as the accepted IDs in increasing
    /// order, joined with commas.
    pub fn property(&self, name: &str) -> (v: PropertyValue)
        requires
            srt_property_known(name@),
        ensures
            name@ == "uri"@ || name@ == "url"@ ==> (v matches PropertyValue::Text(Some(s)) && s@
                == self.settings.uri@),
            name@ == "passphrase"@ ==> (v matches PropertyValue::Text(Some(s)) && s@
                == self.settings.passphrase@),
            name@ == "stream-ids"@ ==> (v matches PropertyValue::Text(Some(s)) && exists|
                ids: Seq<Seq<char>>,
            |
                strictly_sorted(ids) && ids.to_set() == id_set(self.routes@) && s@ == join_with(
                    ids,
                    ',',
                )),
            name@ == "pbkeylen"@ ==> v == PropertyValue::UInt(self.settings.pbkeylen),
            name@ == "latency"@ ==> v == PropertyValue::Int(self.settings.latency),
            name@ == "poll-timeout"@ ==> v == PropertyValue::Int(self.settings.poll_timeout),
            name@ == "blocksize"@ ==> v == PropertyValue::UInt(self.settings.blocksize),
            name@ == "do-timestamp"@ ==> v == PropertyValue::Bool(self.settings.do_timestamp),
    {
        proof {
            lemma_srt_property_names_distinct();
        }
        if str_equals(name, "uri") || str_equals(name, "url") {
            PropertyValue::Text(Some(self.settings.uri.clone()))
        } else if str_equals(name, "stream-ids") {
            PropertyValue::Text(Some(self.routes.stream_ids_text()))
        } else if str_equals(name, "passphrase") {
            PropertyValue::Text(Some(self.settings.passphrase.clone()))
        } else if str_equals(name, "pbkeylen") {
            PropertyValue::UInt(self.settings.pbkeylen)
        } else if str_equals(name, "latency") {
            PropertyValue::Int(self.settings.latency)
        } else if str_equals(name, "poll-timeout") {
            PropertyValue::Int(self.settings.poll_timeout)
        } else if str_equals(name, "blocksize") {
            PropertyValue::UInt(self.settings.blocksize)
        } else {
            PropertyValue::Bool(self.settings.do_timestamp)
        }
    }
}

/// Why the SRT listener could not be set up.
#[derive(Debug, Clone, PartialEq, Eq)]
pub enum SrtSetupError {
    /// The URI does not start with `srt://`.
    UriScheme,
    /// The URI has no `:port`.
    MissingPort,
    /// The port is no `u16`.
    InvalidPort,
    /// The host is no IPv4 address.
    NotIpv4(String),
    /// The passphrase holds a NUL character.
    PassphraseNul,
}

/// The errors of [`SrtSetupError`] by their views.
pub enum SetupFailure {
    UriScheme,
    MissingPort,
    InvalidPort,
    NotIpv4(Seq<char>),
    PassphraseNul,
}

impl View for SrtSetupError {
    type V = SetupFailure;

    open spec fn view(&self) -> SetupFailure {
        match self {
            SrtSetupError::UriScheme => SetupFailure::UriScheme,
            SrtSetupError::MissingPort => SetupFailure::MissingPort,
            SrtSetupError::InvalidPort => SetupFailure::InvalidPort,
            SrtSetupError::NotIpv4(h) => SetupFailure::NotIpv4(h@),
            SrtSetupError::PassphraseNul => SetupFailure::PassphraseNul,
        }
    }
}

/// The message of a setup error.
pub open spec fn setup_message(e: SetupFailure) -> Seq<char> {
    match e {
        SetupFailure::UriScheme => "uri must start with srt://"@,
        SetupFailure::MissingPort => "uri must include a listener port"@,
        SetupFailure::InvalidPort => "uri port must be a u16"@,
        SetupFailure::NotIpv4(h) => "SRT demux listener only supports IPv4 hosts: "@ + h,
        SetupFailure::PassphraseNul => "SRT passphrase contains an interior NUL byte"@,
    }
}

impl SrtSetupError {
    /// The error's message.
    pub fn message(&self) -> (m: String)
        ensures
            m@ == setup_message(self@),
    {
        match self {
            SrtSetupError::UriScheme => string_from_str("uri must start with srt://"),
            SrtSetupError::MissingPort => string_from_str("uri must include a listener port"),
            SrtSetupError::InvalidPort => string_from_str("uri port must be a u16"),
            SrtSetupError::NotIpv4(h) => {
                let mut text = chars_of("SRT demux listener only supports IPv4 hosts: ");
                let mut host = chars_of(h.as_str());
                text.append(&mut host);
                string_of(&text)
            },
            SrtSetupError::PassphraseNul => string_from_str(
                "SRT passphrase contains an interior NUL byte",
            ),
        }
    }
}

/// The position of the last `c` in `s`, if any.
pub open spec fn find_last_char(s: Seq<char>, c: char) -> Option<nat>
    decreases s.len(),
{
    if s.len() == 0 {
        None
    } else if s.last() == c {
        Some((s.len() - 1) as nat)
    } else {
        find_last_char(s.drop_last(), c)
    }
}

/// The value of one part of a dotted-decimal IPv4 address: one to three digits, no leading zero
/// in a part of more than one digit, at most 255.
pub open spec fn octet_of(p: Seq<char>) -> Option<u8> {
    if 1 <= p.len() <= 3 && all_digits(p) && !(p.len() > 1 && p[0] == '0') && digits_value(p)
        <= 255 {
        Some(digits_value(p) as u8)
    } else {
        None
    }
}

/// The IPv4 address `host` spells in dotted-decimal form (four parts), as Rust's `Ipv4Addr`
/// reads it.
pub open spec fn ipv4_of(host: Seq<char>) -> Option<(u8, u8, u8, u8)> {
    let parts = split_on(host, '.');
    if parts.len() == 4 && octet_of(parts[0]) is Some && octet_of(parts[1]) is Some && octet_of(
        parts[2],
    ) is Some && octet_of(parts[3]) is Some {
        Some(
            (
                octet_of(parts[0])->0,
                octet_of(parts[1])->0,
                octet_of(parts[2])->0,
                octet_of(parts[3])->0,
            ),
        )
    } else {
        None
    }
}

/// The part of `rest` before its first `?`, without one trailing `/`.
pub open spec fn authority_of(rest: Seq<char>) -> Seq<char> {
    let a = match find_char(rest, '?') {
        Some(i) => rest.take(i as int),
        None => rest,
    };
    if a.len() > 0 && a.last() == '/' {
        a.drop_last()
    } else {
        a
    }
}

/// The IPv4 address and port an `srt://host:port?...` listener URI names; an empty host is
/// `0.0.0.0`.
pub open spec fn listener_addr_of(uri: Seq<char>) -> Result<((u8, u8, u8, u8), u16), SetupFailure> {
    let scheme = "srt://"@;
    if !(uri.len() >= scheme.len() && uri.take(scheme.len() as int) == scheme) {
        Err(SetupFailure::UriScheme)
    } else {
        let authority = authority_of(uri.skip(scheme.len() as int));
        match find_last_char(authority, ':') {
            None => Err(SetupFailure::MissingPort),
            Some(i) => {
                let host0 = authority.take(i as int);
                let host = if host0.len() == 0 {
                    "0.0.0.0"@
                } else {
                    host0
                };
                match parse_unsigned(authority.skip(i + 1 as int), u16::MAX as nat) {
                    None => Err(SetupFailure::InvalidPort),
                    Some(port) => match ipv4_of(host) {
                        None => Err(SetupFailure::NotIpv4(host)),
                        Some(ip) => Ok((ip, port as u16)),
                    },
                }
            },
        }
    }
}

/// An IPv4 listener address.
#[derive(Debug, Clone, Copy)]
pub struct ListenerAddr {
    pub ip: (u8, u8, u8, u8),
    pub port: u16,
}

fn find_last_char_exec(s: &Vec<char>, c: char) -> (r: Option<usize>)
    ensures
        match find_last_char(s@, c) {
            Some(i) => r == Some(i as usize),
            None => r is None,
        },
{
    let mut j: usize = s.len();
    assert(s@.take(j as int) =~= s@);
    while j > 0
        invariant
            j <= s.len(),
            find_last_char(s@, c) == find_last_char(s@.take(j as int), c),
        decreases j,
    {
        assert(s@.take(j as int).drop_last() =~= s@.take(j - 1));
        if s[j - 1] == c {
            return Some(j - 1);
        }
        j = j - 1;
    }
    None
}

fn octet_exec(p: &Vec<char>) -> (r: Option<u8>)
    ensures
        r == octet_of(p@),
{
    if p.len() < 1 || p.len() > 3 {
        return None;
    }
    if p.len() > 1 && p[0] == '0' {
        return None;
    }
    let mut value: u32 = 0;
    let mut i: usize = 0;
    while i < p.len()
        invariant
            1 <= p.len() <= 3,
            i <= p.len(),
            forall|k: int| 0 <= k < i ==> is_digit(#[trigger] p@[k]),
            value == digits_value(p@.take(i as int)),
            i == 0 ==> value == 0,
            i == 1 ==> value < 10,
            i == 2 ==> value < 100,
            value < 1000,
        decreases p.len() - i,
    {
        let c = p[i];
        if !('0' <= c && c <= '9') {
            assert(!is_digit(p@[i as int]));
            return None;
        }
        assert(p@.take(i + 1).drop_last() =~= p@.take(i as int));
        assert(i < 3);
        value = value * 10 + (c as u32 - '0' as u32);
        i = i + 1;
    }
    assert(p@.take(p.len() as int) =~= p@);
    if value > 255 {
        return None;
    }
    Some(value as u8)
}

/// Reads the listener address of an SRT URI `srt://host:port[/][?options]`: the host must be a
/// dotted-decimal IPv4 address (empty for `0.0.0.0`) and the port a `u16`.
pub fn parse_listener_addr(url: &str) -> (r: Result<ListenerAddr, SrtSetupError>)
    ensures
        match listener_addr_of(url@) {
            Ok((ip, port)) => r matches Ok(a) && a.ip == ip && a.port == port,
            Err(f) => r matches Err(e) && e@ == f,
        },
{
    let chars = chars_of(url);
    let scheme = chars_of("srt://");
    if !crate::text::has_prefix(&chars, &scheme) {
        return Err(SrtSetupError::UriScheme);
    }
    let n = scheme.len();
    let ghost rest = chars@.skip(n as int);
    let stop = match find_char_from(&chars, '?', n) {
        Some(q) => q,
        None => chars.len(),
    };
    proof {
        crate::text::lemma_find_char(rest, '?');
    }
    let mut end = stop;
    if end > n && chars[end - 1] == '/' {
        end = end - 1;
    }
    let authority = {
        let mut a: Vec<char> = Vec::new();
        let mut k: usize = n;
        while k < end
            invariant
                n <= k <= end <= chars.len(),
                a@ == chars@.subrange(n as int, k as int),
            decreases end - k,
        {
            a.push(chars[k]);
            k = k + 1;
            assert(a@ =~= chars@.subrange(n as int, k as int));
        }
        a
    };
    assert(authority@ =~= authority_of(rest)) by {
        match find_char(rest, '?') {
            Some(i) => {
                assert(rest.take(i as int) =~= chars@.subrange(n as int, stop as int));
            },
            None => {
                assert(rest =~= chars@.subrange(n as int, stop as int));
            },
        }
        if stop > n && chars@[stop - 1] == '/' {
            assert(chars@.subrange(n as int, stop as int).drop_last() =~= chars@.subrange(
                n as int,
                end as int,
            ));
        }
    }
    let colon = match find_last_char_exec(&authority, ':') {
        Some(i) => i,
        None => {
            return Err(SrtSetupError::MissingPort);
        },
    };
    proof {
        lemma_find_last_char_bound(authority@, ':');
    }
    let host_text = string_of_range(&authority, 0, colon);
    let port_text = string_of_range(&authority, colon + 1, authority.len());
    assert(host_text@ =~= authority@.take(colon as int));
    assert(port_text@ =~= authority@.skip(colon + 1));
    let port = match parse_unsigned_str(port_text.as_str(), 0xffff) {
        Some(p) => p as u16,
        None => {
            return Err(SrtSetupError::InvalidPort);
        },
    };
    let host = if host_text.as_str().unicode_len() == 0 {
        string_from_str("0.0.0.0")
    } else {
        host_text
    };
    let host_chars = chars_of(host.as_str());
    let parts = split_chars(&host_chars, '.');
    if parts.len() != 4 {
        return Err(SrtSetupError::NotIpv4(host));
    }
    assert(views(parts@)[0] == parts@[0]@);
    let a = octet_exec(&chars_of(parts[0].as_str()));
    let b = octet_exec(&chars_of(parts[1].as_str()));
    let c = octet_exec(&chars_of(parts[2].as_str()));
    let d = octet_exec(&chars_of(parts[3].as_str()));
    assert(views(parts@)[1] == parts@[1]@);
    assert(views(parts@)[2] == parts@[2]@);
    assert(views(parts@)[3] == parts@[3]@);
    match (a, b, c, d) {
        (Some(a), Some(b), Some(c), Some(d)) => Ok(ListenerAddr { ip: (a, b, c, d), port }),
        _ => Err(SrtSetupError::NotIpv4(host)),
    }
}

proof fn lemma_find_last_char_bound(s: Seq<char>, c: char)
    ensures
        find_last_char(s, c) matches Some(i) ==> i < s.len(),
    decreases s.len(),
{
    if s.len() > 0 && s.last() != c {
        lemma_find_last_char_bound(s.drop_last(), c);
    }
}

/// An option to set on the listener socket, in order, or the end of the setup with an error.
#[derive(Debug, Clone)]
pub enum ListenerStep {
    /// Set an integer option.
    SetInt { option: i32, value: i32 },
    /// Set the passphrase option to this text.
    SetPassphrase(String),
    /// The passphrase cannot be handed to libsrt: stop with this error.
    Reject(SrtSetupError),
}

/// The options of the listener socket, in the order they are set: address reuse, live mode,
/// latency and receive timeout; then, with a passphrase, the passphrase and the key length. A
/// passphrase with a NUL character ends the setup with an error at its place.
pub open spec fn listener_steps_ok(settings: SrtSettings, steps: Seq<ListenerStep>) -> bool {
    let base = steps.len() >= 4 && steps[0] == (ListenerStep::SetInt {
        option: SRTO_REUSEADDR,
        value: 1,
    }) && steps[1] == (ListenerStep::SetInt { option: SRTO_TRANSTYPE, value: SRTT_LIVE })
        && steps[2] == (ListenerStep::SetInt { option: SRTO_LATENCY, value: settings.latency })
        && steps[3] == (ListenerStep::SetInt {
        option: SRTO_RCVTIMEO,
        value: settings.poll_timeout,
    });
    base && if settings.passphrase@.len() == 0 {
        steps.len() == 4
    } else if settings.passphrase@.contains('\0') {
        steps.len() == 5 && steps[4] == ListenerStep::Reject(SrtSetupError::PassphraseNul)
    } else {
        &&& steps.len() == 6
        &&& steps[4] matches ListenerStep::SetPassphrase(p)
        &&& steps[4]->SetPassphrase_0@ == settings.passphrase@
        &&& steps[5] == (ListenerStep::SetInt {
            option: SRTO_PBKEYLEN,
            value: settings.pbkeylen as i32,
        })
    }
}

/// The options to set on the listener socket before it is bound.
pub fn listener_steps(settings: &SrtSettings) -> (steps: Vec<ListenerStep>)
    ensures
        listener_steps_ok(*settings, steps@),
{
    let mut steps: Vec<ListenerStep> = Vec::new();
    steps.push(ListenerStep::SetInt { option: SRTO_REUSEADDR, value: 1 });
    steps.push(ListenerStep::SetInt { option: SRTO_TRANSTYPE, value: SRTT_LIVE });
    steps.push(ListenerStep::SetInt { option: SRTO_LATENCY, value: settings.latency });
    steps.push(ListenerStep::SetInt { option: SRTO_RCVTIMEO, value: settings.poll_timeout });
    let ghost base = steps@;
    assert(base.len() == 4);
    assert(base[0] == (ListenerStep::SetInt { option: SRTO_REUSEADDR, value: 1 }));
    assert(base[1] == (ListenerStep::SetInt { option: SRTO_TRANSTYPE, value: SRTT_LIVE }));
    assert(base[2] == (ListenerStep::SetInt { option: SRTO_LATENCY, value: settings.latency }));
    assert(base[3] == (ListenerStep::SetInt { option: SRTO_RCVTIMEO, value: settings.poll_timeout }));
    let chars = chars_of(settings.passphrase.as_str());
    if chars.len() == 0 {
        return steps;
    }
    let mut i: usize = 0;
    while i < chars.len()
        invariant
            i <= chars.len(),
            chars@ == settings.passphrase@,
            forall|k: int| 0 <= k < i ==> chars@[k] != '\0',
            steps@ == base,
            base.len() == 4,
            base[0] == (ListenerStep::SetInt { option: SRTO_REUSEADDR, value: 1 }),
            base[1] == (ListenerStep::SetInt { option: SRTO_TRANSTYPE, value: SRTT_LIVE }),
            base[2] == (ListenerStep::SetInt { option: SRTO_LATENCY, value: settings.latency }),
            base[3] == (ListenerStep::SetInt {
                option: SRTO_RCVTIMEO,
                value: settings.poll_timeout,
            }),
        decreases chars.len() - i,
    {
        if chars[i] == '\0' {
            steps.push(ListenerStep::Reject(SrtSetupError::PassphraseNul));
            assert(settings.passphrase@[i as int] == '\0');
            return steps;
        }
        i = i + 1;
    }
    assert(!settings.passphrase@.contains('\0'));
    steps.push(ListenerStep::SetPassphrase(settings.passphrase.clone()));
    let keylen = #[verifier::truncate] (settings.pbkeylen as i32);
    steps.push(ListenerStep::SetInt { option: SRTO_PBKEYLEN, value: keylen });
    steps
}

/// The stream-start ID pushed on a pad before a caller's data: `srt-PAD-STREAMID`, the stream ID
/// sanitized as pad names are.
pub open spec fn stream_start_id_spec(route: StreamRoute) -> Seq<char> {
    "srt-"@ + route.pad_name@ + seq!['-'] + sanitized(route.stream_id@)
}

/// The stream-start ID of a route.
pub fn stream_start_id(route: &StreamRoute) -> (id: String)
    ensures
        id@ == stream_start_id_spec(*route),
{
    let mut out = chars_of("srt-");
    let mut pad = chars_of(route.pad_name.as_str());
    out.append(&mut pad);
    out.push('-');
    let clean = sanitize_pad_name(route.stream_id.as_str());
    let mut rest = chars_of(clean.as_str());
    out.append(&mut rest);
    string_of(&out)
}

impl StreamRoutes {
    /// Whether a caller announcing `stream_id` is let in: only accepted stream IDs are, matched
    /// exactly.
    pub fn accepts(&self, stream_id: &str) -> (b: bool)
        ensures
            b == has_id(self@, stream_id@),
    {
        self.pad_for_stream_id(stream_id).is_some()
    }

    /// Where an accepted caller's data goes: the route of its stream ID, or nowhere (the caller is
    /// closed) when the stream ID is unknown or no longer accepted.
    pub fn route_for_caller(&self, stream_id: Option<String>) -> (r: Option<StreamRoute>)
        ensures
            match stream_id {
                None => r is None,
                Some(id) => match r {
                    Some(route) => route.stream_id@ == id@ && exists|i: int|
                        0 <= i < self@.len() && (#[trigger] self@[i]).0 == id@ && self@[i].1
                            == route.pad_name@,
                    None => !has_id(self@, id@),
                },
            },
    {
        match stream_id {
            None => None,
            Some(id) => match self.pad_for_stream_id(id.as_str()) {
                Some(pad_name) => Some(StreamRoute { stream_id: id, pad_name }),
                None => None,
            },
        }
    }
}

/// Whether a wait on the listener produced a caller to accept: not when the wait failed or
/// reported no ready socket.
pub fn caller_ready(poll_result: i32, read_count: i32) -> (b: bool)
    ensures
        b == !(poll_result == SRT_ERROR || read_count == 0),
{
    !(poll_result == SRT_ERROR || read_count == 0)
}

/// The socket an accept produced, if any.
pub fn accepted_socket(accepted: i32) -> (s: Option<i32>)
    ensures
        s == if accepted == SRT_ERROR {
            None
        } else {
            Some(accepted)
        },
{
    if accepted == SRT_ERROR {
        None
    } else {
        Some(accepted)
    }
}

/// What the reader of a caller does after one receive.
#[derive(Debug, Clone, Copy, PartialEq, Eq, Structural)]
pub enum ReadStep {
    /// Push the first `len` bytes as a buffer, stamped with time zero when `stamp` is set.
    Push { len: usize, stamp: bool },
    /// The caller is done or failed: close its socket.
    Stop,
}

/// The step after a receive that returned `len`: data is pushed; an end of stream or an error
/// stops the reader.
pub fn read_step(len: i32, buffer_len: usize, do_timestamp: bool) -> (step: ReadStep)
    requires
        len <= buffer_len,
    ensures
        len > 0 ==> step == (ReadStep::Push { len: len as usize, stamp: do_timestamp }),
        len <= 0 ==> step == ReadStep::Stop,
{
    if len > 0 {
        ReadStep::Push { len: len as usize, stamp: do_timestamp }
    } else {
        ReadStep::Stop
    }
}

/// The text that UTF-8 `bytes` decode to, if they are UTF-8.
pub uninterp spec fn utf8_text(bytes: Seq<u8>) -> Option<Seq<char>>;

/// Calls `String::from_utf8` on a copy of `bytes`. Claims only that the outcome is a function of
/// the bytes.
#[verifier::external_body]
fn decode_utf8(bytes: &[u8]) -> (r: Option<String>)
    ensures
        match r {
            Some(s) => utf8_text(bytes@) == Some(s@),
            None => utf8_text(bytes@) is None,
        },
{
    match String::from_utf8(bytes.to_vec()) {
        Ok(s) => Some(s),
        Err(_) => None,
    }
}

/// The position of the first zero byte of `s`, if any.
pub open spec fn first_zero(s: Seq<u8>) -> Option<nat>
    decreases s.len(),
{
    if s.len() == 0 {
        None
    } else if s[0] == 0 {
        Some(0)
    } else {
        match first_zero(s.drop_first()) {
            Some(i) => Some(i + 1),
            None => None,
        }
    }
}

/// The length of the stream ID in a buffer that libsrt filled: up to the first zero byte of the
/// buffer, else the length libsrt reported.
pub open spec fn stream_id_len(buffer: Seq<u8>, len: i32) -> nat {
    match first_zero(buffer) {
        Some(i) => i,
        None => len as nat,
    }
}

/// The stream ID a caller's socket reported, read from the buffer libsrt filled: none when the
/// call failed, reported nothing, the ID is empty, or it is no UTF-8.
pub open spec fn stream_id_from_buffer_spec(buffer: Seq<u8>, result: i32, len: i32) -> Option<
    Seq<char>,
> {
    if result == SRT_ERROR || len <= 0 {
        None
    } else if stream_id_len(buffer, len) == 0 {
        None
    } else {
        utf8_text(buffer.take(stream_id_len(buffer, len) as int))
    }
}

proof fn lemma_first_zero_bound(s: Seq<u8>)
    ensures
        first_zero(s) matches Some(i) ==> i < s.len() && s[i as int] == 0,
    decreases s.len(),
{
    if s.len() > 0 && s[0] != 0 {
        lemma_first_zero_bound(s.drop_first());
    }
}

fn first_zero_exec(s: &[u8]) -> (r: Option<usize>)
    ensures
        match first_zero(s@) {
            Some(i) => r == Some(i as usize),
            None => r is None,
        },
{
    let mut i: usize = 0;
    assert(s@.skip(0) =~= s@);
    while i < s.len()
        invariant
            i <= s.len(),
            first_zero(s@) == match first_zero(s@.skip(i as int)) {
                Some(k) => Some((k + i) as nat),
                None => None,
            },
        decreases s.len() - i,
    {
        assert(s@.skip(i as int).drop_first() =~= s@.skip(i + 1));
        if s[i] == 0 {
            return Some(i);
        }
        i = i + 1;
    }
    None
}

/// Reads the stream ID libsrt wrote into `buffer`, given the call's result and the length it
/// reported.
pub fn stream_id_from_buffer(buffer: &[u8], result: i32, len: i32) -> (id: Option<String>)
    requires
        len <= buffer.len(),
    ensures
        match stream_id_from_buffer_spec(buffer@, result, len) {
            Some(t) => id matches Some(s) && s@ == t,
            None => id is None,
        },
{
    if result == SRT_ERROR || len <= 0 {
        return None;
    }
    let n = match first_zero_exec(buffer) {
        Some(i) => i,
        None => len as usize,
    };
    proof {
        lemma_first_zero_bound(buffer@);
    }
    if n == 0 {
        return None;
    }
    let mut bytes: Vec<u8> = Vec::new();
    let mut k: usize = 0;
    while k < n
        invariant
            k <= n <= buffer.len(),
            bytes@ == buffer@.take(k as int),
        decreases n - k,
    {
        bytes.push(buffer[k]);
        k = k + 1;
        assert(bytes@ =~= buffer@.take(k as int));
    }
    decode_utf8(bytes.as_slice())
}

/// The message of a failed libsrt call: the context, then libsrt's own description.
pub fn srt_error_message(context: &str, detail: &str) -> (m: String)
    ensures
        m@ == context@ + ": "@ + detail@,
{
    let mut out = chars_of(context);
    let mut sep = chars_of(": ");
    out.append(&mut sep);
    let mut rest = chars_of(detail);
    out.append(&mut rest);
    string_of(&out)
}

} // verus!

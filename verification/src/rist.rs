//! The RIST server source: its settings and the checks it makes before receiving.

use vstd::prelude::*;

use crate::e2e::Duration;
use crate::srt_element::PropertyValue;
use crate::text::{chars_of, str_equals, string_from_str, string_of};

verus! {

/// A RIST profile.
#[derive(Debug, Clone, Copy, PartialEq, Eq, Structural)]
pub enum Profile {
    Simple,
    Main,
    Advanced,
}

/// The profile that `value` names, if any.
pub open spec fn profile_named(value: Seq<char>) -> Option<Profile> {
    if value == "simple"@ {
        Some(Profile::Simple)
    } else if value == "main"@ {
        Some(Profile::Main)
    } else if value == "advanced"@ {
        Some(Profile::Advanced)
    } else {
        None
    }
}

/// `rist_profile` of librist: `RIST_PROFILE_SIMPLE`.
pub const RIST_PROFILE_SIMPLE: u32 = 0;

/// `rist_profile` of librist: `RIST_PROFILE_MAIN`.
pub const RIST_PROFILE_MAIN: u32 = 1;

/// `rist_profile` of librist: `RIST_PROFILE_ADVANCED`.
pub const RIST_PROFILE_ADVANCED: u32 = 2;

impl Profile {
    /// Reads `simple`, `main` or `advanced`.
    pub fn parse(value: &str) -> (p: Option<Self>)
        ensures
            p == profile_named(value@),
    {
        if str_equals(value, "simple") {
            Some(Profile::Simple)
        } else if str_equals(value, "main") {
            Some(Profile::Main)
        } else if str_equals(value, "advanced") {
            Some(Profile::Advanced)
        } else {
            None
        }
    }

    /// The librist `rist_profile` value of this profile.
    pub fn as_raw(self) -> (raw: u32)
        ensures
            raw == match self {
                Profile::Simple => RIST_PROFILE_SIMPLE,
                Profile::Main => RIST_PROFILE_MAIN,
                Profile::Advanced => RIST_PROFILE_ADVANCED,
            },
    {
        match self {
            Profile::Simple => RIST_PROFILE_SIMPLE,
            Profile::Main => RIST_PROFILE_MAIN,
            Profile::Advanced => RIST_PROFILE_ADVANCED,
        }
    }
}

/// `simple`, `main` and `advanced` each select the profile of that name, no other text selects
/// a profile, and distinct names select distinct profiles.
pub proof fn lemma_profile_names(value: Seq<char>, other: Seq<char>)
    ensures
        profile_named("simple"@) == Some(Profile::Simple),
        profile_named("main"@) == Some(Profile::Main),
        profile_named("advanced"@) == Some(Profile::Advanced),
        profile_named(value) is Some <==> (value == "simple"@ || value == "main"@ || value
            == "advanced"@),
        profile_named(value) is Some && profile_named(value) == profile_named(other) ==> value
            == other,
{
    reveal_strlit("simple");
    reveal_strlit("main");
    reveal_strlit("advanced");
    assert("simple"@.len() == 6 && "main"@.len() == 4 && "advanced"@.len() == 8);
}

/// The read timeout in milliseconds used when none is set.
pub const DEFAULT_READ_TIMEOUT_MS: u32 = 50;

/// The settings of the RIST server source.
#[derive(Debug, Clone)]
pub struct RistSettings {
    pub url: String,
    pub profile: String,
    pub read_timeout_ms: u32,
}

impl RistSettings {
    /// The default settings: no URL, the simple profile, a 50 ms read timeout.
    pub fn default_settings() -> (s: Self)
        ensures
            s.url@.len() == 0,
            s.profile@ == "simple"@,
            s.read_timeout_ms == DEFAULT_READ_TIMEOUT_MS,
    {
        RistSettings {
            url: String::new(),
            profile: string_from_str("simple"),
            read_timeout_ms: DEFAULT_READ_TIMEOUT_MS,
        }
    }

    /// How long one read waits for data.
    pub fn read_timeout(&self) -> (d: Duration)
        ensures
            d.secs == self.read_timeout_ms / 1000,
            d.nanos == (self.read_timeout_ms % 1000) * 1_000_000,
    {
        Duration::from_millis(self.read_timeout_ms as u64)
    }
}

/// Whether the element has the property `name` and `value` has its type and lies in its range
/// (`read-timeout-ms` 1 to 60000).
pub open spec fn rist_property_accepts(name: Seq<char>, value: PropertyValue) -> bool {
    if name == "url"@ || name == "profile"@ {
        value is Text
    } else if name == "read-timeout-ms"@ {
        value matches PropertyValue::UInt(n) && 1 <= n <= 60_000
    } else {
        false
    }
}

/// Whether the element has the property `name`.
pub open spec fn rist_property_known(name: Seq<char>) -> bool {
    name == "url"@ || name == "profile"@ || name == "read-timeout-ms"@
}

proof fn lemma_rist_property_names_distinct()
    ensures
        "url"@ != "profile"@,
        "url"@ != "read-timeout-ms"@,
        "profile"@ != "read-timeout-ms"@,
{
    reveal_strlit("url");
    reveal_strlit("profile");
    reveal_strlit("read-timeout-ms");
    assert("url"@.len() == 3);
    assert("profile"@.len() == 7);
    assert("read-timeout-ms"@.len() == 15);
}

impl RistSettings {
    /// Sets the property `name`; an unset URL becomes empty and an unset profile `simple`.
    pub fn set_property(&mut self, name: &str, value: PropertyValue)
        requires
            rist_property_accepts(name@, value),
        ensures
            name@ == "url"@ ==> final(self).url@ == match value {
                PropertyValue::Text(Some(s)) => s@,
                _ => Seq::empty(),
            },
            name@ == "profile"@ ==> final(self).profile@ == match value {
                PropertyValue::Text(Some(s)) => s@,
                _ => "simple"@,
            },
            name@ == "read-timeout-ms"@ ==> final(self).read_timeout_ms == value->UInt_0,
            name@ != "url"@ ==> final(self).url == old(self).url,
            name@ != "profile"@ ==> final(self).profile == old(self).profile,
            name@ != "read-timeout-ms"@ ==> final(self).read_timeout_ms == old(
                self,
            ).read_timeout_ms,
    {
        proof {
            lemma_rist_property_names_distinct();
        }
        if str_equals(name, "url") {
            match value {
                PropertyValue::Text(Some(s)) => {
                    self.url = s;
                },
                _ => {
                    self.url = String::new();
                },
            }
        } else if str_equals(name, "profile") {
            match value {
                PropertyValue::Text(Some(s)) => {
                    self.profile = s;
                },
                _ => {
                    self.profile = string_from_str("simple");
                },
            }
        } else {
            match value {
                PropertyValue::UInt(n) => {
                    self.read_timeout_ms = n;
                },
                _ => {},
            }
        }
    }

    /// The value of the property `name`.
    pub fn property(&self, name: &str) -> (v: PropertyValue)
        requires
            rist_property_known(name@),
        ensures
            name@ == "url"@ ==> (v matches PropertyValue::Text(Some(s)) && s@ == self.url@),
            name@ == "profile"@ ==> (v matches PropertyValue::Text(Some(s)) && s@
                == self.profile@),
            name@ == "read-timeout-ms"@ ==> v == PropertyValue::UInt(self.read_timeout_ms),
    {
        proof {
            lemma_rist_property_names_distinct();
        }
        if str_equals(name, "url") {
            PropertyValue::Text(Some(self.url.clone()))
        } else if str_equals(name, "profile") {
            PropertyValue::Text(Some(self.profile.clone()))
        } else {
            PropertyValue::UInt(self.read_timeout_ms)
        }
    }
}

/// Why the RIST source cannot start.
#[derive(Debug, Clone, PartialEq, Eq)]
pub enum RistStartError {
    /// No URL is set.
    UrlRequired,
    /// The profile names no RIST profile.
    UnknownProfile(String),
}

/// The message of a start error.
pub open spec fn start_message(e: RistStartError) -> Seq<char> {
    match e {
        RistStartError::UrlRequired => "RIST url property is required"@,
        RistStartError::UnknownProfile(p) => "unknown RIST profile: "@ + p@,
    }
}

impl RistStartError {
    /// The error's message.
    pub fn message(&self) -> (m: String)
        ensures
            m@ == start_message(*self),
    {
        match self {
            RistStartError::UrlRequired => string_from_str("RIST url property is required"),
            RistStartError::UnknownProfile(p) => {
                let mut text = chars_of("unknown RIST profile: ");
                let mut rest = chars_of(p.as_str());
                text.append(&mut rest);
                string_of(&text)
            },
        }
    }
}

/// Checks the settings before the source starts: a URL must be set and the profile must be
/// `simple`, `main` or `advanced`.
pub fn check_start(settings: &RistSettings) -> (r: Result<Profile, RistStartError>)
    ensures
        settings.url@.len() == 0 ==> r == Err::<Profile, RistStartError>(
            RistStartError::UrlRequired,
        ),
        settings.url@.len() > 0 ==> match profile_named(settings.profile@) {
            Some(p) => r == Ok::<Profile, RistStartError>(p),
            None => r matches Err(RistStartError::UnknownProfile(x)) && x@ == settings.profile@,
        },
{
    if settings.url.as_str().unicode_len() == 0 {
        return Err(RistStartError::UrlRequired);
    }
    match Profile::parse(settings.profile.as_str()) {
        Some(p) => Ok(p),
        None => Err(RistStartError::UnknownProfile(settings.profile.clone())),
    }
}

/// A failure of the librist binding.
#[derive(Debug, Clone, PartialEq, Eq)]
pub enum RistError {
    /// The URL holds a NUL character.
    UrlContainsNul,
    /// librist handed back an unusable data block.
    InvalidDataBlock { reason: &'static str },
    /// A librist call failed.
    Librist { operation: &'static str },
}

/// The message of a binding failure.
pub open spec fn rist_error_message(e: RistError) -> Seq<char> {
    match e {
        RistError::UrlContainsNul => "RIST URL contains an interior NUL byte"@,
        RistError::InvalidDataBlock { reason } => "invalid RIST data block: "@ + reason@,
        RistError::Librist { operation } => "librist call failed: "@ + operation@,
    }
}

impl RistError {
    /// The failure's message.
    pub fn message(&self) -> (m: String)
        ensures
            m@ == rist_error_message(*self),
    {
        match self {
            RistError::UrlContainsNul => string_from_str("RIST URL contains an interior NUL byte"),
            RistError::InvalidDataBlock { reason } => {
                let mut text = chars_of("invalid RIST data block: ");
                let mut rest = chars_of(reason);
                text.append(&mut rest);
                string_of(&text)
            },
            RistError::Librist { operation } => {
                let mut text = chars_of("librist call failed: ");
                let mut rest = chars_of(operation);
                text.append(&mut rest);
                string_of(&text)
            },
        }
    }
}

/// The outcome of a librist call that returns a status: zero is success.
pub fn ensure_success(status: i32, operation: &'static str) -> (r: Result<(), RistError>)
    ensures
        status == 0 ==> r is Ok,
        status != 0 ==> r == Err::<(), RistError>(RistError::Librist { operation }),
{
    if status == 0 {
        Ok(())
    } else {
        Err(RistError::Librist { operation })
    }
}

/// The outcome of a librist call that creates an object: the status must be zero and the object
/// must be there.
pub fn ensure_created(
    status: i32,
    created: bool,
    operation: &'static str,
    null_operation: &'static str,
) -> (r: Result<(), RistError>)
    ensures
        status != 0 ==> r == Err::<(), RistError>(RistError::Librist { operation }),
        status == 0 && !created ==> r == Err::<(), RistError>(
            RistError::Librist { operation: null_operation },
        ),
        status == 0 && created ==> r is Ok,
{
    match ensure_success(status, operation) {
        Err(e) => Err(e),
        Ok(()) => if created {
            Ok(())
        } else {
            Err(RistError::Librist { operation: null_operation })
        },
    }
}

/// Checks that a URL can be handed to librist: it must hold no NUL character.
pub fn check_url(url: &str) -> (r: Result<(), RistError>)
    ensures
        url@.contains('\0') ==> r == Err::<(), RistError>(RistError::UrlContainsNul),
        !url@.contains('\0') ==> r is Ok,
{
    let chars = chars_of(url);
    let mut i: usize = 0;
    while i < chars.len()
        invariant
            i <= chars.len(),
            chars@ == url@,
            forall|k: int| 0 <= k < i ==> chars@[k] != '\0',
        decreases chars.len() - i,
    {
        if chars[i] == '\0' {
            assert(url@[i as int] == '\0');
            return Err(RistError::UrlContainsNul);
        }
        i = i + 1;
    }
    Ok(())
}

/// The outcome of parsing a peer address with librist: a negative status fails, as does a missing
/// configuration.
pub fn peer_config_outcome(status: i32, config_present: bool) -> (r: Result<(), RistError>)
    ensures
        status < 0 ==> r == Err::<(), RistError>(
            RistError::Librist { operation: "rist_parse_address2" },
        ),
        status >= 0 && !config_present ==> r == Err::<(), RistError>(
            RistError::Librist { operation: "rist_parse_address2 returned null config" },
        ),
        status >= 0 && config_present ==> r is Ok,
{
    if status < 0 {
        return Err(RistError::Librist { operation: "rist_parse_address2" });
    }
    if !config_present {
        return Err(RistError::Librist { operation: "rist_parse_address2 returned null config" });
    }
    Ok(())
}

/// What a read from librist gave.
#[derive(Debug, Clone, PartialEq, Eq)]
pub enum ReadOutcome {
    /// The read failed.
    Failed(RistError),
    /// No data before the timeout.
    Nothing,
    /// A data block.
    Block,
}

/// The outcome of a read: a negative status fails; no block means no data yet.
pub fn read_outcome(status: i32, block_present: bool) -> (r: ReadOutcome)
    ensures
        status < 0 ==> r == ReadOutcome::Failed(
            RistError::Librist { operation: "rist_receiver_data_read2" },
        ),
        status >= 0 && !block_present ==> r == ReadOutcome::Nothing,
        status >= 0 && block_present ==> r == ReadOutcome::Block,
{
    if status < 0 {
        return ReadOutcome::Failed(RistError::Librist { operation: "rist_receiver_data_read2" });
    }
    if !block_present {
        return ReadOutcome::Nothing;
    }
    ReadOutcome::Block
}

/// Checks a data block's payload: an empty block is fine; a non-empty block must have its bytes.
/// Returns whether there are bytes to copy.
pub fn check_payload(payload_len: usize, payload_present: bool) -> (r: Result<bool, RistError>)
    ensures
        payload_len == 0 ==> r == Ok::<bool, RistError>(false),
        payload_len > 0 && !payload_present ==> r == Err::<bool, RistError>(
            RistError::InvalidDataBlock {
                reason: "librist returned a null payload for a non-empty data block",
            },
        ),
        payload_len > 0 && payload_present ==> r == Ok::<bool, RistError>(true),
{
    if payload_len == 0 {
        return Ok(false);
    }
    if !payload_present {
        return Err(
            RistError::InvalidDataBlock {
                reason: "librist returned a null payload for a non-empty data block",
            },
        );
    }
    Ok(true)
}

} // verus!

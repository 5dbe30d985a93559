//! Safe parts of the librist binding: log levels and profiles with their C values, the errors of
//! the logging bridge, how a log callback from the C library is dispatched, and what the standard
//! error logger prints.

use std::sync::Arc;
use vstd::prelude::*;

use crate::rist::{RIST_PROFILE_ADVANCED, RIST_PROFILE_MAIN, RIST_PROFILE_SIMPLE};
use crate::text::{chars_of, string_of};

verus! {

#[verifier::external_type_specification]
#[verifier::external_body]
pub struct ExUtf8Error(std::str::Utf8Error);

/// `Utf8Error` is `Copy`: its `clone` gives back the same value.
pub assume_specification[ <std::str::Utf8Error as Clone>::clone ](e: &std::str::Utf8Error) -> (c:
    std::str::Utf8Error)
    ensures
        c == *e,
;

/// `rist_log_level` of librist: `RIST_LOG_DISABLE`.
pub const RIST_LOG_DISABLE: i32 = -1;

/// `rist_log_level` of librist: `RIST_LOG_ERROR`.
pub const RIST_LOG_ERROR: i32 = 3;

/// `rist_log_level` of librist: `RIST_LOG_WARN`.
pub const RIST_LOG_WARN: i32 = 4;

/// `rist_log_level` of librist: `RIST_LOG_NOTICE`.
pub const RIST_LOG_NOTICE: i32 = 5;

/// `rist_log_level` of librist: `RIST_LOG_INFO`.
pub const RIST_LOG_INFO: i32 = 6;

/// `rist_log_level` of librist: `RIST_LOG_DEBUG`.
pub const RIST_LOG_DEBUG: i32 = 7;

/// `rist_log_level` of librist: `RIST_LOG_SIMULATE`.
pub const RIST_LOG_SIMULATE: i32 = 100;

/// A C value that names no variant of the Rust enum.
#[derive(Debug, Clone)]
pub struct RistUnknownEnumVariantError {
    pub message: &'static str,
}

/// A null pointer where the C library must pass a valid one.
#[derive(Debug, Clone)]
pub struct RistInvalidPointerError {
    pub message: &'static str,
}

/// A log level of librist, from `Disable` (log nothing) to `Simulate` (log everything).
#[derive(Debug, Clone, Copy, PartialEq, Eq, Structural)]
pub enum RistLogLevel {
    Disable,
    Error,
    Warn,
    Notice,
    Info,
    Debug,
    Simulate,
}

impl Default for RistLogLevel {
    fn default() -> (l: Self)
        ensures
            l == RistLogLevel::Disable,
    {
        RistLogLevel::Disable
    }
}

/// The place of a level in the order `Disable` < `Error` < ... < `Simulate`.
pub open spec fn rank(l: RistLogLevel) -> nat {
    match l {
        RistLogLevel::Disable => 0,
        RistLogLevel::Error => 1,
        RistLogLevel::Warn => 2,
        RistLogLevel::Notice => 3,
        RistLogLevel::Info => 4,
        RistLogLevel::Debug => 5,
        RistLogLevel::Simulate => 6,
    }
}

/// The C value of a level.
pub open spec fn raw_of(l: RistLogLevel) -> i32 {
    match l {
        RistLogLevel::Disable => RIST_LOG_DISABLE,
        RistLogLevel::Error => RIST_LOG_ERROR,
        RistLogLevel::Warn => RIST_LOG_WARN,
        RistLogLevel::Notice => RIST_LOG_NOTICE,
        RistLogLevel::Info => RIST_LOG_INFO,
        RistLogLevel::Debug => RIST_LOG_DEBUG,
        RistLogLevel::Simulate => RIST_LOG_SIMULATE,
    }
}

/// The level a C value names, if any.
pub open spec fn level_of_raw(raw: i32) -> Option<RistLogLevel> {
    if raw == RIST_LOG_DISABLE {
        Some(RistLogLevel::Disable)
    } else if raw == RIST_LOG_ERROR {
        Some(RistLogLevel::Error)
    } else if raw == RIST_LOG_WARN {
        Some(RistLogLevel::Warn)
    } else if raw == RIST_LOG_NOTICE {
        Some(RistLogLevel::Notice)
    } else if raw == RIST_LOG_INFO {
        Some(RistLogLevel::Info)
    } else if raw == RIST_LOG_DEBUG {
        Some(RistLogLevel::Debug)
    } else if raw == RIST_LOG_SIMULATE {
        Some(RistLogLevel::Simulate)
    } else {
        None
    }
}

/// The name a level is printed with.
pub open spec fn level_name(l: RistLogLevel) -> Seq<char> {
    match l {
        RistLogLevel::Disable => "Disable"@,
        RistLogLevel::Error => "Error"@,
        RistLogLevel::Warn => "Warn"@,
        RistLogLevel::Notice => "Notice"@,
        RistLogLevel::Info => "Info"@,
        RistLogLevel::Debug => "Debug"@,
        RistLogLevel::Simulate => "Simulate"@,
    }
}

impl RistLogLevel {
    /// Whether this level is at or above `other` in the order `Disable` < `Error` < `Warn` <
    /// `Notice` < `Info` < `Debug` < `Simulate`.
    pub fn is_important_than_or_equal_to(&self, other: &RistLogLevel) -> (b: bool)
        ensures
            b == (rank(*self) >= rank(*other)),
    {
        self.rank_value() >= other.rank_value()
    }

    fn rank_value(&self) -> (r: u32)
        ensures
            r == rank(*self),
    {
        match self {
            RistLogLevel::Disable => 0,
            RistLogLevel::Error => 1,
            RistLogLevel::Warn => 2,
            RistLogLevel::Notice => 3,
            RistLogLevel::Info => 4,
            RistLogLevel::Debug => 5,
            RistLogLevel::Simulate => 6,
        }
    }

    /// The name the level is printed with.
    pub fn name(&self) -> (s: &'static str)
        ensures
            s@ == level_name(*self),
    {
        match self {
            RistLogLevel::Disable => "Disable",
            RistLogLevel::Error => "Error",
            RistLogLevel::Warn => "Warn",
            RistLogLevel::Notice => "Notice",
            RistLogLevel::Info => "Info",
            RistLogLevel::Debug => "Debug",
            RistLogLevel::Simulate => "Simulate",
        }
    }

    /// The level's C value.
    pub fn to_raw(&self) -> (raw: i32)
        ensures
            raw == raw_of(*self),
    {
        match self {
            RistLogLevel::Disable => RIST_LOG_DISABLE,
            RistLogLevel::Error => RIST_LOG_ERROR,
            RistLogLevel::Warn => RIST_LOG_WARN,
            RistLogLevel::Notice => RIST_LOG_NOTICE,
            RistLogLevel::Info => RIST_LOG_INFO,
            RistLogLevel::Debug => RIST_LOG_DEBUG,
            RistLogLevel::Simulate => RIST_LOG_SIMULATE,
        }
    }

    /// The level a C value names; an unknown value is an error.
    pub fn try_from_raw(raw: i32) -> (r: Result<Self, RistUnknownEnumVariantError>)
        ensures
            match level_of_raw(raw) {
                Some(l) => r matches Ok(x) && x == l,
                None => r matches Err(e) && e.message@ == "Unknown rist_log_level variant"@,
            },
    {
        if raw == RIST_LOG_DISABLE {
            Ok(RistLogLevel::Disable)
        } else if raw == RIST_LOG_ERROR {
            Ok(RistLogLevel::Error)
        } else if raw == RIST_LOG_WARN {
            Ok(RistLogLevel::Warn)
        } else if raw == RIST_LOG_NOTICE {
            Ok(RistLogLevel::Notice)
        } else if raw == RIST_LOG_INFO {
            Ok(RistLogLevel::Info)
        } else if raw == RIST_LOG_DEBUG {
            Ok(RistLogLevel::Debug)
        } else if raw == RIST_LOG_SIMULATE {
            Ok(RistLogLevel::Simulate)
        } else {
            Err(RistUnknownEnumVariantError { message: "Unknown rist_log_level variant" })
        }
    }
}

/// A level survives the trip to its C value and back.
pub proof fn lemma_log_level_raw_round_trip(l: RistLogLevel)
    ensures
        level_of_raw(raw_of(l)) == Some(l),
{
}

/// Distinct levels have distinct C values.
pub proof fn lemma_log_level_raw_injective(a: RistLogLevel, b: RistLogLevel)
    requires
        raw_of(a) == raw_of(b),
    ensures
        a == b,
{
}

/// Each level's C value is librist's constant for that level (`Disable` -1, `Error` 3, `Warn` 4,
/// `Notice` 5, `Info` 6, `Debug` 7, `Simulate` 100), so the C values grow strictly with
/// importance, and a C value reads back as a level exactly when it is that level's value.
pub proof fn lemma_log_level_raw_values(a: RistLogLevel, b: RistLogLevel, raw: i32)
    ensures
        raw_of(RistLogLevel::Disable) == -1,
        raw_of(RistLogLevel::Error) == 3,
        raw_of(RistLogLevel::Warn) == 4,
        raw_of(RistLogLevel::Notice) == 5,
        raw_of(RistLogLevel::Info) == 6,
        raw_of(RistLogLevel::Debug) == 7,
        raw_of(RistLogLevel::Simulate) == 100,
        rank(a) < rank(b) ==> raw_of(a) < raw_of(b),
        level_of_raw(raw) == Some(a) <==> raw_of(a) == raw,
{
}

/// Each level is printed with its own name.
pub proof fn lemma_log_level_names()
    ensures
        level_name(RistLogLevel::Disable) == "Disable"@,
        level_name(RistLogLevel::Error) == "Error"@,
        level_name(RistLogLevel::Warn) == "Warn"@,
        level_name(RistLogLevel::Notice) == "Notice"@,
        level_name(RistLogLevel::Info) == "Info"@,
        level_name(RistLogLevel::Debug) == "Debug"@,
        level_name(RistLogLevel::Simulate) == "Simulate"@,
{
}

/// "At or above" orders the levels totally: it is reflexive, transitive, total, and holds both
/// ways only between equal levels.
pub proof fn lemma_importance_is_total_order(a: RistLogLevel, b: RistLogLevel, c: RistLogLevel)
    ensures
        rank(a) >= rank(a),
        rank(a) >= rank(b) && rank(b) >= rank(c) ==> rank(a) >= rank(c),
        rank(a) >= rank(b) || rank(b) >= rank(a),
        rank(a) >= rank(b) && rank(b) >= rank(a) ==> a == b,
{
}

/// A RIST profile, as the binding names it.
#[derive(Debug, Clone, Copy, PartialEq, Eq, Structural)]
pub enum RistProfile {
    Simple,
    Main,
    Advanced,
}

impl RistProfile {
    /// The profile's C value.
    pub fn to_raw(self) -> (raw: u32)
        ensures
            raw == match self {
                RistProfile::Simple => RIST_PROFILE_SIMPLE,
                RistProfile::Main => RIST_PROFILE_MAIN,
                RistProfile::Advanced => RIST_PROFILE_ADVANCED,
            },
    {
        match self {
            RistProfile::Simple => RIST_PROFILE_SIMPLE,
            RistProfile::Main => RIST_PROFILE_MAIN,
            RistProfile::Advanced => RIST_PROFILE_ADVANCED,
        }
    }
}

/// A user logger failed; the C library's callback then returns a non-zero value.
#[derive(Debug, Clone)]
pub struct RistCallBackLoggerUserCBFailedError {}

/// What the logging bridge found wrong with a call from the C library.
#[derive(Debug, Clone)]
pub enum RistCallBackLoggerError {
    UnknownEnumVariant(RistUnknownEnumVariantError),
    InvalidPointer(RistInvalidPointerError),
    Utf8Error(std::str::Utf8Error),
}

/// The message of a log callback, as the bridge found it.
#[derive(Debug, Clone)]
pub enum CallbackMessage {
    /// A null pointer.
    Missing,
    /// Bytes that are no UTF-8.
    NotUtf8(std::str::Utf8Error),
    /// Text.
    Text,
}

/// Where a log callback from the C library goes.
#[derive(Debug, Clone)]
pub enum LogDispatch {
    /// There is no logger to call: report the error without one.
    MalformedGlobal(RistCallBackLoggerError),
    /// Report the error to the logger.
    Malformed(RistCallBackLoggerError),
    /// Hand the message, with this level, to the logger.
    Call(RistLogLevel),
}

/// Dispatches a log callback: a missing logger is reported without one; then an unknown level,
/// a missing message and a message that is no UTF-8, in that order, are reported to the logger;
/// otherwise the logger gets the message.
pub fn dispatch_log_callback(logger_present: bool, raw_level: i32, message: CallbackMessage) -> (d:
    LogDispatch)
    ensures
        !logger_present ==> (d matches LogDispatch::MalformedGlobal(
            RistCallBackLoggerError::InvalidPointer(e),
        ) && e.message@ == "Invalid pointer for `arg` in log_cb."@),
        logger_present && level_of_raw(raw_level) is None ==> (d matches LogDispatch::Malformed(
            RistCallBackLoggerError::UnknownEnumVariant(e),
        ) && e.message@ == "Unknown rist_log_level variant"@),
        logger_present && level_of_raw(raw_level) is Some && message is Missing ==> (
        d matches LogDispatch::Malformed(RistCallBackLoggerError::InvalidPointer(e)) && e.message@
            == "Invalid pointer for `msg` in log_cb."@),
        logger_present && level_of_raw(raw_level) is Some && message is NotUtf8 ==> (
        d matches LogDispatch::Malformed(RistCallBackLoggerError::Utf8Error(e)) && e
            == message->NotUtf8_0),
        logger_present && level_of_raw(raw_level) is Some && message is Text ==> (d
            matches LogDispatch::Call(l) && Some(l) == level_of_raw(raw_level)),
{
    if !logger_present {
        return LogDispatch::MalformedGlobal(
            RistCallBackLoggerError::InvalidPointer(
                RistInvalidPointerError { message: "Invalid pointer for `arg` in log_cb." },
            ),
        );
    }
    let level = match RistLogLevel::try_from_raw(raw_level) {
        Ok(l) => l,
        Err(e) => {
            return LogDispatch::Malformed(RistCallBackLoggerError::UnknownEnumVariant(e));
        },
    };
    match message {
        CallbackMessage::Missing => LogDispatch::Malformed(
            RistCallBackLoggerError::InvalidPointer(
                RistInvalidPointerError { message: "Invalid pointer for `msg` in log_cb." },
            ),
        ),
        CallbackMessage::NotUtf8(e) => LogDispatch::Malformed(
            RistCallBackLoggerError::Utf8Error(e),
        ),
        CallbackMessage::Text => LogDispatch::Call(level),
    }
}

/// The value a log callback returns to the C library: 1 when the logger failed, else 0.
pub fn callback_status(result: &Result<(), RistCallBackLoggerUserCBFailedError>) -> (status: i32)
    ensures
        status == if result is Err {
            1i32
        } else {
            0i32
        },
{
    if result.is_err() {
        1
    } else {
        0
    }
}

/// The line the standard-error logger prints for a message: `[Level] message`.
pub open spec fn stderr_line_spec(level: RistLogLevel, msg: Seq<char>) -> Seq<char> {
    seq!['['] + level_name(level) + seq![']', ' '] + msg
}

/// A logger that prints to standard error the messages at or below its level of detail.
#[derive(Debug, Clone, Copy, PartialEq, Eq, Structural)]
pub struct RistStderrCallBackLogger {
    log_level: RistLogLevel,
}

impl RistStderrCallBackLogger {
    /// The level of detail the logger prints up to.
    pub closed spec fn level_spec(&self) -> RistLogLevel {
        self.log_level
    }

    /// A logger that prints messages up to `log_level`.
    pub fn new(log_level: RistLogLevel) -> (l: Self)
        ensures
            l.level_spec() == log_level,
    {
        RistStderrCallBackLogger { log_level }
    }

    /// The line to print for a message at `log_level`: printed when the logger's level is at or
    /// above it, otherwise nothing.
    pub fn line_for(&self, log_level: &RistLogLevel, msg: &str) -> (line: Option<String>)
        ensures
            rank(self.level_spec()) >= rank(*log_level) ==> (line matches Some(s) && s@
                == stderr_line_spec(*log_level, msg@)),
            rank(self.level_spec()) < rank(*log_level) ==> line is None,
    {
        if !self.log_level.is_important_than_or_equal_to(log_level) {
            return None;
        }
        let mut out: Vec<char> = Vec::new();
        out.push('[');
        let mut name = chars_of(log_level.name());
        out.append(&mut name);
        out.push(']');
        out.push(' ');
        let mut text = chars_of(msg);
        out.append(&mut text);
        assert(out@ =~= stderr_line_spec(*log_level, msg@));
        Some(string_of(&out))
    }
}

/// How the C library is to log: through a callback logger, or not at all.
pub enum RistLoggerBuilder<CBLogger> {
    CallBack(Arc<CBLogger>),
    NoLogging,
}

impl<CBLogger> Default for RistLoggerBuilder<CBLogger> {
    fn default() -> (b: Self)
        ensures
            b is NoLogging,
    {
        RistLoggerBuilder::NoLogging
    }
}

impl<CBLogger> Clone for RistLoggerBuilder<CBLogger> {
    fn clone(&self) -> (c: Self)
        ensures
            c is CallBack <==> self is CallBack,
    {
        match self {
            RistLoggerBuilder::CallBack(logger) => RistLoggerBuilder::CallBack(Arc::clone(logger)),
            RistLoggerBuilder::NoLogging => RistLoggerBuilder::NoLogging,
        }
    }
}

impl<CBLogger> RistLoggerBuilder<CBLogger> {
    /// Whether the C library gets a log callback.
    pub fn has_callback(&self) -> (b: bool)
        ensures
            b == self is CallBack,
    {
        match self {
            RistLoggerBuilder::CallBack(_) => true,
            RistLoggerBuilder::NoLogging => false,
        }
    }
}

/// The logging settings to hand to the C library: a level and a logger.
pub struct RistLoggingSettingsBuilder<CBLogger> {
    pub log_level: RistLogLevel,
    pub logger: RistLoggerBuilder<CBLogger>,
}

impl<CBLogger> Default for RistLoggingSettingsBuilder<CBLogger> {
    fn default() -> (b: Self)
        ensures
            b.log_level == RistLogLevel::Disable,
            b.logger is NoLogging,
    {
        RistLoggingSettingsBuilder { log_level: RistLogLevel::Disable, logger: RistLoggerBuilder::NoLogging }
    }
}

impl<CBLogger> Clone for RistLoggingSettingsBuilder<CBLogger> {
    fn clone(&self) -> (c: Self)
        ensures
            c.log_level == self.log_level,
            c.logger is CallBack <==> self.logger is CallBack,
    {
        RistLoggingSettingsBuilder { log_level: self.log_level, logger: self.logger.clone() }
    }
}

impl<CBLogger> RistLoggingSettingsBuilder<CBLogger> {
    /// The C value of the configured level.
    pub fn raw_log_level(&self) -> (raw: i32)
        ensures
            raw == raw_of(self.log_level),
    {
        self.log_level.to_raw()
    }
}

} // verus!

//! The protocol end-to-end harness: its configuration, argument handling and the checks it makes
//! between sending a reference stream and comparing what was received.

use std::collections::BTreeMap;
use vstd::prelude::*;

use crate::text::{
    chars_lt, chars_of, decimal, decimal_chars, lemma_chars_lt_asymmetric, lemma_chars_lt_irreflexive,
    lemma_chars_lt_transitive,
    find_char, lemma_find_char, replace_all, replace_str, str_equals, string_from_str, string_of,
};

verus! {

/// Which decoded streams of the reference and the received file are compared.
#[derive(Debug, Clone, PartialEq, Eq, Structural)]
pub enum CompareMode {
    Both,
    Video,
    Audio,
    /// No stream is compared (`none`).
    Neither,
}

/// Errors of the end-to-end harness.
#[derive(Debug, Clone, PartialEq, Eq)]
pub enum E2eError {
    /// A `--compare` value that names no mode.
    UnknownCompareMode(String),
    /// Neither a sender URL nor `--skip-send` was given.
    SenderUrlRequired,
    /// Neither a receiver command nor a done marker was given.
    ReceiverRequired,
    /// `--skip-send` without a done marker.
    SkipSendRequiresReceiverDone,
    /// A zero `--duration`.
    ZeroDuration,
    /// A zero `--receiver-timeout`.
    ZeroReceiverTimeout,
    /// The fingerprints of a stream differ; the label names the stream.
    FingerprintMismatch { label: String, expected: StreamFingerprint, actual: StreamFingerprint },
}

/// The last `width` hexadecimal digits of `n`, lowercase, most significant first.
pub open spec fn hex_digits(n: nat, width: nat) -> Seq<char>
    decreases width,
{
    if width == 0 {
        Seq::empty()
    } else {
        hex_digits(n / 16, (width - 1) as nat).push(hex_char(n % 16))
    }
}

/// The lowercase hexadecimal digit for `d` below sixteen.
pub open spec fn hex_char(d: nat) -> char {
    if d < 10 {
        ((d + 48) as u32) as char
    } else {
        ((d + 87) as u32) as char
    }
}

/// The message of a harness error.
pub open spec fn e2e_error_message(e: E2eError) -> Seq<char> {
    match e {
        E2eError::UnknownCompareMode(v) => "unknown compare mode: "@ + v@,
        E2eError::SenderUrlRequired => "--sender-url is required"@,
        E2eError::ReceiverRequired => "--receiver or --receiver-done is required"@,
        E2eError::SkipSendRequiresReceiverDone => "--skip-send requires --receiver-done"@,
        E2eError::ZeroDuration => "--duration must be greater than zero"@,
        E2eError::ZeroReceiverTimeout => "--receiver-timeout must be greater than zero"@,
        E2eError::FingerprintMismatch { label, expected, actual } => label@
            + " fingerprint mismatch: expected "@ + decimal(expected.bytes as nat) + " bytes hash "@
            + hex_digits(expected.hash as nat, 16) + ", got "@ + decimal(actual.bytes as nat)
            + " bytes hash "@ + hex_digits(actual.hash as nat, 16),
    }
}

fn hex_chars(n: u64) -> (out: Vec<char>)
    ensures
        out@ == hex_digits(n as nat, 16),
{
    let mut digits: Vec<char> = Vec::new();
    let mut rest: u64 = n;
    let mut k: usize = 0;
    while k < 16
        invariant
            k <= 16,
            digits@.len() == k,
            hex_digits(n as nat, 16) == hex_digits(rest as nat, (16 - k) as nat) + digits@,
        decreases 16 - k,
    {
        let d = rest % 16;
        let c: char = if d < 10 {
            ((d + 48) as u8) as char
        } else {
            ((d + 87) as u8) as char
        };
        assert(c == hex_char(d as nat));
        let ghost before = digits@;
        digits.insert(0, c);
        assert(digits@ =~= seq![c] + before);
        assert(hex_digits(rest as nat, (16 - k) as nat) == hex_digits(
            (rest / 16) as nat,
            (16 - k - 1) as nat,
        ).push(c));
        assert(hex_digits((rest / 16) as nat, (16 - k - 1) as nat).push(c) + before
            =~= hex_digits((rest / 16) as nat, (16 - k - 1) as nat) + digits@);
        rest = rest / 16;
        k = k + 1;
    }
    assert(hex_digits(rest as nat, 0) =~= Seq::<char>::empty());
    assert(digits@ =~= Seq::<char>::empty() + digits@);
    digits
}

fn text_of(parts: &mut Vec<char>, s: &str)
    ensures
        final(parts)@ == old(parts)@ + s@,
{
    let mut more = chars_of(s);
    parts.append(&mut more);
}

impl E2eError {
    /// The error's message.
    pub fn message(&self) -> (m: String)
        ensures
            m@ == e2e_error_message(*self),
    {
        match self {
            E2eError::UnknownCompareMode(v) => {
                let mut out = chars_of("unknown compare mode: ");
                text_of(&mut out, v.as_str());
                string_of(&out)
            },
            E2eError::SenderUrlRequired => string_from_str("--sender-url is required"),
            E2eError::ReceiverRequired => string_from_str(
                "--receiver or --receiver-done is required",
            ),
            E2eError::SkipSendRequiresReceiverDone => string_from_str(
                "--skip-send requires --receiver-done",
            ),
            E2eError::ZeroDuration => string_from_str("--duration must be greater than zero"),
            E2eError::ZeroReceiverTimeout => string_from_str(
                "--receiver-timeout must be greater than zero",
            ),
            E2eError::FingerprintMismatch { label, expected, actual } => {
                let mut out = chars_of(label.as_str());
                text_of(&mut out, " fingerprint mismatch: expected ");
                let mut a = decimal_chars(expected.bytes as u128);
                out.append(&mut a);
                text_of(&mut out, " bytes hash ");
                let mut b = hex_chars(expected.hash);
                out.append(&mut b);
                text_of(&mut out, ", got ");
                let mut c = decimal_chars(actual.bytes as u128);
                out.append(&mut c);
                text_of(&mut out, " bytes hash ");
                let mut d = hex_chars(actual.hash);
                out.append(&mut d);
                string_of(&out)
            },
        }
    }
}

/// A span of time: whole seconds and the nanoseconds beyond them.
#[derive(Debug, Clone, Copy, PartialEq, Eq, Structural)]
pub struct Duration {
    pub secs: u64,
    pub nanos: u32,
}

impl Duration {
    /// `secs` seconds.
    pub fn from_secs(secs: u64) -> (d: Duration)
        ensures
            d.secs == secs,
            d.nanos == 0,
    {
        Duration { secs, nanos: 0 }
    }

    /// `millis` milliseconds.
    pub fn from_millis(millis: u64) -> (d: Duration)
        ensures
            d.secs == millis / 1000,
            d.nanos == (millis % 1000) * 1_000_000,
    {
        Duration { secs: millis / 1000, nanos: ((millis % 1000) * 1_000_000) as u32 }
    }

    /// Whether the span is empty.
    pub fn is_zero(&self) -> (b: bool)
        ensures
            b == (self.secs == 0 && self.nanos == 0),
    {
        self.secs == 0 && self.nanos == 0
    }
}

/// The length of a decoded stream and the FNV-1a hash of its bytes.
#[derive(Debug, Clone, Copy, PartialEq, Eq, Structural)]
pub struct StreamFingerprint {
    pub bytes: usize,
    pub hash: u64,
}

/// The configuration of a protocol end-to-end run. Paths are kept as the text given.
#[derive(Debug, Clone)]
pub struct ProtocolE2eConfig {
    pub sender_url: String,
    pub receiver: String,
    pub receiver_url: Option<String>,
    pub receiver_done: Option<String>,
    pub output: Option<String>,
    pub work_dir: Option<String>,
    pub host: String,
    pub port: Option<u16>,
    pub duration: Duration,
    pub startup_delay: Duration,
    pub receiver_timeout: Duration,
    pub compare: CompareMode,
    pub skip_send: bool,
    pub ignore_sender_exit_status: bool,
    pub keep_work_dir: bool,
}

/// The default configuration: no sender or receiver, host `127.0.0.1`, a port to be reserved,
/// five seconds of stream, 800 ms of startup delay, a ten-second receiver timeout, both streams
/// compared.
pub open spec fn is_default_config(c: ProtocolE2eConfig) -> bool {
    &&& c.sender_url@.len() == 0
    &&& c.receiver@.len() == 0
    &&& c.receiver_url is None
    &&& c.receiver_done is None
    &&& c.output is None
    &&& c.work_dir is None
    &&& c.host@ == "127.0.0.1"@
    &&& c.port is None
    &&& c.duration == Duration { secs: 5, nanos: 0 }
    &&& c.startup_delay == Duration { secs: 0, nanos: 800_000_000 }
    &&& c.receiver_timeout == Duration { secs: 10, nanos: 0 }
    &&& c.compare == CompareMode::Both
    &&& !c.skip_send
    &&& !c.ignore_sender_exit_status
    &&& !c.keep_work_dir
}

impl ProtocolE2eConfig {
    /// The default configuration.
    pub fn default_config() -> (c: Self)
        ensures
            is_default_config(c),
    {
        ProtocolE2eConfig {
            sender_url: String::new(),
            receiver: String::new(),
            receiver_url: None,
            receiver_done: None,
            output: None,
            work_dir: None,
            host: string_from_str("127.0.0.1"),
            port: None,
            duration: Duration::from_secs(5),
            startup_delay: Duration::from_millis(800),
            receiver_timeout: Duration::from_secs(10),
            compare: CompareMode::Both,
            skip_send: false,
            ignore_sender_exit_status: false,
            keep_work_dir: false,
        }
    }
}

/// The error, if any, that `validate_config` reports for `c`.
pub open spec fn config_problem(c: ProtocolE2eConfig) -> Option<E2eError> {
    if c.sender_url@.len() == 0 && !c.skip_send {
        Some(E2eError::SenderUrlRequired)
    } else if c.receiver@.len() == 0 && c.receiver_done is None {
        Some(E2eError::ReceiverRequired)
    } else if c.receiver_done is None && c.skip_send {
        Some(E2eError::SkipSendRequiresReceiverDone)
    } else if c.duration.secs == 0 && c.duration.nanos == 0 {
        Some(E2eError::ZeroDuration)
    } else if c.receiver_timeout.secs == 0 && c.receiver_timeout.nanos == 0 {
        Some(E2eError::ZeroReceiverTimeout)
    } else {
        None
    }
}

/// Checks that the configuration can run: a sender URL unless sending is skipped, a receiver
/// command or a done marker, a done marker when sending is skipped, and non-zero duration and
/// receiver timeout.
pub fn validate_config(config: &ProtocolE2eConfig) -> (r: Result<(), E2eError>)
    ensures
        match config_problem(*config) {
            Some(e) => r == Err::<(), E2eError>(e),
            None => r is Ok,
        },
{
    if config.sender_url.as_str().unicode_len() == 0 && !config.skip_send {
        return Err(E2eError::SenderUrlRequired);
    }
    if config.receiver.as_str().unicode_len() == 0 && config.receiver_done.is_none() {
        return Err(E2eError::ReceiverRequired);
    }
    if config.receiver_done.is_none() && config.skip_send {
        return Err(E2eError::SkipSendRequiresReceiverDone);
    }
    if config.duration.is_zero() {
        return Err(E2eError::ZeroDuration);
    }
    if config.receiver_timeout.is_zero() {
        return Err(E2eError::ZeroReceiverTimeout);
    }
    Ok(())
}

/// The body of a single-quoted shell word for `s`: each `'` written as `'\''`.
pub open spec fn quote_body(s: Seq<char>) -> Seq<char>
    decreases s.len(),
{
    if s.len() == 0 {
        Seq::empty()
    } else {
        let rest = quote_body(s.drop_last());
        if s.last() == '\'' {
            rest + seq!['\'', '\\', '\'', '\'']
        } else {
            rest.push(s.last())
        }
    }
}

/// `s` as one single-quoted shell word.
pub open spec fn shell_quoted(s: Seq<char>) -> Seq<char> {
    seq!['\''] + quote_body(s) + seq!['\'']
}

/// `value` quoted for a POSIX shell: in single quotes, each `'` closed, escaped and reopened.
pub fn shell_quote(value: &str) -> (quoted: String)
    ensures
        quoted@ == shell_quoted(value@),
{
    let chars = chars_of(value);
    let mut out: Vec<char> = Vec::new();
    out.push('\'');
    let mut i: usize = 0;
    while i < chars.len()
        invariant
            i <= chars.len(),
            chars@ == value@,
            out@ == seq!['\''] + quote_body(chars@.take(i as int)),
        decreases chars.len() - i,
    {
        let c = chars[i];
        assert(chars@.take(i + 1).drop_last() =~= chars@.take(i as int));
        if c == '\'' {
            out.push('\'');
            out.push('\\');
            out.push('\'');
            out.push('\'');
        } else {
            out.push(c);
        }
        i = i + 1;
        assert(out@ =~= seq!['\''] + quote_body(chars@.take(i as int)));
    }
    out.push('\'');
    assert(chars@.take(chars.len() as int) =~= chars@);
    assert(out@ =~= shell_quoted(value@));
    string_of(&out)
}

/// A path quoted for a POSIX shell.
pub fn shell_quote_path(path: &str) -> (quoted: String)
    ensures
        quoted@ == shell_quoted(path@),
{
    shell_quote(path)
}

/// The value a POSIX shell reads from a word made of single-quoted parts, backslash escapes and
/// plain characters; `None` when a single quote is left open.
pub open spec fn shell_word_value(w: Seq<char>) -> Option<Seq<char>>
    decreases w.len(),
{
    if w.len() == 0 {
        Some(Seq::empty())
    } else if w[0] == '\'' {
        match find_char(w.drop_first(), '\'') {
            None => None,
            Some(i) => {
                proof {
                    lemma_find_char(w.drop_first(), '\'');
                }
                match shell_word_value(w.skip(i + 2 as int)) {
                    Some(rest) => Some(w.subrange(1, i + 1 as int) + rest),
                    None => None,
                }
            },
        }
    } else if w[0] == '\\' && w.len() >= 2 {
        match shell_word_value(w.skip(2)) {
            Some(rest) => Some(seq![w[1]] + rest),
            None => None,
        }
    } else {
        match shell_word_value(w.drop_first()) {
            Some(rest) => Some(seq![w[0]] + rest),
            None => None,
        }
    }
}

proof fn lemma_quote_body_concat(a: Seq<char>, b: Seq<char>)
    ensures
        quote_body(a + b) == quote_body(a) + quote_body(b),
    decreases b.len(),
{
    if b.len() == 0 {
        assert(a + b =~= a);
        assert(quote_body(a) + quote_body(b) =~= quote_body(a));
    } else {
        lemma_quote_body_concat(a, b.drop_last());
        assert((a + b).drop_last() =~= a + b.drop_last());
        assert((a + b).last() == b.last());
        if b.last() == '\'' {
            assert(quote_body(a) + quote_body(b) =~= quote_body(a) + quote_body(b.drop_last())
                + seq!['\'', '\\', '\'', '\'']);
        } else {
            assert(quote_body(a) + quote_body(b) =~= (quote_body(a) + quote_body(b.drop_last())).push(
                b.last(),
            ));
        }
    }
}

proof fn lemma_quote_body_plain(a: Seq<char>)
    requires
        forall|k: int| 0 <= k < a.len() ==> a[k] != '\'',
    ensures
        quote_body(a) == a,
    decreases a.len(),
{
    if a.len() > 0 {
        lemma_quote_body_plain(a.drop_last());
        assert(a.drop_last().push(a.last()) =~= a);
    }
}

/// A shell reads back exactly the value that was quoted.
pub proof fn lemma_shell_quote_reads_back(s: Seq<char>)
    ensures
        shell_word_value(shell_quoted(s)) == Some(s),
    decreases s.len(),
{
    let w = shell_quoted(s);
    lemma_find_char(s, '\'');
    match find_char(s, '\'') {
        None => {
            lemma_quote_body_plain(s);
            assert(w =~= seq!['\''] + s + seq!['\'']);
            assert(w.drop_first() =~= s + seq!['\'']);
            lemma_find_char_first_after(s, '\'');
            assert(find_char(w.drop_first(), '\'') == Some(s.len()));
            assert(w.skip(s.len() + 2 as int) =~= Seq::<char>::empty());
            assert(w.subrange(1, s.len() + 1 as int) =~= s);
            assert(s + Seq::<char>::empty() =~= s);
            assert(w[0] == '\'');
            assert(shell_word_value(Seq::<char>::empty()) == Some(Seq::<char>::empty()));
            assert(shell_word_value(w) == Some(s));
        },
        Some(i) => {
            let a = s.take(i as int);
            let b = s.skip(i + 1 as int);
            assert(s =~= a + seq!['\''] + b);
            assert forall|k: int| 0 <= k < a.len() implies a[k] != '\'' by {
                assert(a[k] == s[k]);
            }
            lemma_quote_body_plain(a);
            lemma_quote_body_concat(a + seq!['\''], b);
            lemma_quote_body_concat(a, seq!['\'']);
            assert(quote_body(seq!['\'']) =~= seq!['\'', '\\', '\'', '\'']) by {
                assert(seq!['\''].drop_last() =~= Seq::<char>::empty());
                assert(seq!['\''].last() == '\'');
                assert(quote_body(Seq::<char>::empty()) =~= Seq::<char>::empty());
            }
            assert(quote_body(s) =~= a + seq!['\'', '\\', '\'', '\''] + quote_body(b));
            assert(w =~= seq!['\''] + a + seq!['\'', '\\', '\''] + shell_quoted(b));
            let after = a + seq!['\'', '\\', '\''] + shell_quoted(b);
            assert(w.drop_first() =~= after);
            lemma_find_char(a, '\'');
            lemma_find_char_first_after(a, '\'');
            lemma_find_char_prefix(a + seq!['\''], seq!['\\', '\''] + shell_quoted(b), '\'');
            assert(after =~= (a + seq!['\'']) + (seq!['\\', '\''] + shell_quoted(b)));
            assert(find_char(after, '\'') == Some(a.len()));
            let rest = w.skip(a.len() + 2 as int);
            assert(rest =~= seq!['\\', '\''] + shell_quoted(b));
            assert(rest.skip(2) =~= shell_quoted(b));
            lemma_shell_quote_reads_back(b);
            assert(w.subrange(1, a.len() + 1 as int) =~= a);
            assert(seq![rest[1]] + b =~= seq!['\''] + b);
            assert(a + (seq!['\''] + b) =~= s);
            assert(rest[0] == '\\' && rest.len() >= 2);
            assert(shell_word_value(rest) == Some(seq!['\''] + b));
            assert(w[0] == '\'');
            assert(shell_word_value(w) == Some(a + (seq!['\''] + b)));
        },
    }
}

/// `c` first occurs in `a + [c]` at the end when `a` has none.
proof fn lemma_find_char_first_after(a: Seq<char>, c: char)
    ensures
        find_char(a, c) is None ==> find_char(a + seq![c], c) == Some(a.len()),
        find_char(a, c) is None ==> find_char(a + seq![c] + Seq::<char>::empty(), c) == Some(
            a.len(),
        ),
    decreases a.len(),
{
    if a.len() > 0 && a[0] != c {
        lemma_find_char_first_after(a.drop_first(), c);
        assert((a + seq![c]).drop_first() =~= a.drop_first() + seq![c]);
    }
    assert(a + seq![c] + Seq::<char>::empty() =~= a + seq![c]);
}

/// Where `c` first occurs in `a` it first occurs in `a + b`.
proof fn lemma_find_char_prefix(a: Seq<char>, b: Seq<char>, c: char)
    ensures
        find_char(a, c) is Some ==> find_char(a + b, c) == find_char(a, c),
    decreases a.len(),
{
    if a.len() > 0 && a[0] != c {
        lemma_find_char_prefix(a.drop_first(), b, c);
        assert((a + b).drop_first() =~= a.drop_first() + b);
    }
}

/// The FNV-1a offset basis.
pub const FNV_OFFSET: u64 = 0xcbf29ce484222325;

/// The FNV-1a prime.
pub const FNV_PRIME: u64 = 0x100000001b3;

/// The 64-bit FNV-1a hash of `bytes`.
pub open spec fn fnv1a64_spec(bytes: Seq<u8>) -> u64
    decreases bytes.len(),
{
    if bytes.len() == 0 {
        FNV_OFFSET
    } else {
        (fnv1a64_spec(bytes.drop_last()) ^ (bytes.last() as u64)).wrapping_mul(FNV_PRIME)
    }
}

/// The inverse of the FNV-1a prime modulo 2^64.
spec fn fnv_prime_inverse() -> nat {
    0xce965057aff6957b
}

/// Multiplying by the FNV-1a prime modulo 2^64 is undone by multiplying by its inverse.
proof fn lemma_fnv_prime_invertible(h: u64)
    ensures
        ((h as nat * FNV_PRIME as nat) % 0x1_0000_0000_0000_0000nat) * fnv_prime_inverse()
            % 0x1_0000_0000_0000_0000nat == h,
{
    let m: int = 0x1_0000_0000_0000_0000;
    let p: int = FNV_PRIME as int;
    let q: int = fnv_prime_inverse() as int;
    assert((0x100000001b3int * 0xce965057aff6957bint) % 0x1_0000_0000_0000_0000int == 1);
    vstd::arithmetic::div_mod::lemma_mul_mod_noop_left(h * p, q, m);
    vstd::arithmetic::mul::lemma_mul_is_associative(h as int, p, q);
    vstd::arithmetic::div_mod::lemma_mul_mod_noop_right(h as int, p * q, m);
    vstd::arithmetic::div_mod::lemma_small_mod(h as nat, m as nat);
}

/// One FNV-1a step, `(h ^ b) * prime` modulo 2^64, tells apart any two different states and
/// any two different bytes.
proof fn lemma_fnv_step_injective(h1: u64, b1: u8, h2: u64, b2: u8)
    requires
        h1 != h2 || b1 != b2,
        h1 == h2 || b1 == b2,
    ensures
        (h1 ^ (b1 as u64)).wrapping_mul(FNV_PRIME) != (h2 ^ (b2 as u64)).wrapping_mul(FNV_PRIME),
{
    let x1: u64 = h1 ^ (b1 as u64);
    let x2: u64 = h2 ^ (b2 as u64);
    let c1: u64 = b1 as u64;
    let c2: u64 = b2 as u64;
    assert(c1 == c2 <==> b1 == b2);
    assert(h1 == h2 && c1 != c2 ==> (h1 ^ c1) != (h2 ^ c2)) by (bit_vector);
    assert(h1 != h2 && c1 == c2 ==> (h1 ^ c1) != (h2 ^ c2)) by (bit_vector);
    assert(x1 != x2);
    lemma_fnv_prime_invertible(x1);
    lemma_fnv_prime_invertible(x2);
}

/// Changing one byte of a stream changes its FNV-1a hash: the hash takes in every bit of every
/// byte, so two streams of the same length that differ in a single byte never share a hash.
pub proof fn lemma_fnv1a64_one_byte_changes_hash(bytes: Seq<u8>, i: int, b: u8)
    requires
        0 <= i < bytes.len(),
        bytes[i] != b,
    ensures
        fnv1a64_spec(bytes.update(i, b)) != fnv1a64_spec(bytes),
    decreases bytes.len(),
{
    let changed = bytes.update(i, b);
    let n = bytes.len() - 1;
    if i == n {
        assert(changed.drop_last() =~= bytes.drop_last());
        lemma_fnv_step_injective(fnv1a64_spec(changed.drop_last()), b, fnv1a64_spec(bytes.drop_last()), bytes.last());
    } else {
        assert(changed.drop_last() =~= bytes.drop_last().update(i, b));
        lemma_fnv1a64_one_byte_changes_hash(bytes.drop_last(), i, b);
        assert(changed.last() == bytes.last());
        lemma_fnv_step_injective(
            fnv1a64_spec(changed.drop_last()),
            changed.last(),
            fnv1a64_spec(bytes.drop_last()),
            bytes.last(),
        );
    }
}

/// The hash starts from the 64-bit FNV offset basis, and a first byte is taken in whole: xored
/// into the basis, then multiplied by the 64-bit FNV prime modulo 2^64.
pub proof fn lemma_fnv1a64_starts_from_offset_basis(b: u8)
    ensures
        fnv1a64_spec(Seq::empty()) == 0xcbf29ce484222325u64,
        fnv1a64_spec(seq![b]) as nat == ((0xcbf29ce484222325u64 ^ (b as u64)) as nat
            * 0x100000001b3nat) % 0x1_0000_0000_0000_0000nat,
{
    assert(seq![b].drop_last() =~= Seq::<u8>::empty());
}

/// The 64-bit FNV-1a hash of `bytes`.
pub fn fnv1a64(bytes: &[u8]) -> (hash: u64)
    ensures
        hash == fnv1a64_spec(bytes@),
{
    let mut hash: u64 = FNV_OFFSET;
    let mut i: usize = 0;
    while i < bytes.len()
        invariant
            i <= bytes.len(),
            hash == fnv1a64_spec(bytes@.take(i as int)),
        decreases bytes.len() - i,
    {
        assert(bytes@.take(i + 1).drop_last() =~= bytes@.take(i as int));
        hash = (hash ^ (bytes[i] as u64)).wrapping_mul(FNV_PRIME);
        i = i + 1;
    }
    assert(bytes@.take(bytes.len() as int) =~= bytes@);
    hash
}

/// The fingerprint of a decoded stream: its length and FNV-1a hash.
pub fn fingerprint_bytes(bytes: &[u8]) -> (f: StreamFingerprint)
    ensures
        f.bytes == bytes@.len(),
        f.hash == fnv1a64_spec(bytes@),
{
    StreamFingerprint { bytes: bytes.len(), hash: fnv1a64(bytes) }
}

/// Checks that the decoded stream `label` matches the reference.
pub fn ensure_same_fingerprint(
    label: &str,
    expected: &StreamFingerprint,
    actual: &StreamFingerprint,
) -> (r: Result<(), E2eError>)
    ensures
        *expected == *actual ==> r is Ok,
        *expected != *actual ==> (r matches Err(
            E2eError::FingerprintMismatch { label: l, expected: e, actual: a },
        ) && l@ == label@ && e == *expected && a == *actual),
{
    if expected.bytes != actual.bytes || expected.hash != actual.hash {
        return Err(
            E2eError::FingerprintMismatch {
                label: string_from_str(label),
                expected: *expected,
                actual: *actual,
            },
        );
    }
    Ok(())
}

/// The mode that `value` names, if any.
pub open spec fn compare_mode_named(value: Seq<char>) -> Option<CompareMode> {
    if value == "both"@ {
        Some(CompareMode::Both)
    } else if value == "video"@ {
        Some(CompareMode::Video)
    } else if value == "audio"@ {
        Some(CompareMode::Audio)
    } else if value == "none"@ {
        Some(CompareMode::Neither)
    } else {
        None
    }
}

impl CompareMode {
    /// Parses `both`, `video`, `audio` or `none`.
    pub fn parse(value: &str) -> (r: Result<Self, E2eError>)
        ensures
            match compare_mode_named(value@) {
                Some(mode) => r == Ok::<Self, E2eError>(mode),
                None => r matches Err(E2eError::UnknownCompareMode(v)) && v@ == value@,
            },
    {
        if str_equals(value, "both") {
            Ok(CompareMode::Both)
        } else if str_equals(value, "video") {
            Ok(CompareMode::Video)
        } else if str_equals(value, "audio") {
            Ok(CompareMode::Audio)
        } else if str_equals(value, "none") {
            Ok(CompareMode::Neither)
        } else {
            Err(E2eError::UnknownCompareMode(string_from_str(value)))
        }
    }

    /// Whether the video streams are compared.
    pub fn includes_video(&self) -> (b: bool)
        ensures
            b == (*self == CompareMode::Both || *self == CompareMode::Video),
    {
        match self {
            CompareMode::Both | CompareMode::Video => true,
            _ => false,
        }
    }

    /// Whether the audio streams are compared.
    pub fn includes_audio(&self) -> (b: bool)
        ensures
            b == (*self == CompareMode::Both || *self == CompareMode::Audio),
    {
        match self {
            CompareMode::Both | CompareMode::Audio => true,
            _ => false,
        }
    }
}

/// `both`, `video`, `audio` and `none` select the modes that compare both streams, only video,
/// only audio and neither; no other text selects a mode, and distinct texts select distinct
/// modes.
pub proof fn lemma_compare_mode_names(value: Seq<char>, other: Seq<char>)
    ensures
        compare_mode_named("both"@) == Some(CompareMode::Both),
        compare_mode_named("video"@) == Some(CompareMode::Video),
        compare_mode_named("audio"@) == Some(CompareMode::Audio),
        compare_mode_named("none"@) == Some(CompareMode::Neither),
        compare_mode_named(value) is Some <==> (value == "both"@ || value == "video"@ || value
            == "audio"@ || value == "none"@),
        compare_mode_named(value) is Some && compare_mode_named(value) == compare_mode_named(other)
            ==> value == other,
{
    reveal_strlit("both");
    reveal_strlit("video");
    reveal_strlit("audio");
    reveal_strlit("none");
    assert("both"@.len() == 4 && "none"@.len() == 4 && "both"@[0] == 'b' && "none"@[0] == 'n');
    assert("video"@.len() == 5 && "audio"@.len() == 5 && "video"@[0] == 'v' && "audio"@[0] == 'a');
}

/// `{key}`, the form in which a placeholder stands in a template.
pub open spec fn braced(key: Seq<char>) -> Seq<char> {
    seq!['{'] + key + seq!['}']
}

/// `template` with the placeholders of `entries` replaced in turn, first entry first.
pub open spec fn expand_spec(template: Seq<char>, entries: Seq<(Seq<char>, Seq<char>)>) -> Seq<char>
    decreases entries.len(),
{
    if entries.len() == 0 {
        template
    } else {
        expand_spec(
            replace_all(template, braced(entries[0].0), entries[0].1),
            entries.drop_first(),
        )
    }
}

/// `entries` lists the entries of `m` by their views, in increasing key order.
#[verifier::opaque]
pub open spec fn is_key_ordered_listing(
    m: Map<&'static str, String>,
    entries: Seq<(Seq<char>, Seq<char>)>,
) -> bool {
    &&& entries.len() == m.dom().len()
    &&& forall|i: int|
        0 <= i < entries.len() ==> exists|k: &'static str|
            #[trigger] m.contains_key(k) && k@ == (#[trigger] entries[i]).0 && m[k]@ == entries[i].1
    &&& forall|k: &'static str|
        #[trigger] m.contains_key(k) ==> exists|i: int|
            0 <= i < entries.len() && (#[trigger] entries[i]).0 == k@
    &&& forall|i: int, j: int| 0 <= i < j < entries.len() ==> chars_lt(entries[i].0, entries[j].0)
}

/// Calls `BTreeMap::iter`, which visits the entries sorted by key (for `&str`, by byte order of
/// UTF-8, which is code point order), and copies each key and value into an owned pair.
#[verifier::external_body]
fn placeholder_entries(placeholders: &BTreeMap<&'static str, String>) -> (entries: Vec<
    (String, String),
>)
    ensures
        is_key_ordered_listing(placeholders@, entries@.map_values(|e: (String, String)| (e.0@, e.1@))),
{
    placeholders.iter().map(|(key, value)| (key.to_string(), value.clone())).collect()
}

/// `{key}` for the characters of `key`.
fn braced_chars(key: &str) -> (out: Vec<char>)
    ensures
        out@ == braced(key@),
{
    let mut out: Vec<char> = Vec::new();
    out.push('{');
    let k = chars_of(key);
    let mut i: usize = 0;
    while i < k.len()
        invariant
            i <= k.len(),
            out@ == seq!['{'] + k@.take(i as int),
        decreases k.len() - i,
    {
        out.push(k[i]);
        i = i + 1;
        assert(k@.take(i as int) =~= k@.take(i - 1).push(k@[i - 1]));
    }
    out.push('}');
    assert(k@.take(k.len() as int) =~= k@);
    assert(out@ =~= braced(key@));
    out
}

/// Replaces each `{key}` of `template` by its value, the placeholders taken in increasing key
/// order.
pub fn expand_template(template: &str, placeholders: &BTreeMap<&'static str, String>) -> (out:
    String)
    ensures
        exists|entries: Seq<(Seq<char>, Seq<char>)>|
            is_key_ordered_listing(placeholders@, entries) && out@ == expand_spec(
                template@,
                entries,
            ),
{
    let entries = placeholder_entries(placeholders);
    let ghost listing = entries@.map_values(|e: (String, String)| (e.0@, e.1@));
    let mut acc = chars_of(template);
    let mut i: usize = 0;
    assert(listing.skip(0) =~= listing);
    while i < entries.len()
        invariant
            i <= entries.len(),
            listing == entries@.map_values(|e: (String, String)| (e.0@, e.1@)),
            expand_spec(template@, listing) == expand_spec(acc@, listing.skip(i as int)),
        decreases entries.len() - i,
    {
        let pat = braced_chars(entries[i].0.as_str());
        let rep = chars_of(entries[i].1.as_str());
        assert(listing.skip(i as int).drop_first() =~= listing.skip(i + 1));
        acc = replace_str(&acc, &pat, &rep);
        i = i + 1;
    }
    assert(listing.skip(entries.len() as int) =~= Seq::<(Seq<char>, Seq<char>)>::empty());
    string_of(&acc)
}


/// No two keys of `m` have the same text.
pub open spec fn keys_distinct_by_text(m: Map<&'static str, String>) -> bool {
    forall|a: &'static str, b: &'static str|
        #[trigger] m.contains_key(a) && #[trigger] m.contains_key(b) && a@ == b@ ==> a == b
}

proof fn lemma_listing_entry_key(
    m: Map<&'static str, String>,
    a: Seq<(Seq<char>, Seq<char>)>,
    i: int,
) -> (k: &'static str)
    requires
        is_key_ordered_listing(m, a),
        0 <= i < a.len(),
    ensures
        m.contains_key(k),
        k@ == a[i].0,
        m[k]@ == a[i].1,
{
    reveal(is_key_ordered_listing);
    let ai = a[i];
    choose|k: &'static str| #[trigger] m.contains_key(k) && k@ == ai.0 && m[k]@ == ai.1
}

proof fn lemma_listing_key_index(
    m: Map<&'static str, String>,
    a: Seq<(Seq<char>, Seq<char>)>,
    k: &'static str,
) -> (p: int)
    requires
        is_key_ordered_listing(m, a),
        m.contains_key(k),
    ensures
        0 <= p < a.len(),
        a[p].0 == k@,
{
    reveal(is_key_ordered_listing);
    choose|p: int| 0 <= p < a.len() && (#[trigger] a[p]).0 == k@
}

proof fn lemma_listing_sorted(
    m: Map<&'static str, String>,
    a: Seq<(Seq<char>, Seq<char>)>,
    i: int,
    j: int,
)
    requires
        is_key_ordered_listing(m, a),
        0 <= i < j < a.len(),
    ensures
        chars_lt(a[i].0, a[j].0),
{
    reveal(is_key_ordered_listing);
}

proof fn lemma_listing_len(m: Map<&'static str, String>, a: Seq<(Seq<char>, Seq<char>)>)
    requires
        is_key_ordered_listing(m, a),
    ensures
        a.len() == m.dom().len(),
{
    reveal(is_key_ordered_listing);
}

proof fn lemma_listing_keys_agree(
    m: Map<&'static str, String>,
    a: Seq<(Seq<char>, Seq<char>)>,
    b: Seq<(Seq<char>, Seq<char>)>,
    i: int,
)
    requires
        is_key_ordered_listing(m, a),
        is_key_ordered_listing(m, b),
        0 <= i < a.len(),
    ensures
        a[i].0 == b[i].0,
    decreases i,
{
    lemma_listing_len(m, a);
    lemma_listing_len(m, b);
    let k = lemma_listing_entry_key(m, a, i);
    let p = lemma_listing_key_index(m, b, k);
    let k2 = lemma_listing_entry_key(m, b, i);
    let q = lemma_listing_key_index(m, a, k2);
    if p < i {
        lemma_listing_keys_agree(m, a, b, p);
        lemma_listing_sorted(m, a, p, i);
        lemma_chars_lt_irreflexive(a[i].0);
    }
    if q < i {
        lemma_listing_keys_agree(m, a, b, q);
        lemma_listing_sorted(m, b, q, i);
        lemma_chars_lt_irreflexive(b[i].0);
    }
    if p > i && q > i {
        lemma_listing_sorted(m, b, i, p);
        lemma_listing_sorted(m, a, i, q);
        lemma_chars_lt_asymmetric(a[i].0, b[i].0);
    }
}

/// A map whose keys differ in text has exactly one key-ordered listing.
pub proof fn lemma_key_ordered_listing_unique(
    m: Map<&'static str, String>,
    a: Seq<(Seq<char>, Seq<char>)>,
    b: Seq<(Seq<char>, Seq<char>)>,
)
    requires
        keys_distinct_by_text(m),
        is_key_ordered_listing(m, a),
        is_key_ordered_listing(m, b),
    ensures
        a == b,
{
    lemma_listing_len(m, a);
    lemma_listing_len(m, b);
    assert forall|i: int| 0 <= i < a.len() implies a[i] == b[i] by {
        lemma_listing_keys_agree(m, a, b, i);
        let k1 = lemma_listing_entry_key(m, a, i);
        let k2 = lemma_listing_entry_key(m, b, i);
        assert(k1 == k2);
    }
    assert(a =~= b);
}


/// The placeholders of every run, in key order: `duration`, `host`, `output` (quoted), `port` and
/// `reference` (quoted).
pub open spec fn base_entries(
    duration: Seq<char>,
    host: Seq<char>,
    output_ts: Seq<char>,
    port: u16,
    reference_ts: Seq<char>,
) -> Seq<(Seq<char>, Seq<char>)> {
    seq![
        ("duration"@, duration),
        ("host"@, host),
        ("output"@, shell_quoted(output_ts)),
        ("port"@, decimal(port as nat)),
        ("reference"@, shell_quoted(reference_ts)),
    ]
}

/// `base` with the quoted URLs added under `receiver_url` and `sender_url`, in key order.
pub open spec fn url_entries(
    base: Seq<(Seq<char>, Seq<char>)>,
    sender_url: Seq<char>,
    receiver_url: Seq<char>,
) -> Seq<(Seq<char>, Seq<char>)> {
    seq![
        base[0],
        base[1],
        base[2],
        base[3],
        ("receiver_url"@, shell_quoted(receiver_url)),
        base[4],
        ("sender_url"@, shell_quoted(sender_url)),
    ]
}

proof fn lemma_base_keys(
    m: Map<&'static str, String>,
    v0: String,
    v1: String,
    v2: String,
    v3: String,
    v4: String,
)
    requires
        m == Map::<&'static str, String>::empty().insert("duration", v0).insert("host", v1).insert(
            "output",
            v2,
        ).insert("port", v3).insert("reference", v4),
    ensures
        m.dom() == set!["duration", "host", "output", "port", "reference"],
        m.dom().len() == 5,
        m["duration"] == v0 && m["host"] == v1 && m["output"] == v2 && m["port"] == v3
            && m["reference"] == v4,
        keys_distinct_by_text(m),
{
    reveal_strlit("duration");
    reveal_strlit("host");
    reveal_strlit("output");
    reveal_strlit("port");
    reveal_strlit("reference");
    assert("duration"@.len() == 8 && "duration"@[0] == 'd');
    assert("host"@.len() == 4 && "host"@[0] == 'h');
    assert("output"@.len() == 6 && "output"@[0] == 'o');
    assert("port"@.len() == 4 && "port"@[0] == 'p');
    assert("reference"@.len() == 9 && "reference"@[0] == 'r');
    assert(m.dom() =~= set!["duration", "host", "output", "port", "reference"]);
}

proof fn lemma_base_order()
    ensures
        chars_lt("duration"@, "host"@),
        chars_lt("host"@, "output"@),
        chars_lt("output"@, "port"@),
        chars_lt("port"@, "reference"@),
{
    reveal_strlit("duration");
    reveal_strlit("host");
    reveal_strlit("output");
    reveal_strlit("port");
    reveal_strlit("reference");
    assert("duration"@.len() == 8 && "duration"@[0] == 'd');
    assert("host"@.len() == 4 && "host"@[0] == 'h');
    assert("output"@.len() == 6 && "output"@[0] == 'o');
    assert("port"@.len() == 4 && "port"@[0] == 'p');
    assert("reference"@.len() == 9 && "reference"@[0] == 'r');
}

/// Strict order of a listing follows from the order of neighbours.
proof fn lemma_sorted_from_neighbours(e: Seq<(Seq<char>, Seq<char>)>)
    requires
        forall|i: int| 0 <= i < e.len() - 1 ==> chars_lt(#[trigger] e[i].0, e[i + 1].0),
    ensures
        forall|i: int, j: int| 0 <= i < j < e.len() ==> chars_lt(e[i].0, e[j].0),
{
    assert forall|i: int, j: int| 0 <= i < j < e.len() implies chars_lt(e[i].0, e[j].0) by {
        lemma_sorted_step(e, i, j);
    }
}

proof fn lemma_sorted_step(e: Seq<(Seq<char>, Seq<char>)>, i: int, j: int)
    requires
        forall|k: int| 0 <= k < e.len() - 1 ==> chars_lt(#[trigger] e[k].0, e[k + 1].0),
        0 <= i < j < e.len(),
    ensures
        chars_lt(e[i].0, e[j].0),
    decreases j - i,
{
    if j > i + 1 {
        lemma_sorted_step(e, i, j - 1);
        assert(chars_lt(e[j - 1].0, e[j].0));
        lemma_chars_lt_transitive(e[i].0, e[j - 1].0, e[j].0);
    } else {
        assert(chars_lt(e[i].0, e[i + 1].0));
    }
}

proof fn lemma_base_listing(
    m: Map<&'static str, String>,
    v0: String,
    v1: String,
    v2: String,
    v3: String,
    v4: String,
)
    requires
        m == Map::<&'static str, String>::empty().insert("duration", v0).insert("host", v1).insert(
            "output",
            v2,
        ).insert("port", v3).insert("reference", v4),
    ensures
        keys_distinct_by_text(m),
        is_key_ordered_listing(
            m,
            seq![
                ("duration"@, v0@),
                ("host"@, v1@),
                ("output"@, v2@),
                ("port"@, v3@),
                ("reference"@, v4@),
            ],
        ),
{
    lemma_base_keys(m, v0, v1, v2, v3, v4);
    lemma_base_order();
    let e = seq![
        ("duration"@, v0@),
        ("host"@, v1@),
        ("output"@, v2@),
        ("port"@, v3@),
        ("reference"@, v4@),
    ];
    assert(m.contains_key("duration") && m.contains_key("host") && m.contains_key("output")
        && m.contains_key("port") && m.contains_key("reference"));
    assert forall|i: int| 0 <= i < e.len() implies exists|k: &'static str|
        #[trigger] m.contains_key(k) && k@ == (#[trigger] e[i]).0 && m[k]@ == e[i].1 by {
        if i == 0 {
            assert(m.contains_key("duration") && "duration"@ == e[i].0);
        } else if i == 1 {
            assert(m.contains_key("host") && "host"@ == e[i].0);
        } else if i == 2 {
            assert(m.contains_key("output") && "output"@ == e[i].0);
        } else if i == 3 {
            assert(m.contains_key("port") && "port"@ == e[i].0);
        } else {
            assert(m.contains_key("reference") && "reference"@ == e[i].0);
        }
    }
    assert forall|k: &'static str| #[trigger] m.contains_key(k) implies exists|i: int|
        0 <= i < e.len() && (#[trigger] e[i]).0 == k@ by {
        assert(m.dom().contains(k));
        if k == "duration" {
            assert(e[0].0 == k@);
        } else if k == "host" {
            assert(e[1].0 == k@);
        } else if k == "output" {
            assert(e[2].0 == k@);
        } else if k == "port" {
            assert(e[3].0 == k@);
        } else {
            assert(e[4].0 == k@);
        }
    }
    assert forall|i: int| 0 <= i < e.len() - 1 implies chars_lt(#[trigger] e[i].0, e[i + 1].0) by {
    }
    lemma_sorted_from_neighbours(e);
    assert(is_key_ordered_listing(m, e)) by {
        reveal(is_key_ordered_listing);
    }
}

proof fn lemma_url_keys(
    base: Map<&'static str, String>,
    m: Map<&'static str, String>,
    v0: String,
    v1: String,
    v2: String,
    v3: String,
    v4: String,
    su: String,
    ru: String,
)
    requires
        base.dom() == set!["duration", "host", "output", "port", "reference"],
        base["duration"] == v0 && base["host"] == v1 && base["output"] == v2 && base["port"] == v3
            && base["reference"] == v4,
        m == base.insert("sender_url", su).insert("receiver_url", ru),
    ensures
        m.dom() == set![
            "duration",
            "host",
            "output",
            "port",
            "reference",
            "sender_url",
            "receiver_url",
        ],
        m.dom().len() == 7,
        m["duration"] == v0 && m["host"] == v1 && m["output"] == v2 && m["port"] == v3
            && m["reference"] == v4 && m["sender_url"] == su && m["receiver_url"] == ru,
        keys_distinct_by_text(m),
{
    reveal_strlit("duration");
    reveal_strlit("host");
    reveal_strlit("output");
    reveal_strlit("port");
    reveal_strlit("reference");
    reveal_strlit("sender_url");
    reveal_strlit("receiver_url");
    assert("duration"@.len() == 8 && "duration"@[0] == 'd');
    assert("host"@.len() == 4 && "host"@[0] == 'h');
    assert("output"@.len() == 6 && "output"@[0] == 'o');
    assert("port"@.len() == 4 && "port"@[0] == 'p');
    assert("reference"@.len() == 9 && "reference"@[0] == 'r' && "reference"@[2] == 'f');
    assert("sender_url"@.len() == 10 && "sender_url"@[0] == 's');
    assert("receiver_url"@.len() == 12 && "receiver_url"@[0] == 'r' && "receiver_url"@[2] == 'c');
    assert(m.dom() =~= set![
        "duration",
        "host",
        "output",
        "port",
        "reference",
        "sender_url",
        "receiver_url",
    ]);
}

proof fn lemma_url_order()
    ensures
        chars_lt("port"@, "receiver_url"@),
        chars_lt("receiver_url"@, "reference"@),
        chars_lt("reference"@, "sender_url"@),
{
    reveal_strlit("port");
    reveal_strlit("reference");
    reveal_strlit("sender_url");
    reveal_strlit("receiver_url");
    assert("port"@.len() == 4 && "port"@[0] == 'p');
    assert("reference"@.len() == 9 && "reference"@[0] == 'r' && "reference"@[1] == 'e'
        && "reference"@[2] == 'f');
    assert("sender_url"@.len() == 10 && "sender_url"@[0] == 's');
    assert("receiver_url"@.len() == 12 && "receiver_url"@[0] == 'r' && "receiver_url"@[1] == 'e'
        && "receiver_url"@[2] == 'c');
    let a = "receiver_url"@;
    let b = "reference"@;
    assert(a.drop_first()[0] == b.drop_first()[0]);
    assert(a.drop_first().drop_first()[0] == 'c');
    assert(b.drop_first().drop_first()[0] == 'f');
    assert(chars_lt(a.drop_first().drop_first(), b.drop_first().drop_first()));
    assert(chars_lt(a.drop_first(), b.drop_first()));
}

proof fn lemma_url_listing(
    base: Map<&'static str, String>,
    m: Map<&'static str, String>,
    v0: String,
    v1: String,
    v2: String,
    v3: String,
    v4: String,
    su: String,
    ru: String,
)
    requires
        base.dom() == set!["duration", "host", "output", "port", "reference"],
        base["duration"] == v0 && base["host"] == v1 && base["output"] == v2 && base["port"] == v3
            && base["reference"] == v4,
        m == base.insert("sender_url", su).insert("receiver_url", ru),
    ensures
        keys_distinct_by_text(m),
        is_key_ordered_listing(
            m,
            seq![
                ("duration"@, v0@),
                ("host"@, v1@),
                ("output"@, v2@),
                ("port"@, v3@),
                ("receiver_url"@, ru@),
                ("reference"@, v4@),
                ("sender_url"@, su@),
            ],
        ),
{
    lemma_url_keys(base, m, v0, v1, v2, v3, v4, su, ru);
    lemma_base_order();
    lemma_url_order();
    let e = seq![
        ("duration"@, v0@),
        ("host"@, v1@),
        ("output"@, v2@),
        ("port"@, v3@),
        ("receiver_url"@, ru@),
        ("reference"@, v4@),
        ("sender_url"@, su@),
    ];
    assert(m.contains_key("duration") && m.contains_key("host") && m.contains_key("output")
        && m.contains_key("port") && m.contains_key("reference") && m.contains_key("sender_url")
        && m.contains_key("receiver_url"));
    assert forall|i: int| 0 <= i < e.len() implies exists|k: &'static str|
        #[trigger] m.contains_key(k) && k@ == (#[trigger] e[i]).0 && m[k]@ == e[i].1 by {
        if i == 0 {
            assert(m.contains_key("duration") && "duration"@ == e[i].0);
        } else if i == 1 {
            assert(m.contains_key("host") && "host"@ == e[i].0);
        } else if i == 2 {
            assert(m.contains_key("output") && "output"@ == e[i].0);
        } else if i == 3 {
            assert(m.contains_key("port") && "port"@ == e[i].0);
        } else if i == 4 {
            assert(m.contains_key("receiver_url") && "receiver_url"@ == e[i].0);
        } else if i == 5 {
            assert(m.contains_key("reference") && "reference"@ == e[i].0);
        } else {
            assert(m.contains_key("sender_url") && "sender_url"@ == e[i].0);
        }
    }
    assert forall|k: &'static str| #[trigger] m.contains_key(k) implies exists|i: int|
        0 <= i < e.len() && (#[trigger] e[i]).0 == k@ by {
        assert(m.dom().contains(k));
        if k == "duration" {
            assert(e[0].0 == k@);
        } else if k == "host" {
            assert(e[1].0 == k@);
        } else if k == "output" {
            assert(e[2].0 == k@);
        } else if k == "port" {
            assert(e[3].0 == k@);
        } else if k == "receiver_url" {
            assert(e[4].0 == k@);
        } else if k == "reference" {
            assert(e[5].0 == k@);
        } else {
            assert(e[6].0 == k@);
        }
    }
    assert forall|i: int| 0 <= i < e.len() - 1 implies chars_lt(#[trigger] e[i].0, e[i + 1].0) by {
    }
    lemma_sorted_from_neighbours(e);
    assert(is_key_ordered_listing(m, e)) by {
        reveal(is_key_ordered_listing);
    }
}

/// Calls `BTreeMap::insert`, which puts `value` under `key`, replacing a value that was there.
#[verifier::external_body]
fn insert_placeholder(
    placeholders: &mut BTreeMap<&'static str, String>,
    key: &'static str,
    value: String,
)
    ensures
        final(placeholders)@ == old(placeholders)@.insert(key, value),
{
    placeholders.insert(key, value);
}

/// The placeholders of a run: `duration` (the duration in seconds, as the harness prints it),
/// `host`, `output` and `reference` (both quoted for a shell) and `port`.
pub fn base_placeholders(
    config: &ProtocolE2eConfig,
    duration_text: &str,
    reference_ts: &str,
    output_ts: &str,
) -> (placeholders: BTreeMap<&'static str, String>)
    requires
        config.port is Some,
    ensures
        keys_distinct_by_text(placeholders@),
        is_key_ordered_listing(
            placeholders@,
            base_entries(duration_text@, config.host@, output_ts@, config.port->0, reference_ts@),
        ),
        placeholders@.dom() == set!["duration", "host", "output", "port", "reference"],
        placeholders@["duration"]@ == duration_text@,
        placeholders@["host"]@ == config.host@,
        placeholders@["output"]@ == shell_quoted(output_ts@),
        placeholders@["port"]@ == decimal(config.port->0 as nat),
        placeholders@["reference"]@ == shell_quoted(reference_ts@),
{
    let port = match config.port {
        Some(p) => p,
        None => 0,
    };
    let mut values: BTreeMap<&'static str, String> = BTreeMap::new();
    let v0 = string_from_str(duration_text);
    let v1 = config.host.clone();
    let v2 = shell_quote_path(output_ts);
    let v3 = string_of(&decimal_chars(port as u128));
    let v4 = shell_quote_path(reference_ts);
    let ghost g = (v0, v1, v2, v3, v4);
    insert_placeholder(&mut values, "duration", v0);
    insert_placeholder(&mut values, "host", v1);
    insert_placeholder(&mut values, "output", v2);
    insert_placeholder(&mut values, "port", v3);
    insert_placeholder(&mut values, "reference", v4);
    proof {
        lemma_base_listing(values@, g.0, g.1, g.2, g.3, g.4);
        lemma_base_keys(values@, g.0, g.1, g.2, g.3, g.4);
        assert(seq![
            ("duration"@, g.0@),
            ("host"@, g.1@),
            ("output"@, g.2@),
            ("port"@, g.3@),
            ("reference"@, g.4@),
        ] =~= base_entries(duration_text@, config.host@, output_ts@, port, reference_ts@));
    }
    values
}

/// The commands of a run, with every placeholder expanded.
#[derive(Debug, Clone)]
pub struct RunCommands {
    /// The URL the sender streams to.
    pub sender_url: String,
    /// The URL the receiver listens on.
    pub receiver_url: String,
    /// The shell command that starts the receiver.
    pub receiver_command: String,
    /// Whether the harness starts a receiver itself (a receiver command was given).
    pub start_receiver: bool,
}

/// Expands the URLs and the receiver command of a run. The sender URL and the receiver URL (the
/// sender's template where none is given) are expanded with the base placeholders; the receiver
/// command also sees `sender_url` and `receiver_url`, both quoted for a shell.
pub fn plan_commands(
    config: &ProtocolE2eConfig,
    duration_text: &str,
    reference_ts: &str,
    output_ts: &str,
) -> (plan: RunCommands)
    requires
        config.port is Some,
    ensures
        plan.sender_url@ == expand_spec(
            config.sender_url@,
            base_entries(duration_text@, config.host@, output_ts@, config.port->0, reference_ts@),
        ),
        plan.receiver_url@ == expand_spec(
            match config.receiver_url {
                Some(u) => u@,
                None => config.sender_url@,
            },
            base_entries(duration_text@, config.host@, output_ts@, config.port->0, reference_ts@),
        ),
        plan.receiver_command@ == expand_spec(
            config.receiver@,
            url_entries(
                base_entries(duration_text@, config.host@, output_ts@, config.port->0, reference_ts@),
                plan.sender_url@,
                plan.receiver_url@,
            ),
        ),
        plan.start_receiver == (config.receiver@.len() > 0),
{
    let ghost base = base_entries(
        duration_text@,
        config.host@,
        output_ts@,
        config.port->0,
        reference_ts@,
    );
    let mut placeholders = base_placeholders(config, duration_text, reference_ts, output_ts);
    let ghost m5 = placeholders@;
    let sender_url = expand_template(config.sender_url.as_str(), &placeholders);
    proof {
        let l = choose|l: Seq<(Seq<char>, Seq<char>)>|
            is_key_ordered_listing(m5, l) && sender_url@ == expand_spec(config.sender_url@, l);
        lemma_key_ordered_listing_unique(m5, l, base);
    }
    let receiver_template = match &config.receiver_url {
        Some(u) => u.as_str(),
        None => config.sender_url.as_str(),
    };
    let receiver_url = expand_template(receiver_template, &placeholders);
    proof {
        let l = choose|l: Seq<(Seq<char>, Seq<char>)>|
            is_key_ordered_listing(m5, l) && receiver_url@ == expand_spec(receiver_template@, l);
        lemma_key_ordered_listing_unique(m5, l, base);
    }
    let quoted_sender = shell_quote(sender_url.as_str());
    let quoted_receiver = shell_quote(receiver_url.as_str());
    let ghost gs = quoted_sender;
    let ghost gr = quoted_receiver;
    insert_placeholder(&mut placeholders, "sender_url", quoted_sender);
    insert_placeholder(&mut placeholders, "receiver_url", quoted_receiver);
    let receiver_command = expand_template(config.receiver.as_str(), &placeholders);
    proof {
        let m7 = placeholders@;
        let full = url_entries(base, sender_url@, receiver_url@);
        lemma_url_listing(
            m5,
            m7,
            m5["duration"],
            m5["host"],
            m5["output"],
            m5["port"],
            m5["reference"],
            gs,
            gr,
        );
        let l = choose|l: Seq<(Seq<char>, Seq<char>)>|
            is_key_ordered_listing(m7, l) && receiver_command@ == expand_spec(config.receiver@, l);
        lemma_key_ordered_listing_unique(m7, l, full);
    }
    let start_receiver = config.receiver.as_str().unicode_len() > 0;
    RunCommands { sender_url, receiver_url, receiver_command, start_receiver }
}

/// What a finished run reports.
#[derive(Debug, Clone)]
pub struct ProtocolE2eReport {
    pub work_dir: String,
    pub reference_ts: String,
    pub output_ts: String,
    pub sender_url: String,
    pub receiver_url: String,
    pub receiver_done: Option<String>,
    /// Whether the harness had to stop the receiver at its timeout.
    pub receiver_was_terminated: bool,
    pub video_fingerprint: Option<StreamFingerprint>,
    pub audio_fingerprint: Option<StreamFingerprint>,
}

/// Where the received stream is written: the configured output, else the default in the work
/// directory.
pub fn output_path(config: &ProtocolE2eConfig, default_output: String) -> (path: String)
    ensures
        path@ == match config.output {
            Some(o) => o@,
            None => default_output@,
        },
{
    match &config.output {
        Some(o) => o.clone(),
        None => default_output,
    }
}

/// The outcome of sending and receiving, and whether a started receiver must be killed.
#[derive(Debug)]
pub struct Settlement<E> {
    pub kill_receiver: bool,
    /// Whether the receiver was stopped at its timeout, or the error that ends the run.
    pub outcome: Result<bool, E>,
}

/// Settles a run once the sender is done and the receiver has finished or timed out. A failed
/// sender kills a receiver that the harness started and ends the run with the sender's error,
/// unless the sender's exit status is ignored; otherwise the receiver's result stands.
pub fn settle_exchange<E>(
    ignore_sender_exit_status: bool,
    receiver_started: bool,
    sender: Result<(), E>,
    receiver: Result<bool, E>,
) -> (s: Settlement<E>)
    ensures
        s.kill_receiver == (sender is Err && !ignore_sender_exit_status && receiver_started),
        !ignore_sender_exit_status && sender is Err ==> (s.outcome matches Err(e) && e == sender->Err_0),
        ignore_sender_exit_status || sender is Ok ==> s.outcome == receiver,
{
    let sender_failed = sender.is_err();
    let kill_receiver = sender_failed && !ignore_sender_exit_status && receiver_started;
    if !ignore_sender_exit_status {
        match sender {
            Err(e) => {
                return Settlement { kill_receiver, outcome: Err(e) };
            },
            Ok(()) => {},
        }
    }
    Settlement { kill_receiver, outcome: receiver }
}

/// How a run learns that the receiver is done.
#[derive(Debug, Clone)]
pub enum ReceiverWait {
    /// Wait for the receiver process that the harness started.
    Process,
    /// Wait for the done marker at this path.
    Marker(String),
    /// No way to wait: an external receiver without a done marker.
    Missing,
}

/// What the harness does around the transfer: whether it sends the reference stream, and how it
/// waits for the receiver.
#[derive(Debug, Clone)]
pub struct Exchange {
    pub send: bool,
    pub wait: ReceiverWait,
}

/// The exchange of a run: the reference stream is sent unless sending is skipped; a receiver
/// that the harness started is waited for as a process, an external one through its done
/// marker.
pub fn plan_exchange(config: &ProtocolE2eConfig, receiver_started: bool) -> (x: Exchange)
    ensures
        x.send == !config.skip_send,
        receiver_started ==> x.wait is Process,
        !receiver_started ==> match config.receiver_done {
            Some(d) => x.wait matches ReceiverWait::Marker(m) && m@ == d@,
            None => x.wait is Missing,
        },
{
    let wait = if receiver_started {
        ReceiverWait::Process
    } else {
        match &config.receiver_done {
            Some(d) => ReceiverWait::Marker(d.clone()),
            None => ReceiverWait::Missing,
        }
    };
    Exchange { send: !config.skip_send, wait }
}

/// The report of a settled run: the paths, the URLs of the plan, the done marker of the
/// configuration, whether the receiver had to be stopped, and the fingerprints of the streams
/// that the configuration compares (none for the others).
pub fn e2e_report(
    config: &ProtocolE2eConfig,
    work_dir: String,
    reference_ts: String,
    output_ts: String,
    plan: RunCommands,
    receiver_was_terminated: bool,
    video: Option<StreamFingerprint>,
    audio: Option<StreamFingerprint>,
) -> (r: ProtocolE2eReport)
    ensures
        r.work_dir@ == work_dir@,
        r.reference_ts@ == reference_ts@,
        r.output_ts@ == output_ts@,
        r.sender_url@ == plan.sender_url@,
        r.receiver_url@ == plan.receiver_url@,
        match config.receiver_done {
            Some(d) => r.receiver_done matches Some(x) && x@ == d@,
            None => r.receiver_done is None,
        },
        r.receiver_was_terminated == receiver_was_terminated,
        r.video_fingerprint == if config.compare == CompareMode::Both || config.compare
            == CompareMode::Video {
            video
        } else {
            None
        },
        r.audio_fingerprint == if config.compare == CompareMode::Both || config.compare
            == CompareMode::Audio {
            audio
        } else {
            None
        },
{
    let receiver_done = match &config.receiver_done {
        Some(d) => Some(d.clone()),
        None => None,
    };
    let video_fingerprint = if config.compare.includes_video() {
        video
    } else {
        None
    };
    let audio_fingerprint = if config.compare.includes_audio() {
        audio
    } else {
        None
    };
    ProtocolE2eReport {
        work_dir,
        reference_ts,
        output_ts,
        sender_url: plan.sender_url,
        receiver_url: plan.receiver_url,
        receiver_done,
        receiver_was_terminated,
        video_fingerprint,
        audio_fingerprint,
    }
}

/// A span of time in nanoseconds.
pub open spec fn nanos_of(d: Duration) -> int {
    d.secs * 1_000_000_000 + d.nanos
}

impl Duration {
    /// Whether this span is shorter than `other`.
    pub fn is_shorter_than(&self, other: &Duration) -> (b: bool)
        requires
            self.nanos < 1_000_000_000,
            other.nanos < 1_000_000_000,
        ensures
            b == (nanos_of(*self) < nanos_of(*other)),
    {
        self.secs < other.secs || (self.secs == other.secs && self.nanos < other.nanos)
    }
}

/// The pause between two looks at the receiver: 50 ms.
pub fn poll_interval() -> (d: Duration)
    ensures
        d == (Duration { secs: 0, nanos: 50_000_000 }),
{
    Duration::from_millis(50)
}

/// How long a receiver may take to exit after it was asked to terminate: 2 s.
pub fn termination_grace() -> (d: Duration)
    ensures
        d == (Duration { secs: 2, nanos: 0 }),
{
    Duration::from_secs(2)
}

/// What the harness does after looking at a receiver it started.
#[derive(Debug, Clone, Copy, PartialEq, Eq, Structural)]
pub enum ReceiverStep {
    /// It exited successfully.
    Finished,
    /// It exited with a failure status.
    Failed,
    /// It is still running at the timeout: terminate it.
    Terminate,
    /// It is still running: look again after the poll interval.
    Wait,
}

/// The next step for a receiver the harness started, given whether it has exited (and then
/// whether it succeeded) and the time since the harness began waiting.
pub fn receiver_step(exited: Option<bool>, elapsed: &Duration, timeout: &Duration) -> (step:
    ReceiverStep)
    requires
        elapsed.nanos < 1_000_000_000,
        timeout.nanos < 1_000_000_000,
    ensures
        step == match exited {
            Some(true) => ReceiverStep::Finished,
            Some(false) => ReceiverStep::Failed,
            None => if nanos_of(*elapsed) >= nanos_of(*timeout) {
                ReceiverStep::Terminate
            } else {
                ReceiverStep::Wait
            },
        },
{
    match exited {
        Some(true) => ReceiverStep::Finished,
        Some(false) => ReceiverStep::Failed,
        None => if elapsed.is_shorter_than(timeout) {
            ReceiverStep::Wait
        } else {
            ReceiverStep::Terminate
        },
    }
}

/// What the harness does while it waits for an outside receiver's done marker.
#[derive(Debug, Clone, Copy, PartialEq, Eq, Structural)]
pub enum MarkerStep {
    /// The marker exists.
    Done,
    /// The timeout passed first.
    TimedOut,
    /// Look again after the poll interval.
    Wait,
}

/// The next step while waiting for a done marker.
pub fn marker_step(marker_exists: bool, elapsed: &Duration, timeout: &Duration) -> (step:
    MarkerStep)
    requires
        elapsed.nanos < 1_000_000_000,
        timeout.nanos < 1_000_000_000,
    ensures
        step == if marker_exists {
            MarkerStep::Done
        } else if nanos_of(*elapsed) >= nanos_of(*timeout) {
            MarkerStep::TimedOut
        } else {
            MarkerStep::Wait
        },
{
    if marker_exists {
        MarkerStep::Done
    } else if elapsed.is_shorter_than(timeout) {
        MarkerStep::Wait
    } else {
        MarkerStep::TimedOut
    }
}

/// The name of a scratch file: `prefix-PID-MILLIS.extension`.
pub open spec fn unique_file_name_spec(
    prefix: Seq<char>,
    pid: u32,
    millis: u128,
    extension: Seq<char>,
) -> Seq<char> {
    prefix + seq!['-'] + decimal(pid as nat) + seq!['-'] + decimal(millis as nat) + seq!['.']
        + extension
}

/// The name of a scratch file for the process `pid` at `millis` milliseconds since the epoch.
pub fn unique_file_name(prefix: &str, pid: u32, millis: u128, extension: &str) -> (name: String)
    ensures
        name@ == unique_file_name_spec(prefix@, pid, millis, extension@),
{
    let mut out = chars_of(prefix);
    out.push('-');
    let mut p = decimal_chars(pid as u128);
    out.append(&mut p);
    out.push('-');
    let mut m = decimal_chars(millis);
    out.append(&mut m);
    out.push('.');
    let mut e = chars_of(extension);
    out.append(&mut e);
    string_of(&out)
}

} // verus!

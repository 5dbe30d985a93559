//! Users of the external identity provider, the bearer credentials they present, and how a refused
//! request is answered.

use vstd::prelude::*;

use crate::ids::ExternalGroupKey;
use crate::text::{chars_of, has_prefix, is_blank, starts_with, string_from_str, trim};

verus! {

/// A user's ID at the external identity provider.
#[derive(Debug, Clone, PartialEq, Eq, Hash)]
pub struct ExternalUserId(pub String);

/// A user whom the external identity provider has authenticated, with the groups they belong to.
#[derive(Debug, Clone, PartialEq, Eq)]
pub struct AuthenticatedExternalUser {
    pub id: ExternalUserId,
    pub display_name: String,
    pub groups: Vec<ExternalGroupKey>,
}

/// What a request presents to prove who sent it.
#[derive(Debug, Clone, PartialEq, Eq)]
pub enum ExternalUserCredential {
    BearerToken(String),
}

impl AuthenticatedExternalUser {
    /// A copy of the user.
    pub fn copied(&self) -> (c: Self)
        ensures
            c.id == self.id,
            c.display_name == self.display_name,
            c.groups@ == self.groups@,
    {
        let mut groups: Vec<ExternalGroupKey> = Vec::new();
        let mut i: usize = 0;
        while i < self.groups.len()
            invariant
                i <= self.groups.len(),
                groups@ == self.groups@.take(i as int),
            decreases self.groups.len() - i,
        {
            groups.push(ExternalGroupKey(self.groups[i].0.clone()));
            i = i + 1;
            assert(groups@ =~= self.groups@.take(i as int));
        }
        assert(groups@ =~= self.groups@);
        AuthenticatedExternalUser {
            id: ExternalUserId(self.id.0.clone()),
            display_name: self.display_name.clone(),
            groups,
        }
    }
}

/// Why a request was refused.
#[derive(Debug, Clone, PartialEq, Eq)]
pub enum AuthApiError {
    /// The identity provider could not be asked; the text says why.
    Internal(String),
    /// The `Authorization` header is there but is no bearer token.
    InvalidAuthorizationHeader,
    /// No credential was presented, or it was not accepted.
    Unauthorized,
}

/// The body of a refusal: a code and a message.
#[derive(Debug, Clone, PartialEq, Eq)]
pub struct AuthErrorResponse {
    code: &'static str,
    message: String,
}

impl AuthErrorResponse {
    /// The code of the refusal.
    pub closed spec fn code_spec(&self) -> Seq<char> {
        self.code@
    }

    /// The message of the refusal.
    pub closed spec fn message_spec(&self) -> Seq<char> {
        self.message@
    }

    /// A body with `code` and `message`.
    pub fn new(code: &'static str, message: String) -> (r: Self)
        ensures
            r.code_spec() == code@,
            r.message_spec() == message@,
    {
        AuthErrorResponse { code, message }
    }

    /// The code of the refusal.
    pub fn code(&self) -> (c: &'static str)
        ensures
            c@ == self.code_spec(),
    {
        self.code
    }

    /// The message of the refusal.
    pub fn message(&self) -> (m: &str)
        ensures
            m@ == self.message_spec(),
    {
        self.message.as_str()
    }
}

/// How a refusal is answered: an HTTP status, whether a `WWW-Authenticate: Bearer` header is
/// sent, and the body.
#[derive(Debug, Clone)]
pub struct AuthErrorReply {
    pub status: u16,
    pub www_authenticate_bearer: bool,
    pub body: AuthErrorResponse,
}

/// The status, header, code and message that answer `e`.
pub open spec fn auth_reply_spec(e: AuthApiError) -> (u16, bool, Seq<char>, Seq<char>) {
    match e {
        AuthApiError::Internal(m) => (500, false, "internal_server_error"@, m@),
        AuthApiError::InvalidAuthorizationHeader => (
            401,
            true,
            "invalid_authorization_header"@,
            "Authorization header must be a Bearer token"@,
        ),
        AuthApiError::Unauthorized => (401, true, "unauthorized"@, "authentication is required"@),
    }
}

impl AuthApiError {
    /// How the refusal is answered: an internal error with 500 and its text; an invalid header
    /// and a missing or refused credential with 401 and a bearer challenge.
    pub fn reply(self) -> (r: AuthErrorReply)
        ensures
            (r.status, r.www_authenticate_bearer, r.body.code_spec(), r.body.message_spec())
                == auth_reply_spec(self),
    {
        match self {
            AuthApiError::Internal(message) => AuthErrorReply {
                status: 500,
                www_authenticate_bearer: false,
                body: AuthErrorResponse::new("internal_server_error", message),
            },
            AuthApiError::InvalidAuthorizationHeader => AuthErrorReply {
                status: 401,
                www_authenticate_bearer: true,
                body: AuthErrorResponse::new(
                    "invalid_authorization_header",
                    string_from_str("Authorization header must be a Bearer token"),
                ),
            },
            AuthApiError::Unauthorized => AuthErrorReply {
                status: 401,
                www_authenticate_bearer: true,
                body: AuthErrorResponse::new(
                    "unauthorized",
                    string_from_str("authentication is required"),
                ),
            },
        }
    }
}

/// Whether a header byte is visible ASCII or a tab, as an HTTP header value's text must be.
pub open spec fn visible_ascii(b: u8) -> bool {
    (32 <= b && b < 127) || b == 9
}

/// The characters of ASCII bytes.
pub open spec fn ascii_chars(bytes: Seq<u8>) -> Seq<char> {
    bytes.map_values(|b: u8| b as char)
}

/// The credential an `Authorization` header with the bytes `header` carries, if any.
pub open spec fn bearer_token_spec(header: Option<Seq<u8>>) -> Result<Seq<char>, AuthApiError> {
    match header {
        None => Err(AuthApiError::Unauthorized),
        Some(bytes) => {
            let text = ascii_chars(bytes);
            if !(forall|i: int| 0 <= i < bytes.len() ==> visible_ascii(#[trigger] bytes[i])) {
                Err(AuthApiError::InvalidAuthorizationHeader)
            } else if !starts_with(text, "Bearer "@) {
                Err(AuthApiError::InvalidAuthorizationHeader)
            } else if is_blank(text.skip("Bearer "@.len() as int)) {
                Err(AuthApiError::InvalidAuthorizationHeader)
            } else {
                Ok(text.skip("Bearer "@.len() as int))
            }
        },
    }
}

/// The bytes of `Bearer ` in an `Authorization` header.
pub open spec fn bearer_prefix() -> Seq<u8> {
    seq![66u8, 101u8, 97u8, 114u8, 101u8, 114u8, 32u8]
}

/// A header made of `Bearer ` and a token of visible ASCII that is not blank reads back as that
/// token.
pub proof fn lemma_bearer_header_reads_back(token: Seq<u8>)
    requires
        forall|i: int| 0 <= i < token.len() ==> visible_ascii(#[trigger] token[i]),
        !is_blank(ascii_chars(token)),
    ensures
        bearer_token_spec(Some(bearer_prefix() + token)) == Ok::<Seq<char>, AuthApiError>(
            ascii_chars(token),
        ),
{
    let bytes = bearer_prefix() + token;
    let text = ascii_chars(bytes);
    reveal_strlit("Bearer ");
    assert forall|i: int| 0 <= i < bytes.len() implies visible_ascii(#[trigger] bytes[i]) by {
        if i >= 7 {
            assert(bytes[i] == token[i - 7]);
        }
    }
    assert(text.subrange(0, 7) =~= "Bearer "@);
    assert(text.skip("Bearer "@.len() as int) =~= ascii_chars(token));
}

/// Reads the bearer token of an `Authorization` header given as its bytes: no header is
/// unauthorized; a header that is not visible ASCII, does not start with `Bearer ` or has a blank
/// token is invalid.
pub fn bearer_token(authorization: Option<&[u8]>) -> (r: Result<ExternalUserCredential, AuthApiError>)
    ensures
        match bearer_token_spec(
            match authorization {
                Some(b) => Some(b@),
                None => None,
            },
        ) {
            Ok(t) => r matches Ok(ExternalUserCredential::BearerToken(s)) && s@ == t,
            Err(e) => r == Err::<ExternalUserCredential, AuthApiError>(e),
        },
{
    let bytes = match authorization {
        None => {
            return Err(AuthApiError::Unauthorized);
        },
        Some(b) => b,
    };
    let mut chars: Vec<char> = Vec::new();
    let mut i: usize = 0;
    while i < bytes.len()
        invariant
            i <= bytes.len(),
            authorization == Some(bytes),
            forall|k: int| 0 <= k < i ==> visible_ascii(#[trigger] bytes@[k]),
            chars@ == ascii_chars(bytes@.take(i as int)),
        decreases bytes.len() - i,
    {
        let b = bytes[i];
        if !((32 <= b && b < 127) || b == 9) {
            assert(!visible_ascii(bytes@[i as int]));
            assert(!(forall|k: int| 0 <= k < bytes@.len() ==> visible_ascii(#[trigger] bytes@[k])));
            return Err(AuthApiError::InvalidAuthorizationHeader);
        }
        chars.push(b as char);
        i = i + 1;
        assert(chars@ =~= ascii_chars(bytes@.take(i as int)));
    }
    assert(bytes@.take(bytes.len() as int) =~= bytes@);
    let ghost text = ascii_chars(bytes@);
    let prefix = chars_of("Bearer ");
    if !has_prefix(&chars, &prefix) {
        return Err(AuthApiError::InvalidAuthorizationHeader);
    }
    let n = prefix.len();
    let mut token_chars: Vec<char> = Vec::new();
    let mut j: usize = n;
    while j < chars.len()
        invariant
            n <= j <= chars.len(),
            n == "Bearer "@.len(),
            chars@ == text,
            token_chars@ == text.subrange(n as int, j as int),
        decreases chars.len() - j,
    {
        token_chars.push(chars[j]);
        j = j + 1;
        assert(token_chars@ =~= text.subrange(n as int, j as int));
    }
    assert(token_chars@ =~= text.skip(n as int));
    let token = crate::text::string_of(&token_chars);
    let trimmed = crate::text::trim_str(token.as_str());
    if trimmed.as_str().unicode_len() == 0 {
        return Err(AuthApiError::InvalidAuthorizationHeader);
    }
    Ok(ExternalUserCredential::BearerToken(token))
}

/// A stand-in for the identity provider: it accepts one bearer token and then answers with one
/// user.
#[derive(Debug, Clone)]
pub struct MockExternalUserAuthenticator {
    expected_bearer_token: String,
    authenticated_user: AuthenticatedExternalUser,
}

impl MockExternalUserAuthenticator {
    /// The token the authenticator accepts.
    pub closed spec fn expected_token(&self) -> Seq<char> {
        self.expected_bearer_token@
    }

    /// The user the authenticator answers with.
    pub closed spec fn user(&self) -> AuthenticatedExternalUser {
        self.authenticated_user
    }

    /// An authenticator that accepts `expected_bearer_token` and answers with
    /// `authenticated_user`.
    pub fn new(expected_bearer_token: String, authenticated_user: AuthenticatedExternalUser) -> (a:
        Self)
        ensures
            a.expected_token() == expected_bearer_token@,
            a.user() == authenticated_user,
    {
        MockExternalUserAuthenticator { expected_bearer_token, authenticated_user }
    }

    /// The development authenticator: it answers with the user `mock-user` ("Mock User"), a
    /// member of the group `mock-group`.
    pub fn dev(expected_bearer_token: String) -> (a: Self)
        ensures
            a.expected_token() == expected_bearer_token@,
            a.user().id.0@ == "mock-user"@,
            a.user().display_name@ == "Mock User"@,
            a.user().groups@.len() == 1,
            a.user().groups@[0].0@ == "mock-group"@,
    {
        let mut groups: Vec<ExternalGroupKey> = Vec::new();
        groups.push(ExternalGroupKey(string_from_str("mock-group")));
        Self::new(
            expected_bearer_token,
            AuthenticatedExternalUser {
                id: ExternalUserId(string_from_str("mock-user")),
                display_name: string_from_str("Mock User"),
                groups,
            },
        )
    }

    /// The user a credential authenticates: the configured user for the expected token, none for
    /// any other.
    pub fn authenticate(&self, credential: &ExternalUserCredential) -> (r: Option<
        AuthenticatedExternalUser,
    >)
        ensures
            match credential {
                ExternalUserCredential::BearerToken(t) => if t@ == self.expected_token() {
                    r matches Some(u) && u.id == self.user().id && u.display_name
                        == self.user().display_name && u.groups@ == self.user().groups@
                } else {
                    r is None
                },
            },
    {
        match credential {
            ExternalUserCredential::BearerToken(token) => {
                if crate::text::str_equals(token.as_str(), self.expected_bearer_token.as_str()) {
                    Some(self.authenticated_user.copied())
                } else {
                    None
                }
            },
        }
    }
}

/// The user to let through, given what the identity provider answered: a request without an
/// authenticated user is unauthorized.
pub fn require_user(answer: Option<AuthenticatedExternalUser>) -> (r: Result<
    AuthenticatedExternalUser,
    AuthApiError,
>)
    ensures
        match answer {
            Some(u) => r == Ok::<AuthenticatedExternalUser, AuthApiError>(u),
            None => r == Err::<AuthenticatedExternalUser, AuthApiError>(AuthApiError::Unauthorized),
        },
{
    match answer {
        Some(u) => Ok(u),
        None => Err(AuthApiError::Unauthorized),
    }
}

} // verus!

//! Bearer tokens: the claims a token carries, the errors of authentication,
//! and reading the token out of an `Authorization` header.
use vstd::prelude::*;
use crate::text::starts_with;

verus! {

/// The claims of an authentication token.
#[derive(Debug, Clone)]
pub struct Claims {
    /// The user's identifier, as text.
    pub sub: String,
    /// Expiry, in seconds since the Unix epoch.
    pub exp: usize,
    /// Issue instant, in seconds since the Unix epoch.
    pub iat: usize,
}

/// Why a request could not be authenticated.
#[derive(Debug, Clone, Copy, PartialEq, Eq, Structural)]
pub enum AuthError {
    InvalidToken,
    ExpiredToken,
    MissingHeader,
    InvalidFormat,
    MissingSecret,
}

impl AuthError {
    pub open spec fn spec_message(self) -> Seq<char> {
        match self {
            AuthError::InvalidToken => "Invalid token"@,
            AuthError::ExpiredToken => "Token expired"@,
            AuthError::MissingHeader => "Missing authorization header"@,
            AuthError::InvalidFormat => "Invalid authorization format"@,
            AuthError::MissingSecret => "JWT secret not configured"@,
        }
    }

    /// The error's message.
    pub fn message(&self) -> (r: &'static str)
        ensures
            r@ == self.spec_message(),
    {
        match self {
            AuthError::InvalidToken => "Invalid token",
            AuthError::ExpiredToken => "Token expired",
            AuthError::MissingHeader => "Missing authorization header",
            AuthError::InvalidFormat => "Invalid authorization format",
            AuthError::MissingSecret => "JWT secret not configured",
        }
    }
}

/// The text std's `str::trim` leaves: leading and trailing white space
/// removed.
pub uninterp spec fn trimmed(s: Seq<char>) -> Seq<char>;

/// Relies on std's `str::trim`, to strip the white space around a bearer token.
#[verifier::external_body]
fn trim(s: &str) -> (r: &str)
    ensures
        r@ == trimmed(s@),
{
    s.trim()
}

/// The identifier that uuid's `Uuid::parse_str` reads from text, or `None`
/// where it rejects the text.
pub uninterp spec fn parsed_uuid(s: Seq<char>) -> Option<u128>;

/// Relies on uuid's `Uuid::parse_str` and `as_u128`.
#[verifier::external_body]
fn parse_uuid(s: &str) -> (r: Option<u128>)
    ensures
        r == parsed_uuid(s@),
{
    uuid::Uuid::parse_str(s).ok().map(|u| u.as_u128())
}

/// The scheme prefix of a bearer credential.
pub open spec fn bearer_prefix() -> Seq<char> {
    "Bearer "@
}

/// Authentication of requests by bearer token.
pub struct Auth;

impl Auth {
    /// Reads the token out of an `Authorization` header value: the header
    /// must start with `Bearer `, and what follows, trimmed, must not be
    /// empty.
    pub fn extract_bearer_token(auth_header: &str) -> (r: Result<String, AuthError>)
        ensures
            !(bearer_prefix().len() <= auth_header@.len() && auth_header@.subrange(0, 7) == bearer_prefix())
                ==> r == Err::<String, AuthError>(AuthError::InvalidFormat),
            bearer_prefix().len() <= auth_header@.len() && auth_header@.subrange(0, 7) == bearer_prefix()
                ==> {
                let t = trimmed(auth_header@.skip(7));
                &&& t.len() == 0 ==> r == Err::<String, AuthError>(AuthError::InvalidToken)
                &&& t.len() > 0 ==> r is Ok && r.unwrap()@ == t
            },
    {
        proof {
            reveal_strlit("Bearer ");
        }
        if !starts_with(auth_header, "Bearer ") {
            return Err(AuthError::InvalidFormat);
        }
        let n = auth_header.unicode_len();
        let rest = auth_header.substring_char(7, n);
        assert(rest@ =~= auth_header@.skip(7));
        let token = trim(rest);
        if token.unicode_len() == 0 {
            return Err(AuthError::InvalidToken);
        }
        Ok(token.to_owned())
    }

    /// The user a token's subject names; the subject must be a UUID.
    pub fn user_from_subject(sub: &str) -> (r: Result<u128, AuthError>)
        ensures
            match parsed_uuid(sub@) {
                Some(id) => r == Ok::<u128, AuthError>(id),
                None => r == Err::<u128, AuthError>(AuthError::InvalidToken),
            },
    {
        match parse_uuid(sub) {
            Some(id) => Ok(id),
            None => Err(AuthError::InvalidToken),
        }
    }
}

} // verus!

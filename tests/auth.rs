use gigpilot_core::auth::{Auth, AuthError};

#[test]
fn bearer_token_is_extracted_and_trimmed() {
    assert_eq!(Auth::extract_bearer_token("Bearer abc.def").unwrap(), "abc.def");
    assert_eq!(Auth::extract_bearer_token("Bearer   tok  ").unwrap(), "tok");
}

#[test]
fn header_without_bearer_scheme_is_refused() {
    assert_eq!(Auth::extract_bearer_token("Basic abc"), Err(AuthError::InvalidFormat));
    assert_eq!(Auth::extract_bearer_token("bearer abc"), Err(AuthError::InvalidFormat));
    assert_eq!(Auth::extract_bearer_token(""), Err(AuthError::InvalidFormat));
}

#[test]
fn empty_bearer_token_is_invalid() {
    assert_eq!(Auth::extract_bearer_token("Bearer "), Err(AuthError::InvalidToken));
    assert_eq!(Auth::extract_bearer_token("Bearer    "), Err(AuthError::InvalidToken));
}

#[test]
fn subject_must_be_a_uuid() {
    assert_eq!(
        Auth::user_from_subject("11111111-1111-1111-1111-111111111111"),
        Ok(0x1111_1111_1111_1111_1111_1111_1111_1111)
    );
    assert_eq!(Auth::user_from_subject("not-a-uuid"), Err(AuthError::InvalidToken));
}

#[test]
fn error_messages() {
    assert_eq!(AuthError::ExpiredToken.message(), "Token expired");
    assert_eq!(AuthError::MissingHeader.message(), "Missing authorization header");
}

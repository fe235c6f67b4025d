use bearer_auth::errors::{Error, VerifyError};
use bearer_auth::role::Role;
use bearer_auth::token::{issue, verify, TOKEN_TTL_SECS};

const SECRET: &[u8] = b"test-signing-secret";

fn issue_ok(subject: &str, role: Role, now: u64) -> String {
    match issue(subject, role, now, SECRET) {
        Ok(t) => t,
        Err(e) => panic!("issuance failed: {:?}", e),
    }
}

#[test]
fn round_trip_user_token() {
    let now: u64 = 1_000;
    let token = issue_ok("1", Role::User, now);
    let claims = verify(token.as_str(), now + 1, SECRET).unwrap();
    assert_eq!(claims.subject, "1");
    assert_eq!(claims.role, Role::User);
    assert_eq!(claims.expires_at, now + TOKEN_TTL_SECS);
}

#[test]
fn round_trip_admin_token() {
    let now: u64 = 77;
    let token = issue_ok("2", Role::Admin, now);
    let claims = verify(token.as_str(), now, SECRET).unwrap();
    assert_eq!(claims.subject, "2");
    assert_eq!(claims.role, Role::Admin);
    assert_eq!(claims.expires_at, now + TOKEN_TTL_SECS);
}

#[test]
fn round_trip_keeps_non_ascii_subject() {
    let subject = "usuário-42";
    let token = issue_ok(subject, Role::User, 5);
    let claims = verify(token.as_str(), 6, SECRET).unwrap();
    assert_eq!(claims.subject, subject);
}

#[test]
fn round_trip_empty_subject() {
    let token = issue_ok("", Role::User, 5);
    let claims = verify(token.as_str(), 6, SECRET).unwrap();
    assert_eq!(claims.subject, "");
}

#[test]
fn verification_is_valid_until_the_last_second() {
    let now: u64 = 1_000;
    let token = issue_ok("1", Role::User, now);
    let exp = now + TOKEN_TTL_SECS;
    assert!(verify(token.as_str(), exp - 1, SECRET).is_ok());
}

#[test]
fn expired_token_is_rejected_as_expired() {
    let now: u64 = 1_000;
    let token = issue_ok("1", Role::User, now);
    let exp = now + TOKEN_TTL_SECS;
    assert_eq!(verify(token.as_str(), exp, SECRET).unwrap_err(), VerifyError::TokenExpired);
    assert_eq!(verify(token.as_str(), exp + 999, SECRET).unwrap_err(), VerifyError::TokenExpired);
}

#[test]
fn flipping_any_signature_byte_is_rejected_as_forgery() {
    let token = issue_ok("1", Role::User, 1_000);
    let bytes = token.as_bytes();
    let n = bytes.len();
    for i in n - 16..n {
        let mut forged = bytes.to_vec();
        forged[i] = if forged[i] == b'0' { b'1' } else { b'0' };
        let forged = String::from_utf8(forged).unwrap();
        assert_ne!(forged, token);
        assert_eq!(
            verify(forged.as_str(), 1_001, SECRET).unwrap_err(),
            VerifyError::InvalidSignature,
            "byte {} of the signature segment",
            i
        );
    }
}

#[test]
fn tampered_subject_is_rejected_as_forgery() {
    // the subject segment of a token for "1" is the digit pair "31";
    // changing it to "32" keeps the shape but breaks the signature
    let token = issue_ok("1", Role::User, 1_000);
    let mut bytes = token.as_bytes().to_vec();
    assert_eq!(bytes[1], b'1');
    bytes[1] = b'2';
    let forged = String::from_utf8(bytes).unwrap();
    assert_eq!(
        verify(forged.as_str(), 1_001, SECRET).unwrap_err(),
        VerifyError::InvalidSignature
    );
}

#[test]
fn wrong_secret_is_rejected_as_forgery() {
    let token = issue_ok("1", Role::User, 1_000);
    assert_eq!(
        verify(token.as_str(), 1_001, b"another-secret").unwrap_err(),
        VerifyError::InvalidSignature
    );
}

#[test]
fn garbage_is_rejected_as_malformed() {
    for t in ["", "invalid_token", "a.b.c", "no dots at all whatsoever!!"] {
        assert_eq!(verify(t, 0, SECRET).unwrap_err(), VerifyError::MalformedToken);
    }
}

#[test]
fn token_shape_is_dotted_with_sixteen_digit_tag() {
    let token = issue_ok("1", Role::User, 1_000);
    let segments: Vec<&str> = token.split('.').collect();
    assert_eq!(segments.len(), 4);
    assert_eq!(segments[0], "31");
    assert_eq!(segments[1], "User");
    assert_eq!(segments[2].len(), 16);
    assert_eq!(segments[3].len(), 16);
    assert!(segments[3].bytes().all(|b| b.is_ascii_hexdigit()));
}

#[test]
fn issuance_is_deterministic_given_secret_and_time() {
    let a = issue_ok("1", Role::User, 1_000);
    let b = issue_ok("1", Role::User, 1_000);
    assert_eq!(a, b);
}

#[test]
fn issuance_fails_only_on_unrepresentable_expiry() {
    assert_eq!(
        issue("1", Role::User, u64::MAX - TOKEN_TTL_SECS + 1, SECRET).unwrap_err(),
        Error::JWTTokenCreationError
    );
    assert!(issue("1", Role::User, u64::MAX - TOKEN_TTL_SECS, SECRET).is_ok());
}

#[test]
fn role_text_parses_exactly() {
    assert_eq!(Role::from_text("User"), Some(Role::User));
    assert_eq!(Role::from_text("Admin"), Some(Role::Admin));
    assert_eq!(Role::from_text("admin"), None);
    assert_eq!(Role::from_text("user"), None);
    assert_eq!(Role::from_text(""), None);
    assert_eq!(Role::from_text("Administrator"), None);
    assert_eq!(Role::User.as_text(), "User");
    assert_eq!(Role::Admin.as_text(), "Admin");
}

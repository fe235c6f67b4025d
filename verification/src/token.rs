//! Token issuance and verification.
//!
//! Issuing signs a subject and role with a fixed validity window under an
//! injected secret; verifying is its inverse, and rejects a malformed
//! string, a wrong signature and a past expiry with distinct verdicts.

use vstd::prelude::*;
use vstd::utf8::{decode_utf8, encode_utf8, valid_utf8};

use crate::codec::{encode_token, parse_token, spec_parse, spec_token};
use crate::errors::{Error, VerifyError};
use crate::hex::hex_fixed;
use crate::role::Role;
use crate::tag::{compute_tag, token_tag};
use crate::util::{bytes_eq, lemma_ascii_bytes_valid_utf8, string_of_bytes};

verus! {

/// Seconds a freshly issued token stays valid.
pub const TOKEN_TTL_SECS: u64 = 3600;

/// Clock-skew leeway granted when checking expiry. No leeway is specified
/// for this system, so the constant is zero; it is named so the choice is
/// explicit configuration rather than an accident of the comparison.
pub const EXPIRY_LEEWAY_SECS: u64 = 0;

/// The payload recovered from a token that verified: who the bearer is,
/// what they may do, and until when the token holds.
#[derive(Clone, Debug)]
pub struct Claims {
    pub subject: String,
    pub role: Role,
    pub expires_at: u64,
}

/// The verifier's verdict on a byte string under a secret at a time.
/// A string that does not parse as a token, or whose subject segment is
/// not a UTF-8 encoding, is malformed; one whose tag segment is not the
/// payload's tag under this secret is forged; one at or past its expiry
/// is expired; anything else yields its subject, role and expiry.
pub open spec fn spec_verify(t: Seq<u8>, secret: Seq<u8>, now: u64) -> Result<
    (Seq<char>, Role, u64),
    VerifyError,
> {
    match spec_parse(t) {
        Option::None => Result::Err(VerifyError::MalformedToken),
        Option::Some(parsed) => {
            if !valid_utf8(parsed.0) {
                Result::Err(VerifyError::MalformedToken)
            } else if t.subrange(t.len() - 16, t.len() as int) != hex_fixed(
                token_tag(secret, t.subrange(0, t.len() - 17)) as nat,
                16,
            ) {
                Result::Err(VerifyError::InvalidSignature)
            } else if parsed.2 <= now + EXPIRY_LEEWAY_SECS {
                Result::Err(VerifyError::TokenExpired)
            } else {
                Result::Ok((decode_utf8(parsed.0), parsed.1, parsed.2))
            }
        },
    }
}

/// Verify a token presented as bytes: the executable counterpart of
/// [`spec_verify`], returning its verdict exactly.
pub fn verify_bytes(t: &[u8], now: u64, secret: &[u8]) -> (r: Result<Claims, VerifyError>)
    ensures
        (match r {
            Ok(c) => spec_verify(t@, secret@, now) == Result::Ok::<(Seq<char>, Role, u64),
                VerifyError,
            >((c.subject@, c.role, c.expires_at)),
            Err(e) => spec_verify(t@, secret@, now) == Result::Err::<(Seq<char>, Role, u64),
                VerifyError,
            >(e),
        }),
{
    match parse_token(t) {
        Option::None => Result::Err(VerifyError::MalformedToken),
        Option::Some((subj_bytes, role, exp)) => {
            match string_of_bytes(subj_bytes) {
                Option::None => Result::Err(VerifyError::MalformedToken),
                Option::Some(subject) => {
                    let n = t.len();
                    let expected_tag = compute_tag(secret, &t[0..n - 17]);
                    let mut sig: Vec<u8> = Vec::new();
                    push_expected_sig(&mut sig, expected_tag);
                    if !bytes_eq(&t[n - 16..n], sig.as_slice()) {
                        Result::Err(VerifyError::InvalidSignature)
                    } else if exp <= now + EXPIRY_LEEWAY_SECS {
                        Result::Err(VerifyError::TokenExpired)
                    } else {
                        Result::Ok(Claims { subject, role, expires_at: exp })
                    }
                },
            }
        },
    }
}

fn push_expected_sig(out: &mut Vec<u8>, tag: u64)
    requires
        old(out)@.len() == 0,
    ensures
        final(out)@ == hex_fixed(tag as nat, 16),
{
    crate::hex::push_hex_u64(out, tag);
    proof {
        assert(out@ =~= hex_fixed(tag as nat, 16));
    }
}

/// Verify a token string: extract and check its claims under the secret
/// at the given time.
pub fn verify(token: &str, now: u64, secret: &[u8]) -> (r: Result<Claims, VerifyError>)
    ensures
        (match r {
            Ok(c) => spec_verify(encode_utf8(token@), secret@, now) == Result::Ok::<(
                Seq<char>,
                Role,
                u64,
            ), VerifyError>((c.subject@, c.role, c.expires_at)),
            Err(e) => spec_verify(encode_utf8(token@), secret@, now) == Result::Err::<(
                Seq<char>,
                Role,
                u64,
            ), VerifyError>(e),
        }),
{
    verify_bytes(token.as_bytes(), now, secret)
}

/// Issue a signed token for a subject and role, valid for
/// [`TOKEN_TTL_SECS`] from `now` under the given secret. Fails only where
/// the expiry cannot be represented; nothing about the client's input can
/// make it fail.
pub fn issue(subject: &str, role: Role, now: u64, secret: &[u8]) -> (r: Result<String, Error>)
    ensures
        now + TOKEN_TTL_SECS <= u64::MAX ==> (match r {
            Ok(t) => {
                &&& encode_utf8(t@) == spec_token(
                    encode_utf8(subject@),
                    role,
                    (now + TOKEN_TTL_SECS) as u64,
                    secret@,
                )
                &&& t@ == decode_utf8(
                    spec_token(
                        encode_utf8(subject@),
                        role,
                        (now + TOKEN_TTL_SECS) as u64,
                        secret@,
                    ),
                )
            },
            Err(_) => false,
        }),
        now + TOKEN_TTL_SECS > u64::MAX ==> r == Result::Err::<String, Error>(
            Error::JWTTokenCreationError,
        ),
{
    if now > u64::MAX - TOKEN_TTL_SECS {
        return Result::Err(Error::JWTTokenCreationError);
    }
    let exp = now + TOKEN_TTL_SECS;
    let sb = subject.as_bytes();
    let tok = encode_token(sb, role, exp, secret);
    proof {
        crate::codec::lemma_token_ascii(encode_utf8(subject@), role, exp, secret@);
        lemma_ascii_bytes_valid_utf8(tok@);
    }
    match string_of_bytes(tok) {
        Option::Some(s) => Result::Ok(s),
        Option::None => Result::Err(Error::JWTTokenCreationError),
    }
}

} // verus!

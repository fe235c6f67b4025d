//! The laws that tie issuance, verification and the role gate together,
//! each proved over the same specifications the executable contracts use.

use vstd::prelude::*;
use vstd::utf8::{encode_utf8, encode_utf8_decode_utf8, encode_utf8_valid_utf8};

use crate::auth::{bearer_prefix, spec_authorize};
use crate::codec::{lemma_spec_parse_token, spec_parse, spec_token};
use crate::errors::{Error, VerifyError};
use crate::role::Role;
use crate::token::spec_verify;

verus! {

/// A token issued for a subject and role verifies, before its expiry,
/// to exactly that subject, that role and that expiry, under the secret
/// it was issued with.
pub proof fn lemma_issue_then_verify(
    subject: Seq<char>,
    role: Role,
    exp: u64,
    secret: Seq<u8>,
    now: u64,
)
    requires
        now < exp,
    ensures
        spec_verify(spec_token(encode_utf8(subject), role, exp, secret), secret, now)
            == Result::Ok::<(Seq<char>, Role, u64), VerifyError>((subject, role, exp)),
{
    let sb = encode_utf8(subject);
    lemma_spec_parse_token(sb, role, exp, secret);
    encode_utf8_valid_utf8(subject);
    encode_utf8_decode_utf8(subject);
}

/// A token at or past its embedded expiry is rejected as expired, even
/// though its signature is valid.
pub proof fn lemma_expired_token_rejected(
    subject: Seq<char>,
    role: Role,
    exp: u64,
    secret: Seq<u8>,
    now: u64,
)
    requires
        exp <= now,
    ensures
        spec_verify(spec_token(encode_utf8(subject), role, exp, secret), secret, now)
            == Result::Err::<(Seq<char>, Role, u64), VerifyError>(VerifyError::TokenExpired),
{
    let sb = encode_utf8(subject);
    lemma_spec_parse_token(sb, role, exp, secret);
    encode_utf8_valid_utf8(subject);
}

/// Changing any byte of a token's signature segment to anything else
/// makes verification fail as a forgery, at any time and whatever the
/// token's expiry.
pub proof fn lemma_signature_flip_rejected(
    subject: Seq<char>,
    role: Role,
    exp: u64,
    secret: Seq<u8>,
    now: u64,
    i: int,
    b: u8,
)
    requires
        spec_token(encode_utf8(subject), role, exp, secret).len() - 16 <= i < spec_token(
            encode_utf8(subject),
            role,
            exp,
            secret,
        ).len(),
        b != spec_token(encode_utf8(subject), role, exp, secret)[i],
    ensures
        spec_verify(spec_token(encode_utf8(subject), role, exp, secret).update(i, b), secret, now)
            == Result::Err::<(Seq<char>, Role, u64), VerifyError>(VerifyError::InvalidSignature),
{
    let sb = encode_utf8(subject);
    let t = spec_token(sb, role, exp, secret);
    let n = t.len() as int;
    let t2 = t.update(i, b);
    lemma_spec_parse_token(sb, role, exp, secret);
    encode_utf8_valid_utf8(subject);

    // everything the parser reads lies before the signature segment
    assert(t2[n - 17] == t[n - 17]);
    assert(t2[n - 34] == t[n - 34]);
    assert(t2.subrange(n - 33, n - 17) =~= t.subrange(n - 33, n - 17));
    assert(t2.subrange(n - 38, n - 34) =~= t.subrange(n - 38, n - 34));
    assert(t2[n - 39] == t[n - 39]);
    assert(t2.subrange(0, n - 39) =~= t.subrange(0, n - 39));
    if n >= 40 {
        assert(t2.subrange(n - 39, n - 34) =~= t.subrange(n - 39, n - 34));
        assert(t2[n - 40] == t[n - 40]);
        assert(t2.subrange(0, n - 40) =~= t.subrange(0, n - 40));
    }
    assert(spec_parse(t2) == Option::Some((sb, role, exp)));

    // the signed region is unchanged, so the expected tag is unchanged
    assert(t2.subrange(0, n - 17) =~= t.subrange(0, n - 17));
    // the signature segment now differs from the expected one at index i
    assert(t2.subrange(n - 16, n)[i - (n - 16)] == b);
    assert(t.subrange(n - 16, n)[i - (n - 16)] == t[i]);
    assert(t2.subrange(n - 16, n) != t.subrange(n - 16, n));
}

/// A request without an authorization header is rejected for that
/// reason alone, whatever the route, the secret and the time: the
/// verifier's verdict never enters into it.
pub proof fn lemma_missing_header_rejected(required: Role, secret: Seq<u8>, now: u64)
    ensures
        spec_authorize(Option::None, required, secret, now) == Result::Err::<Seq<char>, Error>(
            Error::NoAuthHeaderError,
        ),
{
}

/// A correctly signed, unexpired token whose role differs from the
/// route's required role is rejected for insufficient rights.
pub proof fn lemma_role_mismatch_rejected(
    subject: Seq<char>,
    role: Role,
    required: Role,
    exp: u64,
    secret: Seq<u8>,
    now: u64,
)
    requires
        now < exp,
        role != required,
    ensures
        spec_authorize(
            Option::Some(bearer_prefix() + spec_token(encode_utf8(subject), role, exp, secret)),
            required,
            secret,
            now,
        ) == Result::Err::<Seq<char>, Error>(Error::NoPermissionError),
{
    let t = spec_token(encode_utf8(subject), role, exp, secret);
    let h = bearer_prefix() + t;
    lemma_spec_parse_token(encode_utf8(subject), role, exp, secret);
    assert(h.subrange(0, 7) =~= bearer_prefix());
    assert(h.skip(7) =~= t);
    lemma_issue_then_verify(subject, role, exp, secret, now);
}

/// A correctly signed, unexpired token whose role equals the route's
/// required role admits the request and forwards exactly the subject it
/// was issued for.
pub proof fn lemma_matching_role_admitted(
    subject: Seq<char>,
    role: Role,
    exp: u64,
    secret: Seq<u8>,
    now: u64,
)
    requires
        now < exp,
    ensures
        spec_authorize(
            Option::Some(bearer_prefix() + spec_token(encode_utf8(subject), role, exp, secret)),
            role,
            secret,
            now,
        ) == Result::Ok::<Seq<char>, Error>(subject),
{
    let t = spec_token(encode_utf8(subject), role, exp, secret);
    let h = bearer_prefix() + t;
    assert(h.subrange(0, 7) =~= bearer_prefix());
    assert(h.skip(7) =~= t);
    lemma_issue_then_verify(subject, role, exp, secret, now);
    assert(spec_verify(h.skip(7), secret, now) == Result::Ok::<(Seq<char>, Role, u64),
        VerifyError>((subject, role, exp)));
}

} // verus!

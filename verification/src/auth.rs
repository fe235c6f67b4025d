//! The authentication middleware: extract the bearer token from a
//! request's authorization header, verify it, and compare the decoded role
//! against the route's requirement.
//!
//! The pipeline is strictly linear: a missing header, a header without the
//! bearer scheme, a token that does not verify, and a role that does not
//! match each stop it with their own failure; only then is the bearer's
//! identity forwarded.

use vstd::prelude::*;
use vstd::utf8::{encode_utf8, is_ascii_chars, is_ascii_chars_encode_utf8};

use crate::errors::Error;
use crate::role::Role;
use crate::token::{spec_verify, verify_bytes};
use crate::util::bytes_eq;

verus! {

/// The characters of the bearer scheme prefix, case-sensitive.
pub open spec fn bearer_chars() -> Seq<char> {
    seq!['B', 'e', 'a', 'r', 'e', 'r', ' ']
}

/// The bytes of the bearer scheme prefix.
pub open spec fn bearer_prefix() -> Seq<u8> {
    seq!['B' as u8, 'e' as u8, 'a' as u8, 'r' as u8, 'e' as u8, 'r' as u8, ' ' as u8]
}

pub proof fn lemma_bearer_bytes()
    ensures
        is_ascii_chars(bearer_chars()),
        encode_utf8(bearer_chars()) == bearer_prefix(),
{
    is_ascii_chars_encode_utf8(bearer_chars());
    assert(encode_utf8(bearer_chars()) =~= bearer_prefix());
}

/// The middleware's decision on a request, from its authorization header
/// bytes, the route's required role, the secret and the time: the
/// bearer's identity, or the failure that stopped the pipeline.
pub open spec fn spec_authorize(
    header: Option<Seq<u8>>,
    required: Role,
    secret: Seq<u8>,
    now: u64,
) -> Result<Seq<char>, Error> {
    match header {
        Option::None => Result::Err(Error::NoAuthHeaderError),
        Option::Some(h) => {
            if !(h.len() >= 7 && h.subrange(0, 7) == bearer_prefix()) {
                Result::Err(Error::InvalidAuthHeaderError)
            } else {
                match spec_verify(h.skip(7), secret, now) {
                    Result::Err(_) => Result::Err(Error::JWTTokenError),
                    Result::Ok(v) => {
                        if v.1 != required {
                            Result::Err(Error::NoPermissionError)
                        } else {
                            Result::Ok(v.0)
                        }
                    },
                }
            }
        },
    }
}

/// The view of an optional header string as optional header bytes.
pub open spec fn spec_header_bytes(header: Option<&str>) -> Option<Seq<u8>> {
    match header {
        Option::None => Option::None,
        Option::Some(h) => Option::Some(encode_utf8(h@)),
    }
}

/// Gate a request: take its authorization header, if any, and the role
/// the route requires, and yield the authenticated identity or the
/// failure to surface. Equal roles admit; there is no role hierarchy.
pub fn authorize(header: Option<&str>, required: Role, now: u64, secret: &[u8]) -> (r: Result<
    String,
    Error,
>)
    ensures
        (match r {
            Ok(s) => spec_authorize(spec_header_bytes(header), required, secret@, now)
                == Result::Ok::<Seq<char>, Error>(s@),
            Err(e) => spec_authorize(spec_header_bytes(header), required, secret@, now)
                == Result::Err::<Seq<char>, Error>(e),
        }),
{
    match header {
        Option::None => Result::Err(Error::NoAuthHeaderError),
        Option::Some(h) => {
            let hb = h.as_bytes();
            let bearer = "Bearer ";
            proof {
                reveal_strlit("Bearer ");
                assert(bearer@ =~= bearer_chars());
                lemma_bearer_bytes();
            }
            if hb.len() < 7 {
                assert(encode_utf8(h@).len() < 7);
                Result::Err(Error::InvalidAuthHeaderError)
            } else if !bytes_eq(&hb[0..7], bearer.as_bytes()) {
                Result::Err(Error::InvalidAuthHeaderError)
            } else {
                let n = hb.len();
                proof {
                    assert(hb@.subrange(7, n as int) =~= encode_utf8(h@).skip(7));
                }
                match verify_bytes(&hb[7..n], now, secret) {
                    Result::Err(_) => Result::Err(Error::JWTTokenError),
                    Result::Ok(c) => {
                        if c.role != required {
                            Result::Err(Error::NoPermissionError)
                        } else {
                            Result::Ok(c.subject)
                        }
                    },
                }
            }
        },
    }
}

} // verus!

//! Bearer-token authentication: a signed-token codec, a token issuer and
//! verifier, and a role-gating middleware, together with the credential
//! lookup that backs a login endpoint.
//!
//! A token is an ASCII string `subject-hex.role.expiry-hex.tag-hex`, signed
//! by a keyed checksum over the payload. Verification is the inverse of
//! issuance: it rejects any string not produced with the same secret, any
//! token past its expiry, and anything structurally malformed, each with a
//! distinct error.

pub mod auth;
pub mod codec;
pub mod directory;
pub mod errors;
pub mod handlers;
pub mod hex;
pub mod laws;
pub mod role;
pub mod tag;
pub mod token;
pub mod util;

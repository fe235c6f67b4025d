//! The failure taxonomy of the authentication pipeline, the finer-grained
//! verdicts of the token verifier, and the mapping of failures to an HTTP
//! status and a safe message.

use vstd::prelude::*;

verus! {

/// A failure surfaced to the request pipeline.
#[derive(Clone, Copy, Debug, PartialEq, Eq, Structural)]
pub enum Error {
    /// The submitted credentials match no user in the directory.
    WrongCredentialsError,
    /// Token issuance failed; an internal condition, never client input.
    JWTTokenCreationError,
    /// The presented token did not verify.
    JWTTokenError,
    /// The request carries no authorization header.
    NoAuthHeaderError,
    /// The token verified but its role does not satisfy the route.
    NoPermissionError,
    /// The authorization header does not carry a bearer token.
    InvalidAuthHeaderError,
}

/// Why the verifier rejected a token. All three are unauthorized from the
/// client's point of view but stay distinguishable for diagnostics.
#[derive(Clone, Copy, Debug, PartialEq, Eq, Structural)]
pub enum VerifyError {
    /// The string does not have the shape of a token.
    MalformedToken,
    /// The signature segment does not match the payload under the secret.
    InvalidSignature,
    /// The embedded expiry is at or before the current time.
    TokenExpired,
}

/// The diagnostic text of each failure.
pub open spec fn spec_message(e: Error) -> Seq<char> {
    match e {
        Error::WrongCredentialsError => "wrong credentials"@,
        Error::JWTTokenCreationError => "JWT creation error"@,
        Error::JWTTokenError => "JWT error"@,
        Error::NoAuthHeaderError => "No auth header error"@,
        Error::NoPermissionError => "No permission error"@,
        Error::InvalidAuthHeaderError => "Invalid auth header error"@,
    }
}

/// The HTTP status each failure translates to: wrong credentials are
/// forbidden, a failed token or role check is unauthorized, a failed
/// issuance is an internal error, and a bad request shape is a bad request.
pub open spec fn spec_status(e: Error) -> u16 {
    match e {
        Error::WrongCredentialsError => 403,
        Error::NoPermissionError => 401,
        Error::JWTTokenError => 401,
        Error::JWTTokenCreationError => 500,
        Error::NoAuthHeaderError => 400,
        Error::InvalidAuthHeaderError => 400,
    }
}

/// The message a client may see for each failure. An internal issuance
/// failure is masked behind a generic text; every other failure shows its
/// own diagnostic.
pub open spec fn spec_client_message(e: Error) -> Seq<char> {
    if e == Error::JWTTokenCreationError {
        "Internal Server Error"@
    } else {
        spec_message(e)
    }
}

impl Error {
    /// The diagnostic text of this failure.
    pub fn message(&self) -> (r: String)
        ensures
            r@ == spec_message(*self),
    {
        match self {
            Error::WrongCredentialsError => String::from_str("wrong credentials"),
            Error::JWTTokenCreationError => String::from_str("JWT creation error"),
            Error::JWTTokenError => String::from_str("JWT error"),
            Error::NoAuthHeaderError => String::from_str("No auth header error"),
            Error::NoPermissionError => String::from_str("No permission error"),
            Error::InvalidAuthHeaderError => String::from_str("Invalid auth header error"),
        }
    }
}

/// Translate a failure into the HTTP status code and response message the
/// boundary returns for it.
pub fn status_and_message(e: &Error) -> (r: (u16, String))
    ensures
        r.0 == spec_status(*e),
        r.1@ == spec_client_message(*e),
{
    match e {
        Error::WrongCredentialsError => (403, String::from_str("wrong credentials")),
        Error::NoPermissionError => (401, String::from_str("No permission error")),
        Error::JWTTokenError => (401, String::from_str("JWT error")),
        Error::JWTTokenCreationError => (500, String::from_str("Internal Server Error")),
        Error::NoAuthHeaderError => (400, String::from_str("No auth header error")),
        Error::InvalidAuthHeaderError => (400, String::from_str("Invalid auth header error")),
    }
}

} // verus!

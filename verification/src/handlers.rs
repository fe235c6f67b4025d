//! What the route handlers compute, and the request and response shapes
//! of the login boundary. The surrounding HTTP layer only moves these
//! values; everything it says is decided here.

use vstd::prelude::*;

verus! {

/// The body of a login request: the submitted credentials.
pub struct LoginRequestDTO {
    pub email: String,
    pub password: String,
}

/// The body of a successful login response: the issued token.
pub struct LoginResponseDTO {
    pub token: String,
}

/// The greeting a user-gated route answers with.
pub fn user_greeting(uuid: &str) -> (r: String)
    ensures
        r@ == "Hello User "@ + uuid@,
{
    String::from_str("Hello User ").concat(uuid)
}

/// The greeting an admin-gated route answers with.
pub fn admin_greeting(uuid: &str) -> (r: String)
    ensures
        r@ == "Hello Admin "@ + uuid@,
{
    String::from_str("Hello Admin ").concat(uuid)
}

} // verus!

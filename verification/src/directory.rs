//! The static user directory and the login decision.
//!
//! The directory is a read-only list queried by exact credential match.
//! Login finds the first matching user, parses the stored role text, and
//! issues a token for that user's identity; credentials that match no
//! user are wrong credentials, and a directory entry whose role text is
//! unrecognized is an internal issuance failure, never a silent default.

use vstd::prelude::*;
use vstd::utf8::{decode_utf8, encode_utf8};

use crate::codec::spec_token;
use crate::errors::Error;
use crate::role::{spec_role_of, Role};
use crate::token::{issue, TOKEN_TTL_SECS};

verus! {

/// One directory entry: an identity and the credentials and role text
/// stored for it.
#[derive(Clone)]
pub struct User {
    pub uuid: String,
    pub email: String,
    pub password: String,
    pub role: String,
}

/// Whether an entry's stored credentials are exactly the submitted ones.
pub open spec fn credentials_match(u: User, email: Seq<char>, password: Seq<char>) -> bool {
    u.email@ == email && u.password@ == password
}

/// The first entry whose credentials match, in directory order.
pub open spec fn spec_first_match(users: Seq<User>, email: Seq<char>, password: Seq<char>) -> Option<
    User,
>
    decreases users.len(),
{
    if users.len() == 0 {
        Option::None
    } else if credentials_match(users[0], email, password) {
        Option::Some(users[0])
    } else {
        spec_first_match(users.drop_first(), email, password)
    }
}

/// The login decision: the token issued for the first matching entry, or
/// the failure. No match is wrong credentials; a matching entry with an
/// unrecognized role text, or an unrepresentable expiry, is an internal
/// issuance failure.
pub open spec fn spec_login(
    users: Seq<User>,
    email: Seq<char>,
    password: Seq<char>,
    now: u64,
    secret: Seq<u8>,
) -> Result<Seq<char>, Error> {
    match spec_first_match(users, email, password) {
        Option::None => Result::Err(Error::WrongCredentialsError),
        Option::Some(u) => match spec_role_of(u.role@) {
            Option::None => Result::Err(Error::JWTTokenCreationError),
            Option::Some(role) => {
                if now + TOKEN_TTL_SECS <= u64::MAX {
                    Result::Ok(
                        decode_utf8(
                            spec_token(
                                encode_utf8(u.uuid@),
                                role,
                                (now + TOKEN_TTL_SECS) as u64,
                                secret,
                            ),
                        ),
                    )
                } else {
                    Result::Err(Error::JWTTokenCreationError)
                }
            },
        },
    }
}

/// Log a user in: look the credentials up in the directory and issue a
/// token for the matching entry's identity and role.
pub fn login(
    users: &Vec<User>,
    email: &String,
    password: &String,
    now: u64,
    secret: &[u8],
) -> (r: Result<String, Error>)
    ensures
        (match r {
            Ok(t) => spec_login(users@, email@, password@, now, secret@) == Result::Ok::<
                Seq<char>,
                Error,
            >(t@),
            Err(e) => spec_login(users@, email@, password@, now, secret@) == Result::Err::<
                Seq<char>,
                Error,
            >(e),
        }),
{
    let n = users.len();
    let mut i: usize = 0;
    proof {
        assert(users@.skip(0) =~= users@);
    }
    while i < n
        invariant
            0 <= i <= n,
            n == users@.len(),
            spec_first_match(users@.skip(i as int), email@, password@) == spec_first_match(
                users@,
                email@,
                password@,
            ),
        decreases n - i,
    {
        let ghost rest = users@.skip(i as int);
        proof {
            assert(rest[0] == users@[i as int]);
            assert(rest.drop_first() =~= users@.skip(i + 1));
        }
        let u = &users[i];
        if u.email == *email && u.password == *password {
            assert(spec_first_match(users@, email@, password@) == Option::Some(users@[i as int]));
            match Role::from_text(u.role.as_str()) {
                Option::None => {
                    return Result::Err(Error::JWTTokenCreationError);
                },
                Option::Some(role) => {
                    return issue(u.uuid.as_str(), role, now, secret);
                },
            }
        }
        i += 1;
    }
    proof {
        assert(users@.skip(n as int) =~= Seq::<User>::empty());
    }
    Result::Err(Error::WrongCredentialsError)
}

/// The directory the process starts with: one ordinary user and one
/// administrator.
pub fn init_users() -> (r: Vec<User>)
    ensures
        r@.len() == 2,
        (r@[0].uuid@ == "1"@ && r@[0].email@ == "user@userland.com"@ && r@[0].password@
            == "12345678"@ && r@[0].role@ == "User"@),
        (r@[1].uuid@ == "2"@ && r@[1].email@ == "admin@adminland.com"@ && r@[1].password@
            == "12345678"@ && r@[1].role@ == "Admin"@),
{
    let mut users: Vec<User> = Vec::new();
    users.push(
        User {
            uuid: String::from_str("1"),
            email: String::from_str("user@userland.com"),
            password: String::from_str("12345678"),
            role: String::from_str("User"),
        },
    );
    users.push(
        User {
            uuid: String::from_str("2"),
            email: String::from_str("admin@adminland.com"),
            password: String::from_str("12345678"),
            role: String::from_str("Admin"),
        },
    );
    users
}

} // verus!

//! The two capability levels a token can carry, and their text form.
//!
//! Roles are a closed enumeration: parsing an unrecognized text never
//! defaults silently, it reports failure.

use vstd::prelude::*;
use vstd::utf8::{
    encode_utf8, is_ascii_chars, is_ascii_chars_encode_utf8, is_ascii_chars_nat_bound,
};

use crate::util::{bytes_eq, lemma_encode_utf8_injective};

verus! {

/// Capability level embedded in a token and required by a gated route.
#[derive(Clone, Copy, Debug, PartialEq, Eq, Structural)]
pub enum Role {
    User,
    Admin,
}

/// The byte form of a role as it appears inside a token and in the
/// user directory: `"User"` or `"Admin"`.
pub open spec fn role_bytes(r: Role) -> Seq<u8> {
    match r {
        Role::User => seq!['U' as u8, 's' as u8, 'e' as u8, 'r' as u8],
        Role::Admin => seq!['A' as u8, 'd' as u8, 'm' as u8, 'i' as u8, 'n' as u8],
    }
}

/// The text of a role, as a character sequence.
pub open spec fn role_chars(r: Role) -> Seq<char> {
    match r {
        Role::User => seq!['U', 's', 'e', 'r'],
        Role::Admin => seq!['A', 'd', 'm', 'i', 'n'],
    }
}

/// The byte form of a role is the UTF-8 encoding of its text, and both
/// name plain ASCII.
pub proof fn lemma_role_text_bytes(r: Role)
    ensures
        is_ascii_chars(role_chars(r)),
        encode_utf8(role_chars(r)) == role_bytes(r),
{
    is_ascii_chars_encode_utf8(role_chars(r));
    assert(encode_utf8(role_chars(r)) =~= role_bytes(r));
}

/// Both role texts are made of bytes below 128.
pub proof fn lemma_role_bytes_ascii(r: Role)
    ensures
        forall|j: int| 0 <= j < role_bytes(r).len() ==> role_bytes(r)[j] < 128,
{
    lemma_role_text_bytes(r);
    is_ascii_chars_encode_utf8(role_chars(r));
    is_ascii_chars_nat_bound(role_chars(r));
}

/// Which role, if any, the given text denotes. Exactly `"User"` and
/// `"Admin"` are recognized; anything else denotes no role.
pub open spec fn spec_role_of(s: Seq<char>) -> Option<Role> {
    if s == role_chars(Role::User) {
        Some(Role::User)
    } else if s == role_chars(Role::Admin) {
        Some(Role::Admin)
    } else {
        None
    }
}

impl Role {
    /// Parse a role from its text form. Unrecognized text is an explicit
    /// failure, never a silent default to either variant.
    pub fn from_text(s: &str) -> (r: Option<Role>)
        ensures
            r == spec_role_of(s@),
    {
        let sb = s.as_bytes();
        let user_text = "User";
        let admin_text = "Admin";
        proof {
            reveal_strlit("User");
            reveal_strlit("Admin");
            assert(user_text@ =~= role_chars(Role::User));
            assert(admin_text@ =~= role_chars(Role::Admin));
            lemma_role_text_bytes(Role::User);
            lemma_role_text_bytes(Role::Admin);
        }
        if bytes_eq(sb, user_text.as_bytes()) {
            proof {
                lemma_encode_utf8_injective(s@, role_chars(Role::User));
            }
            Some(Role::User)
        } else if bytes_eq(sb, admin_text.as_bytes()) {
            proof {
                lemma_encode_utf8_injective(s@, role_chars(Role::Admin));
            }
            Some(Role::Admin)
        } else {
            assert(s@ != role_chars(Role::User));
            assert(s@ != role_chars(Role::Admin));
            None
        }
    }

    /// The text form of this role.
    pub fn as_text(&self) -> (r: String)
        ensures
            r@ == role_chars(*self),
    {
        proof {
            reveal_strlit("User");
            reveal_strlit("Admin");
        }
        match self {
            Role::User => {
                let t = String::from_str("User");
                assert(t@ =~= role_chars(Role::User));
                t
            },
            Role::Admin => {
                let t = String::from_str("Admin");
                assert(t@ =~= role_chars(Role::Admin));
                t
            },
        }
    }
}

} // verus!

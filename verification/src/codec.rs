//! The token grammar and its codec.
//!
//! A token is the ASCII byte string
//! `subject-hex "." role-text "." expiry-hex16 "." tag-hex16`: the
//! subject's UTF-8 bytes as hexadecimal digit pairs, the role's text, the
//! expiry timestamp as sixteen digits, and the signing tag of everything
//! before the last dot as sixteen digits. Parsing reads the three
//! fixed-width trailing segments from the end, so the variable-width
//! subject never makes the shape ambiguous.

use vstd::prelude::*;

use crate::hex::{
    all_hex, decode_hex, hex_bytes, hex_fixed, hex_val, lemma_hex_bytes_shape,
    lemma_hex_fixed_shape, lemma_hex_val_hex_fixed, lemma_pow16_concrete, lemma_unhex_hex_bytes,
    parse_hex16, push_hex, push_hex_u64, unhex,
};
use crate::role::{lemma_role_text_bytes, role_bytes, Role};
use crate::tag::{compute_tag, token_tag};
use crate::util::bytes_eq;

verus! {

/// The separator between token segments.
pub const DOT: u8 = '.' as u8;

/// The signed part of a token: subject, role and expiry, dot-separated.
pub open spec fn spec_payload(subj: Seq<u8>, role: Role, exp: u64) -> Seq<u8> {
    hex_bytes(subj) + seq![DOT] + role_bytes(role) + seq![DOT] + hex_fixed(exp as nat, 16)
}

/// The whole token: the payload, a dot, and the payload's signing tag
/// under the secret.
pub open spec fn spec_token(subj: Seq<u8>, role: Role, exp: u64, secret: Seq<u8>) -> Seq<u8> {
    let p = spec_payload(subj, role, exp);
    p + seq![DOT] + hex_fixed(token_tag(secret, p) as nat, 16)
}

/// The subject segment: an even run of digit pairs naming the subject's
/// bytes.
pub open spec fn spec_parse_subject(h: Seq<u8>, role: Role, exp: u64) -> Option<(Seq<u8>, Role, u64)> {
    if h.len() % 2 == 0 && all_hex(h) {
        Some((unhex(h), role, exp))
    } else {
        None
    }
}

/// The shape of a token, read deterministically from the end: sixteen tag
/// characters (whose content is the verifier's concern, not the parser's),
/// a dot, sixteen expiry digits, a dot, a role text, a dot, and the
/// subject segment.
pub open spec fn spec_parse(t: Seq<u8>) -> Option<(Seq<u8>, Role, u64)> {
    let n = t.len() as int;
    if n < 39 {
        None
    } else if t[n - 17] != DOT {
        None
    } else if !all_hex(t.subrange(n - 33, n - 17)) {
        None
    } else if t[n - 34] != DOT {
        None
    } else {
        let exp = hex_val(t.subrange(n - 33, n - 17)) as u64;
        if t.subrange(n - 38, n - 34) == role_bytes(Role::User) && t[n - 39] == DOT {
            spec_parse_subject(t.subrange(0, n - 39), Role::User, exp)
        } else if n >= 40 && t.subrange(n - 39, n - 34) == role_bytes(Role::Admin) && t[n - 40]
            == DOT {
            spec_parse_subject(t.subrange(0, n - 40), Role::Admin, exp)
        } else {
            None
        }
    }
}

/// Append the text of a role onto `out`.
fn push_role(out: &mut Vec<u8>, role: Role)
    ensures
        final(out)@ == old(out)@ + role_bytes(role),
{
    match role {
        Role::User => {
            out.push('U' as u8);
            out.push('s' as u8);
            out.push('e' as u8);
            out.push('r' as u8);
            assert(out@ =~= old(out)@ + role_bytes(Role::User));
        },
        Role::Admin => {
            out.push('A' as u8);
            out.push('d' as u8);
            out.push('m' as u8);
            out.push('i' as u8);
            out.push('n' as u8);
            assert(out@ =~= old(out)@ + role_bytes(Role::Admin));
        },
    }
}

/// Build the signed token for a subject's bytes, a role and an expiry.
pub fn encode_token(subj: &[u8], role: Role, exp: u64, secret: &[u8]) -> (r: Vec<u8>)
    ensures
        r@ == spec_token(subj@, role, exp, secret@),
{
    let mut p: Vec<u8> = Vec::new();
    push_hex(&mut p, subj);
    p.push(DOT);
    push_role(&mut p, role);
    p.push(DOT);
    push_hex_u64(&mut p, exp);
    proof {
        assert(p@ =~= spec_payload(subj@, role, exp));
    }
    let t = compute_tag(secret, p.as_slice());
    p.push(DOT);
    push_hex_u64(&mut p, t);
    proof {
        assert(p@ =~= spec_token(subj@, role, exp, secret@));
    }
    p
}

/// Whether every byte of a slice is a lowercase hexadecimal digit.
fn all_hex_slice(s: &[u8]) -> (r: bool)
    ensures
        r == all_hex(s@),
{
    let mut i: usize = 0;
    while i < s.len()
        invariant
            0 <= i <= s@.len(),
            forall|j: int| 0 <= j < i ==> crate::hex::is_hex(#[trigger] s@[j]),
        decreases s@.len() - i,
    {
        if !crate::hex::is_hex_exec(s[i]) {
            return false;
        }
        i += 1;
    }
    true
}

/// Read a token's shape: its subject bytes, role and expiry, or nothing
/// where the string is not shaped like a token.
pub fn parse_token(t: &[u8]) -> (r: Option<(Vec<u8>, Role, u64)>)
    ensures
        match r {
            Some(p) => spec_parse(t@) == Some((p.0@, p.1, p.2)),
            None => spec_parse(t@) is None,
        },
{
    let n = t.len();
    if n < 39 {
        return None;
    }
    if t[n - 17] != DOT {
        return None;
    }
    if !all_hex_slice(&t[n - 33..n - 17]) {
        return None;
    }
    if t[n - 34] != DOT {
        return None;
    }
    let exp = parse_hex16(&t[n - 33..n - 17]);
    proof {
        crate::hex::lemma_hex_val_bound(t@.subrange(n - 33, n - 17));
        lemma_pow16_concrete();
        lemma_role_text_bytes(Role::User);
        lemma_role_text_bytes(Role::Admin);
        reveal_strlit("User");
        reveal_strlit("Admin");
        assert("User"@ =~= crate::role::role_chars(Role::User));
        assert("Admin"@ =~= crate::role::role_chars(Role::Admin));
    }
    let user_text = "User";
    let admin_text = "Admin";
    if bytes_eq(&t[n - 38..n - 34], user_text.as_bytes()) && t[n - 39] == DOT {
        match decode_hex(&t[0..n - 39]) {
            Some(subj) => Some((subj, Role::User, exp)),
            None => None,
        }
    } else if n >= 40 && bytes_eq(&t[n - 39..n - 34], admin_text.as_bytes()) && t[n - 40] == DOT {
        match decode_hex(&t[0..n - 40]) {
            Some(subj) => Some((subj, Role::Admin, exp)),
            None => None,
        }
    } else {
        None
    }
}

/// Every byte of a token is below 128: the segments are hexadecimal
/// digits or role text, and the separators are dots.
pub proof fn lemma_token_ascii(subj: Seq<u8>, role: Role, exp: u64, secret: Seq<u8>)
    ensures
        forall|i: int|
            0 <= i < spec_token(subj, role, exp, secret).len() ==> #[trigger] spec_token(
                subj,
                role,
                exp,
                secret,
            )[i] < 128,
{
    let hs = hex_bytes(subj);
    let rb = role_bytes(role);
    let e16 = hex_fixed(exp as nat, 16);
    let p = spec_payload(subj, role, exp);
    let sig = hex_fixed(token_tag(secret, p) as nat, 16);
    let t = spec_token(subj, role, exp, secret);

    lemma_hex_bytes_shape(subj);
    lemma_hex_fixed_shape(exp as nat, 16);
    lemma_hex_fixed_shape(token_tag(secret, p) as nat, 16);
    crate::role::lemma_role_bytes_ascii(role);

    assert forall|i: int| 0 <= i < t.len() implies #[trigger] t[i] < 128 by {
        let a = hs.len() as int;
        let b = a + 1 + rb.len();
        if i < a {
            assert(t[i] == hs[i]);
            assert(all_hex(hs));
        } else if i == a {
            assert(t[i] == DOT);
        } else if i < b {
            assert(t[i] == rb[i - a - 1]);
        } else if i == b {
            assert(t[i] == DOT);
        } else if i < b + 17 {
            assert(t[i] == e16[i - b - 1]);
            assert(all_hex(e16));
        } else if i == b + 17 {
            assert(t[i] == DOT);
        } else {
            assert(t[i] == sig[i - b - 18]);
            assert(all_hex(sig));
        }
    }
}

/// How a token that the codec built takes itself apart again: parsing
/// recovers exactly the subject bytes, role and expiry that were encoded,
/// the signed region is exactly the payload, and the tag segment is
/// exactly the payload's tag.
pub proof fn lemma_spec_parse_token(subj: Seq<u8>, role: Role, exp: u64, secret: Seq<u8>)
    ensures
        spec_parse(spec_token(subj, role, exp, secret)) == Some((subj, role, exp)),
        spec_token(subj, role, exp, secret).len() == hex_bytes(subj).len() + role_bytes(
            role,
        ).len() + 35,
        (spec_token(subj, role, exp, secret).subrange(
            0,
            spec_token(subj, role, exp, secret).len() - 17,
        ) == spec_payload(subj, role, exp)),
        (spec_token(subj, role, exp, secret).subrange(
            spec_token(subj, role, exp, secret).len() - 16,
            spec_token(subj, role, exp, secret).len() as int,
        ) == hex_fixed(token_tag(secret, spec_payload(subj, role, exp)) as nat, 16)),
{
    let hs = hex_bytes(subj);
    let rb = role_bytes(role);
    let e16 = hex_fixed(exp as nat, 16);
    let p = spec_payload(subj, role, exp);
    let sig = hex_fixed(token_tag(secret, p) as nat, 16);
    let t = spec_token(subj, role, exp, secret);
    let n = t.len() as int;

    lemma_hex_bytes_shape(subj);
    lemma_hex_fixed_shape(exp as nat, 16);
    lemma_hex_fixed_shape(token_tag(secret, p) as nat, 16);
    lemma_pow16_concrete();
    crate::hex::lemma_hex_val_bound(e16);
    lemma_hex_val_hex_fixed(exp as nat, 16);
    lemma_unhex_hex_bytes(subj);

    assert(p.len() == hs.len() + rb.len() + 18);
    assert(n == hs.len() + rb.len() + 35);

    assert(t.subrange(0, n - 17) =~= p);
    assert(t.subrange(n - 16, n) =~= sig);
    assert(t[n - 17] == DOT);
    assert(t.subrange(n - 33, n - 17) =~= e16);
    assert(t[n - 34] == DOT);

    match role {
        Role::User => {
            assert(t.subrange(n - 38, n - 34) =~= rb);
            assert(t[n - 39] == DOT);
            assert(t.subrange(0, n - 39) =~= hs);
        },
        Role::Admin => {
            assert(t.subrange(n - 39, n - 34) =~= rb);
            assert(t[n - 40] == DOT);
            assert(t.subrange(0, n - 40) =~= hs);
            // the four bytes before the expiry dot read "dmin", not "User"
            assert(t.subrange(n - 38, n - 34)[0] == 'd' as u8);
            assert(t.subrange(n - 38, n - 34) != role_bytes(Role::User));
        },
    }
}

} // verus!

//! The keyed checksum that signs a token payload: a fold of
//! xor-and-multiply steps over the secret, then over the payload, in the
//! style of a 64-bit FNV hash seeded with the secret.

use vstd::prelude::*;
use vstd::wrapping::u64_specs;

verus! {

/// Starting accumulator of the checksum.
pub const TAG_SEED: u64 = 0xcbf2_9ce4_8422_2325;

/// Multiplier applied at every step of the checksum.
pub const TAG_PRIME: u64 = 0x100_0000_01b3;

/// One step of the checksum: absorb one byte.
pub open spec fn tag_step(acc: u64, b: u8) -> u64 {
    u64_specs::wrapping_mul(acc ^ (b as u64), TAG_PRIME)
}

/// Absorb a whole byte sequence, front to back.
pub open spec fn tag_fold(acc: u64, s: Seq<u8>) -> u64
    decreases s.len(),
{
    if s.len() == 0 {
        acc
    } else {
        tag_fold(tag_step(acc, s[0]), s.drop_first())
    }
}

/// The signing tag of a payload under a secret: the checksum of the
/// secret's bytes followed by the payload's bytes.
pub open spec fn token_tag(secret: Seq<u8>, payload: Seq<u8>) -> u64 {
    tag_fold(tag_fold(TAG_SEED, secret), payload)
}

fn tag_fold_exec(acc0: u64, s: &[u8]) -> (r: u64)
    ensures
        r == tag_fold(acc0, s@),
{
    let mut acc: u64 = acc0;
    let mut i: usize = 0;
    proof {
        assert(s@.skip(0) =~= s@);
    }
    while i < s.len()
        invariant
            0 <= i <= s@.len(),
            tag_fold(acc, s@.skip(i as int)) == tag_fold(acc0, s@),
        decreases s@.len() - i,
    {
        let ghost rest = s@.skip(i as int);
        acc = (acc ^ (s[i] as u64)).wrapping_mul(TAG_PRIME);
        proof {
            assert(rest[0] == s@[i as int]);
            assert(rest.drop_first() =~= s@.skip(i + 1));
        }
        i += 1;
    }
    proof {
        assert(s@.skip(s@.len() as int) =~= Seq::<u8>::empty());
    }
    acc
}

/// The signing tag of a payload under a secret.
pub fn compute_tag(secret: &[u8], payload: &[u8]) -> (r: u64)
    ensures
        r == token_tag(secret@, payload@),
{
    let acc = tag_fold_exec(TAG_SEED, secret);
    tag_fold_exec(acc, payload)
}

} // verus!

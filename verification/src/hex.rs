//! Lowercase hexadecimal encoding of bytes and of 64-bit values, with the
//! round-trip lemmas the token codec rests on.

use vstd::prelude::*;

verus! {

/// Powers of sixteen, the radix of the encoding.
pub open spec fn pow16(n: nat) -> nat
    decreases n,
{
    if n == 0 {
        1
    } else {
        16 * pow16((n - 1) as nat)
    }
}

pub proof fn lemma_pow16_monotone(i: nat, j: nat)
    requires
        i <= j,
    ensures
        1 <= pow16(i) <= pow16(j),
    decreases j,
{
    if i < j {
        lemma_pow16_monotone(i, (j - 1) as nat);
    } else if j > 0 {
        lemma_pow16_monotone((i - 1) as nat, (j - 1) as nat);
    }
}

/// Whether a byte is a lowercase hexadecimal digit character.
pub open spec fn is_hex(b: u8) -> bool {
    ('0' as u8) <= b <= ('9' as u8) || ('a' as u8) <= b <= ('f' as u8)
}

/// The digit character for a value below sixteen.
pub open spec fn hex_digit(d: u8) -> u8
    recommends
        d < 16,
{
    if d < 10 {
        (('0' as u8) + d) as u8
    } else {
        (('a' as u8) + (d - 10)) as u8
    }
}

/// The value of a hexadecimal digit character.
pub open spec fn hex_value(b: u8) -> u8
    recommends
        is_hex(b),
{
    if b <= ('9' as u8) {
        (b - ('0' as u8)) as u8
    } else {
        ((b - ('a' as u8)) + 10) as u8
    }
}

pub proof fn lemma_hex_digit_value(d: u8)
    requires
        d < 16,
    ensures
        is_hex(hex_digit(d)),
        hex_value(hex_digit(d)) == d,
{
}

/// Whether every byte of the sequence is a lowercase hexadecimal digit.
pub open spec fn all_hex(s: Seq<u8>) -> bool {
    forall|i: int| 0 <= i < s.len() ==> is_hex(#[trigger] s[i])
}

/// The two-digit encoding of one byte.
pub open spec fn hex_byte(b: u8) -> Seq<u8> {
    seq![hex_digit(b / 16), hex_digit(b % 16)]
}

/// The digit-pair encoding of a byte sequence.
pub open spec fn hex_bytes(s: Seq<u8>) -> Seq<u8>
    decreases s.len(),
{
    if s.len() == 0 {
        Seq::empty()
    } else {
        hex_byte(s[0]) + hex_bytes(s.drop_first())
    }
}

pub proof fn lemma_hex_bytes_push(s: Seq<u8>, b: u8)
    ensures
        hex_bytes(s.push(b)) == hex_bytes(s) + hex_byte(b),
    decreases s.len(),
{
    if s.len() == 0 {
        reveal_with_fuel(hex_bytes, 3);
        assert(s.push(b)[0] == b);
        assert(s.push(b).drop_first() =~= Seq::<u8>::empty());
        assert(hex_bytes(s.push(b)) =~= hex_byte(b));
        assert(hex_bytes(s) + hex_byte(b) =~= hex_byte(b));
    } else {
        assert(s.push(b).drop_first() =~= s.drop_first().push(b));
        lemma_hex_bytes_push(s.drop_first(), b);
        assert(hex_bytes(s.push(b)) =~= hex_bytes(s) + hex_byte(b));
    }
}

pub proof fn lemma_hex_bytes_shape(s: Seq<u8>)
    ensures
        hex_bytes(s).len() == 2 * s.len(),
        all_hex(hex_bytes(s)),
    decreases s.len(),
{
    if s.len() > 0 {
        lemma_hex_bytes_shape(s.drop_first());
        lemma_hex_digit_value(s[0] / 16);
        lemma_hex_digit_value(s[0] % 16);
    }
}

/// The bytes a sequence of digit pairs encodes; meaningful on even-length,
/// all-hexadecimal input.
pub open spec fn unhex(s: Seq<u8>) -> Seq<u8>
    recommends
        s.len() % 2 == 0,
        all_hex(s),
    decreases s.len(),
{
    if s.len() < 2 {
        Seq::empty()
    } else {
        seq![(hex_value(s[0]) * 16 + hex_value(s[1])) as u8] + unhex(s.skip(2))
    }
}

/// Decoding the pair encoding of any byte sequence gives it back.
pub proof fn lemma_unhex_hex_bytes(s: Seq<u8>)
    ensures
        unhex(hex_bytes(s)) == s,
    decreases s.len(),
{
    if s.len() == 0 {
        assert(unhex(hex_bytes(s)) =~= s);
    } else {
        let h = hex_bytes(s);
        lemma_hex_bytes_shape(s.drop_first());
        lemma_hex_digit_value(s[0] / 16);
        lemma_hex_digit_value(s[0] % 16);
        assert(h.skip(2) =~= hex_bytes(s.drop_first()));
        lemma_unhex_hex_bytes(s.drop_first());
        assert(hex_value(h[0]) * 16 + hex_value(h[1]) == s[0]);
        assert(unhex(hex_bytes(s)) =~= s);
    }
}

/// The fixed-width encoding of the low `n` digits of a value, most
/// significant digit first.
pub open spec fn hex_fixed(v: nat, n: nat) -> Seq<u8>
    decreases n,
{
    if n == 0 {
        Seq::empty()
    } else {
        hex_fixed(v / 16, (n - 1) as nat) + seq![hex_digit((v % 16) as u8)]
    }
}

pub proof fn lemma_hex_fixed_shape(v: nat, n: nat)
    ensures
        hex_fixed(v, n).len() == n,
        all_hex(hex_fixed(v, n)),
    decreases n,
{
    if n > 0 {
        lemma_hex_fixed_shape(v / 16, (n - 1) as nat);
        lemma_hex_digit_value((v % 16) as u8);
        assert forall|i: int| 0 <= i < n implies is_hex(#[trigger] hex_fixed(v, n)[i]) by {
            if i < n - 1 {
                assert(hex_fixed(v, n)[i] == hex_fixed(v / 16, (n - 1) as nat)[i]);
            }
        }
    }
}

/// The value named by a digit sequence, most significant digit first.
pub open spec fn hex_val(s: Seq<u8>) -> nat
    decreases s.len(),
{
    if s.len() == 0 {
        0
    } else {
        (hex_val(s.drop_last()) * 16 + hex_value(s.last())) as nat
    }
}

pub proof fn lemma_hex_val_bound(s: Seq<u8>)
    requires
        all_hex(s),
    ensures
        hex_val(s) < pow16(s.len()),
    decreases s.len(),
{
    if s.len() == 0 {
    } else {
        assert(all_hex(s.drop_last())) by {
            assert(forall|i: int|
                0 <= i < s.len() - 1 ==> #[trigger] s.drop_last()[i] == s[i]);
        }
        lemma_hex_val_bound(s.drop_last());
        assert(is_hex(s.last()));
        assert(hex_value(s.last()) < 16);
    }
}

/// Reading back a fixed-width encoding recovers the value, as long as it
/// fit in the width.
pub proof fn lemma_hex_val_hex_fixed(v: nat, n: nat)
    requires
        v < pow16(n),
    ensures
        hex_val(hex_fixed(v, n)) == v,
    decreases n,
{
    if n == 0 {
    } else {
        let s = hex_fixed(v, n);
        lemma_hex_fixed_shape(v / 16, (n - 1) as nat);
        assert(s.drop_last() =~= hex_fixed(v / 16, (n - 1) as nat));
        assert(s.last() == hex_digit((v % 16) as u8));
        lemma_hex_digit_value((v % 16) as u8);
        assert(v / 16 < pow16((n - 1) as nat)) by {
            assert(pow16(n) == 16 * pow16((n - 1) as nat));
        }
        lemma_hex_val_hex_fixed(v / 16, (n - 1) as nat);
        assert(hex_val(s) == (v / 16) * 16 + (v % 16));
    }
}

/// The digit character for a value below sixteen.
pub fn hex_digit_exec(d: u8) -> (r: u8)
    requires
        d < 16,
    ensures
        r == hex_digit(d),
{
    if d < 10 {
        ('0' as u8) + d
    } else {
        ('a' as u8) + (d - 10)
    }
}

/// Whether a byte is a lowercase hexadecimal digit character.
pub fn is_hex_exec(b: u8) -> (r: bool)
    ensures
        r == is_hex(b),
{
    (('0' as u8) <= b && b <= ('9' as u8)) || (('a' as u8) <= b && b <= ('f' as u8))
}

/// The value of a hexadecimal digit character.
pub fn hex_value_exec(b: u8) -> (r: u8)
    requires
        is_hex(b),
    ensures
        r == hex_value(b),
        r < 16,
{
    if b <= ('9' as u8) {
        b - ('0' as u8)
    } else {
        (b - ('a' as u8)) + 10
    }
}

/// Append the digit-pair encoding of `src` onto `out`.
pub fn push_hex(out: &mut Vec<u8>, src: &[u8])
    ensures
        final(out)@ == old(out)@ + hex_bytes(src@),
{
    let ghost orig = out@;
    let mut i: usize = 0;
    proof {
        assert(src@.subrange(0, 0) =~= Seq::<u8>::empty());
        assert(out@ =~= orig + hex_bytes(src@.subrange(0, 0)));
    }
    while i < src.len()
        invariant
            0 <= i <= src@.len(),
            out@ == orig + hex_bytes(src@.subrange(0, i as int)),
        decreases src@.len() - i,
    {
        let b = src[i];
        out.push(hex_digit_exec(b / 16));
        out.push(hex_digit_exec(b % 16));
        proof {
            assert(src@.subrange(0, i + 1) =~= src@.subrange(0, i as int).push(src@[i as int]));
            lemma_hex_bytes_push(src@.subrange(0, i as int), src@[i as int]);
            assert(out@ =~= orig + hex_bytes(src@.subrange(0, i + 1)));
        }
        i += 1;
    }
    proof {
        assert(src@.subrange(0, src@.len() as int) =~= src@);
    }
}

/// Append the sixteen-digit encoding of a 64-bit value onto `out`.
pub fn push_hex_u64(out: &mut Vec<u8>, v: u64)
    ensures
        final(out)@ == old(out)@ + hex_fixed(v as nat, 16),
{
    push_hex_u64_width(out, v, 16);
}

fn push_hex_u64_width(out: &mut Vec<u8>, v: u64, n: u8)
    ensures
        final(out)@ == old(out)@ + hex_fixed(v as nat, n as nat),
    decreases n,
{
    if n == 0 {
        proof {
            assert(out@ =~= out@ + hex_fixed(v as nat, 0));
        }
    } else {
        push_hex_u64_width(out, v / 16, n - 1);
        out.push(hex_digit_exec((v % 16) as u8));
        proof {
            assert(out@ =~= old(out)@ + hex_fixed(v as nat, n as nat));
        }
    }
}

/// Decode an even run of hexadecimal digit characters into the bytes they
/// name; fails exactly on odd length or a byte outside the digit alphabet.
pub fn decode_hex(s: &[u8]) -> (r: Option<Vec<u8>>)
    ensures
        r is Some <==> (s@.len() % 2 == 0 && all_hex(s@)),
        r is Some ==> r->Some_0@ == unhex(s@),
{
    if s.len() % 2 != 0 {
        return None;
    }
    let mut out: Vec<u8> = Vec::new();
    let mut i: usize = 0;
    proof {
        assert(s@.skip(0) =~= s@);
        assert(out@ + unhex(s@) =~= unhex(s@));
    }
    while i < s.len()
        invariant
            0 <= i <= s@.len(),
            i % 2 == 0,
            s@.len() % 2 == 0,
            forall|j: int| 0 <= j < i ==> is_hex(#[trigger] s@[j]),
            unhex(s@) == out@ + unhex(s@.skip(i as int)),
        decreases s@.len() - i,
    {
        let a = s[i];
        let b = s[i + 1];
        if !is_hex_exec(a) {
            return None;
        }
        if !is_hex_exec(b) {
            return None;
        }
        let v: u8 = hex_value_exec(a) * 16 + hex_value_exec(b);
        out.push(v);
        proof {
            let rest = s@.skip(i as int);
            assert(rest.len() >= 2);
            assert(rest[0] == s@[i as int]);
            assert(rest[1] == s@[i + 1]);
            assert(rest.skip(2) =~= s@.skip(i + 2));
            assert(unhex(rest) == seq![v] + unhex(s@.skip(i + 2)));
            assert(out@ + unhex(s@.skip(i + 2)) =~= unhex(s@));
        }
        i += 2;
    }
    proof {
        assert(s@.skip(s@.len() as int) =~= Seq::<u8>::empty());
        assert(out@ =~= unhex(s@));
    }
    Some(out)
}

/// Read sixteen hexadecimal digit characters as a 64-bit value.
pub fn parse_hex16(s: &[u8]) -> (r: u64)
    requires
        s@.len() == 16,
        all_hex(s@),
    ensures
        r as nat == hex_val(s@),
{
    let mut x: u64 = 0;
    let mut i: usize = 0;
    proof {
        assert(s@.subrange(0, 0) =~= Seq::<u8>::empty());
        lemma_pow16_concrete();
    }
    while i < 16
        invariant
            0 <= i <= 16,
            s@.len() == 16,
            all_hex(s@),
            x as nat == hex_val(s@.subrange(0, i as int)),
            pow16(16) == 0x10000000000000000,
        decreases 16 - i,
    {
        proof {
            lemma_hex_val_bound(s@.subrange(0, i as int));
            lemma_pow16_monotone(i as nat, 15);
        }
        let d = hex_value_exec(s[i]);
        x = x * 16 + (d as u64);
        proof {
            let t = s@.subrange(0, i + 1);
            assert(t.drop_last() =~= s@.subrange(0, i as int));
            assert(t.last() == s@[i as int]);
        }
        i += 1;
    }
    proof {
        assert(s@.subrange(0, 16) =~= s@);
    }
    x
}

/// The sixteen-digit width holds exactly the 64-bit values.
pub proof fn lemma_pow16_concrete()
    ensures
        pow16(16) == 0x10000000000000000,
{
    reveal_with_fuel(pow16, 17);
}

} // verus!

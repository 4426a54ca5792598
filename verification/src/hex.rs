//! Lowercase hexadecimal rendering of byte strings, used to print a
//! content digest into the manifest and into upload headers.

use vstd::prelude::*;

verus! {

/// The lowercase hex digit for a value below 16, as an ASCII byte.
pub open spec fn hex_digit(n: u8) -> u8
    recommends
        n < 16,
{
    if n < 10 {
        (n + 48) as u8
    } else {
        (n + 87) as u8
    }
}

/// The lowercase hex rendering of a byte string: two digits per byte,
/// high nibble first.
pub open spec fn hex_bytes(s: Seq<u8>) -> Seq<u8>
    decreases s.len(),
{
    if s.len() == 0 {
        Seq::<u8>::empty()
    } else {
        seq![hex_digit(s[0] / 16), hex_digit(s[0] % 16)] + hex_bytes(s.drop_first())
    }
}

proof fn lemma_hex_bytes_push(s: Seq<u8>, b: u8)
    ensures
        hex_bytes(s.push(b)) == hex_bytes(s) + seq![hex_digit(b / 16), hex_digit(b % 16)],
    decreases s.len(),
{
    if s.len() == 0 {
        assert(s.push(b)[0] == b);
        assert(s.push(b).drop_first() =~= Seq::<u8>::empty());
        assert(hex_bytes(Seq::<u8>::empty()) == Seq::<u8>::empty());
        assert(hex_bytes(s) == Seq::<u8>::empty());
        assert(hex_bytes(s.push(b)) == seq![hex_digit(b / 16), hex_digit(b % 16)] + hex_bytes(
            s.push(b).drop_first(),
        ));
        assert(hex_bytes(s.push(b)) =~= hex_bytes(s) + seq![
            hex_digit(b / 16),
            hex_digit(b % 16),
        ]);
    } else {
        lemma_hex_bytes_push(s.drop_first(), b);
        assert(s.push(b)[0] == s[0]);
        assert(s.push(b).drop_first() =~= s.drop_first().push(b));
        assert(hex_bytes(s.push(b)) =~= hex_bytes(s) + seq![
            hex_digit(b / 16),
            hex_digit(b % 16),
        ]);
    }
}

pub proof fn lemma_hex_bytes_len(s: Seq<u8>)
    ensures
        hex_bytes(s).len() == 2 * s.len(),
    decreases s.len(),
{
    if s.len() > 0 {
        lemma_hex_bytes_len(s.drop_first());
    }
}

/// Renders a byte string as lowercase hex.
pub fn to_hex(bytes: &Vec<u8>) -> (r: Vec<u8>)
    ensures
        r@ == hex_bytes(bytes@),
{
    let mut out: Vec<u8> = Vec::new();
    let mut i: usize = 0;
    while i < bytes.len()
        invariant
            i <= bytes@.len(),
            out@ == hex_bytes(bytes@.take(i as int)),
        decreases bytes@.len() - i,
    {
        let b = bytes[i];
        out.push(if b / 16 < 10 {
            b / 16 + 48
        } else {
            b / 16 + 87
        });
        out.push(if b % 16 < 10 {
            b % 16 + 48
        } else {
            b % 16 + 87
        });
        proof {
            lemma_hex_bytes_push(bytes@.take(i as int), bytes@[i as int]);
            assert(bytes@.take(i + 1 as int) =~= bytes@.take(i as int).push(bytes@[i as int]));
        }
        i = i + 1;
    }
    proof {
        assert(bytes@.take(bytes@.len() as int) =~= bytes@);
    }
    out
}

} // verus!

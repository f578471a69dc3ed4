//! Hexadecimal text of byte strings, and the `hex` crate's codec.

use vstd::prelude::*;

verus! {

/// The lowercase hexadecimal digit for `v` (`0 <= v < 16`).
pub open spec fn hex_digit(v: nat) -> char {
    if v < 10 {
        crate::utils::text::digit_char(v)
    } else if v == 10 {
        'a'
    } else if v == 11 {
        'b'
    } else if v == 12 {
        'c'
    } else if v == 13 {
        'd'
    } else if v == 14 {
        'e'
    } else {
        'f'
    }
}

/// Lowercase hexadecimal text of `b`: two digits per byte, high nibble first.
pub open spec fn hex_lower(b: Seq<u8>) -> Seq<char>
    decreases b.len(),
{
    if b.len() == 0 {
        Seq::empty()
    } else {
        seq![hex_digit((b[0] / 16) as nat), hex_digit((b[0] % 16) as nat)] + hex_lower(
            b.drop_first(),
        )
    }
}

/// The value of a hexadecimal digit of either case.
pub open spec fn hex_value(c: char) -> Option<nat> {
    let u = c as u32;
    if 48 <= u <= 57 {
        Some((u - 48) as nat)
    } else if 97 <= u <= 102 {
        Some((u - 87) as nat)
    } else if 65 <= u <= 70 {
        Some((u - 55) as nat)
    } else {
        None
    }
}

/// `s` is an even number of hexadecimal digits of either case.
pub open spec fn hex_decodable(s: Seq<char>) -> bool {
    &&& s.len() % 2 == 0
    &&& forall|i: int| 0 <= i < s.len() ==> (#[trigger] hex_value(s[i])) is Some
}

/// The bytes that hexadecimal text `s` stands for.
pub open spec fn hex_bytes(s: Seq<char>) -> Seq<u8>
    decreases s.len(),
{
    if s.len() < 2 {
        Seq::empty()
    } else {
        seq![(hex_value(s[0])->0 * 16 + hex_value(s[1])->0) as u8] + hex_bytes(
            s.subrange(2, s.len() as int),
        )
    }
}

/// A lowercase hexadecimal digit of the text that `hex_lower` writes.
pub open spec fn is_lower_hex_digit(c: char) -> bool {
    let u = c as u32;
    (48 <= u <= 57) || (97 <= u <= 102)
}

/// `hex::encode`: lowercase hexadecimal text of the bytes, two digits per
/// byte, high nibble first, as the crate's source writes it.
#[verifier::external_body]
pub(crate) fn hex_encode(data: &[u8]) -> (r: String)
    ensures
        r@ == hex_lower(data@),
{
    hex::encode(data)
}

/// `hex::decode` on the UTF-8 bytes of `s`: it succeeds exactly when the
/// text is an even number of hexadecimal digits of either case (a character
/// outside ASCII has a byte that is no digit), and then gives the bytes that
/// the digit pairs stand for. The crate's error is dropped.
#[verifier::external_body]
pub(crate) fn hex_decode(s: &str) -> (r: Option<Vec<u8>>)
    ensures
        r is Some <==> hex_decodable(s@),
        r matches Some(b) ==> b@ == hex_bytes(s@),
{
    hex::decode(s).ok()
}

proof fn lemma_hex_digit_value(v: nat)
    requires
        v < 16,
    ensures
        hex_value(hex_digit(v)) == Some(v),
        is_lower_hex_digit(hex_digit(v)),
{
}

/// `hex_lower` writes two lowercase digits per byte, and reading them back
/// gives the bytes again.
pub proof fn lemma_hex_round_trip(b: Seq<u8>)
    ensures
        hex_lower(b).len() == 2 * b.len(),
        forall|i: int| 0 <= i < hex_lower(b).len() ==> is_lower_hex_digit(#[trigger] hex_lower(b)[i]),
        hex_decodable(hex_lower(b)),
        hex_bytes(hex_lower(b)) == b,
    decreases b.len(),
{
    if b.len() > 0 {
        let t = b.drop_first();
        lemma_hex_round_trip(t);
        let hi = (b[0] / 16) as nat;
        let lo = (b[0] % 16) as nat;
        lemma_hex_digit_value(hi);
        lemma_hex_digit_value(lo);
        let s = hex_lower(b);
        assert(s == seq![hex_digit(hi), hex_digit(lo)] + hex_lower(t));
        assert(s.subrange(2, s.len() as int) =~= hex_lower(t));
        assert forall|i: int| 0 <= i < s.len() implies is_lower_hex_digit(#[trigger] s[i]) by {
            if i >= 2 {
                assert(s[i] == hex_lower(t)[i - 2]);
            }
        }
        assert forall|i: int| 0 <= i < s.len() implies (#[trigger] hex_value(s[i])) is Some by {
            if i >= 2 {
                assert(s[i] == hex_lower(t)[i - 2]);
            }
        }
        assert(hex_bytes(s) =~= b);
    }
}

} // verus!

//! Trusted boundary to hexadecimal encoding and decoding of byte strings.

use vstd::prelude::*;

verus! {

/// The nibble a hexadecimal digit stands for, upper or lower case.
pub open spec fn hex_char_val(c: char) -> Option<u8> {
    let v = c as int;
    if 48 <= v <= 57 {
        Some((v - 48) as u8)
    } else if 65 <= v <= 70 {
        Some((v - 55) as u8)
    } else if 97 <= v <= 102 {
        Some((v - 87) as u8)
    } else {
        None
    }
}

/// A string decodes exactly when its length is even and every character
/// is a hexadecimal digit.
pub open spec fn hex_decode_ok(s: Seq<char>) -> bool {
    &&& s.len() % 2 == 0
    &&& forall|i: int| 0 <= i < s.len() ==> (#[trigger] hex_char_val(s[i])) is Some
}

/// The bytes a well-formed string decodes to, high nibble first.
pub open spec fn hex_decoded(s: Seq<char>) -> Seq<u8> {
    Seq::new(
        (s.len() / 2) as nat,
        |i: int| ((hex_char_val(s[2 * i])->Some_0 * 16) + hex_char_val(
            s[2 * i + 1],
        )->Some_0) as u8,
    )
}

/// The lower-case digit of one nibble.
pub open spec fn hex_digit_char(n: u8) -> char
    recommends
        n < 16,
{
    if n < 10 {
        ((48 + n) as u8) as char
    } else {
        ((87 + n) as u8) as char
    }
}

/// The lower-case encoding of a byte string, two digits per byte.
pub open spec fn hex_str_of(bytes: Seq<u8>) -> Seq<char> {
    Seq::new(
        bytes.len() * 2,
        |i: int|
            if i % 2 == 0 {
                hex_digit_char(bytes[i / 2] / 16)
            } else {
                hex_digit_char(bytes[i / 2] % 16)
            },
    )
}

/// Relies on hex::encode: two lower-case digits for each byte, in order.
#[verifier::external_body]
pub fn hex_encode(bytes: &[u8]) -> (r: String)
    ensures
        r@ == hex_str_of(bytes@),
{
    hex::encode(bytes)
}

/// Relies on hex::decode: an even-length string of hexadecimal digits
/// (either case) decodes to its bytes, high nibble first; anything else
/// is refused.
#[verifier::external_body]
pub fn hex_decode(s: &str) -> (r: Option<Vec<u8>>)
    ensures
        r is Some <==> hex_decode_ok(s@),
        r matches Some(v) ==> v@ == hex_decoded(s@),
{
    hex::decode(s).ok()
}

} // verus!

//! Hexadecimal text model and the trusted bridge to the `hex` crate.
//!
//! The specification functions here define what a hex string is and which
//! byte sequence it denotes; the two wrappers hand the actual encoding and
//! decoding to the `hex` crate under exactly those statements.

use vstd::prelude::*;

verus! {

/// A character that is a hexadecimal digit, in either case.
pub open spec fn is_hex_digit(c: char) -> bool {
    (48 <= c as u32 && c as u32 <= 57)  // '0'..'9'
    || (97 <= c as u32 && c as u32 <= 102)  // 'a'..'f'
    || (65 <= c as u32 && c as u32 <= 70)  // 'A'..'F'
}

/// The numeric value of a hexadecimal digit character.
pub open spec fn hex_digit_val(c: char) -> u8 {
    if 48 <= c as u32 && c as u32 <= 57 {
        (c as u32 - 48) as u8
    } else if 97 <= c as u32 && c as u32 <= 102 {
        (c as u32 - 87) as u8
    } else {
        (c as u32 - 55) as u8
    }
}

/// The lowercase hexadecimal digit character for a value below sixteen.
pub open spec fn hex_lower_char(v: u8) -> char {
    if v < 10 {
        ((48 + v) as u8) as char
    } else {
        ((87 + v) as u8) as char
    }
}

/// A string that the hex decoder accepts: even length, hex digits only.
pub open spec fn valid_hex_seq(s: Seq<char>) -> bool {
    s.len() % 2 == 0 && (forall|i: int| 0 <= i < s.len() ==> is_hex_digit(#[trigger] s[i]))
}

/// The bytes denoted by a hex string: one byte per digit pair, high digit first.
pub open spec fn bytes_of_hex(s: Seq<char>) -> Seq<u8> {
    Seq::new((s.len() / 2) as nat, |i: int| (16 * hex_digit_val(s[2 * i]) + hex_digit_val(s[2 * i + 1])) as u8)
}

/// The lowercase hex encoding of a byte sequence: two digits per byte, high first.
pub open spec fn hex_lower_of(b: Seq<u8>) -> Seq<char> {
    Seq::new(
        (2 * b.len()) as nat,
        |i: int| if i % 2 == 0 { hex_lower_char(b[i / 2] / 16) } else { hex_lower_char(b[i / 2] % 16) },
    )
}

/// Relies on `hex::decode` (hex 0.4.3): it succeeds exactly on inputs of even
/// length made of hex digits of either case, and returns one byte per digit
/// pair, high digit first. Hex digits are ASCII, so the byte-level test the
/// crate performs coincides with the character-level statement given here.
#[verifier::external_body]
pub(crate) fn hex_decode(s: &str) -> (r: Option<Vec<u8>>)
    ensures
        r is Some <==> valid_hex_seq(s@),
        r is Some ==> r->0@ == bytes_of_hex(s@),
{
    match hex::decode(s) {
        Ok(v) => Some(v),
        Err(_) => None,
    }
}

/// Relies on `hex::encode` (hex 0.4.3): two lowercase hex digits per input
/// byte, high digit first.
#[verifier::external_body]
pub(crate) fn hex_encode(b: &[u8]) -> (r: String)
    ensures
        r@ == hex_lower_of(b@),
{
    hex::encode(b)
}

/// Relies on `String::push` of std: appends exactly one character.
#[verifier::external_body]
pub(crate) fn push_char(s: &mut String, c: char)
    ensures
        final(s)@ == old(s)@ + seq![c],
{
    s.push(c);
}

} // verus!

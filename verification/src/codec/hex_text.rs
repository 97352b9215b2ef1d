//! Messages written as hexadecimal text.
use vstd::prelude::*;
use hex::FromHex;
use crate::codec::wire::CodecError;

verus! {

/// The value of a hexadecimal digit, of either case.
pub open spec fn spec_hex_digit(c: char) -> Option<u8> {
    if '0' <= c && c <= '9' {
        Some((c as u8 - '0' as u8) as u8)
    } else if 'a' <= c && c <= 'f' {
        Some((c as u8 - 'a' as u8 + 10) as u8)
    } else if 'A' <= c && c <= 'F' {
        Some((c as u8 - 'A' as u8 + 10) as u8)
    } else {
        None
    }
}

/// The bytes that a text of digit pairs stands for, the high digit first;
/// `None` for a text of odd length or with a character that is no digit.
pub open spec fn spec_hex_decode(s: Seq<char>) -> Option<Seq<u8>> {
    if s.len() % 2 == 0 && forall|i: int| 0 <= i < s.len() ==> spec_hex_digit(#[trigger] s[i]) is Some {
        Some(
            Seq::new(
                s.len() / 2,
                |i: int|
                    (spec_hex_digit(s[2 * i]).unwrap() * 16 + spec_hex_digit(
                        s[2 * i + 1],
                    ).unwrap()) as u8,
            ),
        )
    } else {
        None
    }
}

/// `hex`'s `FromHex` for `Vec<u8>`, applied to the text: it refuses a text of
/// odd length and a character that is no hexadecimal digit, and otherwise
/// turns each pair of digits into one byte, the first digit being the high
/// one. Both refusals become `None`.
#[verifier::external_body]
pub(crate) fn hex_decode(text: &str) -> (r: Option<Vec<u8>>)
    ensures
        match r {
            Some(v) => spec_hex_decode(text@) == Some(v@),
            None => spec_hex_decode(text@) is None,
        },
{
    Vec::<u8>::from_hex(text).ok()
}

/// The bytes that a hexadecimal text stands for, as the admin's
/// `msg-from-hex` command takes them.
pub fn bytes_from_hex(text: &str) -> (r: Result<Vec<u8>, CodecError>)
    ensures
        match spec_hex_decode(text@) {
            Some(b) => r matches Ok(v) && v@ == b,
            None => r == Err::<Vec<u8>, CodecError>(CodecError::InvalidHex),
        },
{
    match hex_decode(text) {
        Some(v) => Ok(v),
        None => Err(CodecError::InvalidHex),
    }
}

} // verus!

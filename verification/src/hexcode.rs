//! Hex decoding of the signature header's digest part.

use vstd::prelude::*;

verus! {

pub open spec fn is_hex_digit(c: char) -> bool {
    ||| 48 <= c as u32 <= 57  // '0' ..= '9'
    ||| 97 <= c as u32 <= 102  // 'a' ..= 'f'
    ||| 65 <= c as u32 <= 70  // 'A' ..= 'F'
}

pub open spec fn hex_digit_val(c: char) -> int
    recommends
        is_hex_digit(c),
{
    if 48 <= c as u32 <= 57 {
        c as u32 - 48
    } else if 97 <= c as u32 <= 102 {
        c as u32 - 97 + 10
    } else {
        c as u32 - 65 + 10
    }
}

/// The texts hex decoding accepts: an even number of hex digits, in
/// either case.
pub open spec fn hex_text_ok(s: Seq<char>) -> bool {
    &&& s.len() % 2 == 0
    &&& forall|i: int| 0 <= i < s.len() ==> is_hex_digit(s[i])
}

/// The bytes a well-formed hex text denotes: two digits per byte, high
/// nibble first.
pub open spec fn hex_bytes(s: Seq<char>) -> Seq<u8>
    recommends
        hex_text_ok(s),
{
    Seq::new((s.len() / 2) as nat, |i: int| (hex_digit_val(s[2 * i]) * 16 + hex_digit_val(s[2 * i + 1])) as u8)
}

/// Relies on hex::decode: it succeeds exactly on an even number of hex
/// digits of either case, and yields one byte per digit pair, high nibble
/// first. A character outside ASCII encodes to bytes at or above 0x80,
/// which hex::decode rejects, so the contract over characters agrees with
/// the crate's behaviour over the text's bytes.
#[verifier::external_body]
pub(crate) fn hex_decode(s: &str) -> (r: Option<Vec<u8>>)
    ensures
        r is Some <==> hex_text_ok(s@),
        r matches Some(v) ==> v@ == hex_bytes(s@),
{
    match hex::decode(s) {
        Ok(v) => Some(v),
        Err(_) => None,
    }
}

} // verus!

//! Lowercase hexadecimal encoding of build-id bytes.

use vstd::prelude::*;

verus! {

/// The lowercase hex digit of a nibble.
pub open spec fn hex_digit(n: u8) -> char
    recommends
        n < 16,
{
    if n < 10 {
        ((n + 48) as u8) as char
    } else {
        ((n + 87) as u8) as char
    }
}

/// The lowercase hex encoding of a byte string: two digits per byte,
/// high nibble first.
pub open spec fn hex_lower(bytes: Seq<u8>) -> Seq<char>
    decreases bytes.len(),
{
    if bytes.len() == 0 {
        Seq::empty()
    } else {
        seq![hex_digit(bytes[0] / 16), hex_digit(bytes[0] % 16)] + hex_lower(bytes.drop_first())
    }
}

/// Relies on base16::encode_lower: each input byte becomes two
/// lowercase hex digits, high nibble first.
#[verifier::external_body]
fn hex_encode_lower(data: &[u8]) -> (r: String)
    ensures
        r@ == hex_lower(data@),
{
    base16::encode_lower(data)
}

/// Encodes build-id bytes as a lowercase hex string.
pub fn buildid_hex(data: &[u8]) -> (r: String)
    ensures
        r@ == hex_lower(data@),
{
    hex_encode_lower(data)
}

} // verus!

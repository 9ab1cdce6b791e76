//! Hexadecimal encoding and validation.
//!
//! Responses carry digests as lowercase hex; the configured default selector
//! is validated as hex text once at startup. The encoding itself is done by
//! the `hex` crate, held to the exact byte-level statement below.

use vstd::prelude::*;

verus! {

/// ASCII code of the lowercase hex digit for a nibble.
pub open spec fn hex_digit(n: u8) -> u8
    recommends
        n < 16,
{
    if n < 10 {
        (48 + n) as u8
    } else {
        (87 + n) as u8
    }
}

/// Lowercase hex encoding of a byte sequence: two digits per byte, high
/// nibble first.
pub open spec fn hex_bytes_of(s: Seq<u8>) -> Seq<u8> {
    Seq::new(
        s.len() * 2,
        |i: int|
            if i % 2 == 0 {
                hex_digit((s[i / 2] / 16) as u8)
            } else {
                hex_digit((s[i / 2] % 16) as u8)
            },
    )
}

/// A byte that is an ASCII hex digit, of either case.
pub open spec fn is_hex_digit(b: u8) -> bool {
    (48 <= b && b <= 57) || (97 <= b && b <= 102) || (65 <= b && b <= 70)
}

/// The nibble an ASCII hex digit stands for.
pub open spec fn hex_val(b: u8) -> u8
    recommends
        is_hex_digit(b),
{
    if 48 <= b && b <= 57 {
        (b - 48) as u8
    } else if 97 <= b && b <= 102 {
        (b - 87) as u8
    } else {
        (b - 55) as u8
    }
}

/// Every byte of the sequence is a hex digit.
pub open spec fn all_hex(s: Seq<u8>) -> bool {
    forall|i: int| 0 <= i < s.len() ==> is_hex_digit(s[i])
}

/// A byte that is a lowercase hex digit.
pub open spec fn is_lower_hex_digit(b: u8) -> bool {
    (48 <= b && b <= 57) || (97 <= b && b <= 102)
}

/// Every byte of the sequence is a lowercase hex digit.
pub open spec fn all_lower_hex(s: Seq<u8>) -> bool {
    forall|i: int| 0 <= i < s.len() ==> is_lower_hex_digit(s[i])
}

/// Well-formed hex text: even length, hex digits throughout.
pub open spec fn hex_ok(s: Seq<u8>) -> bool {
    s.len() % 2 == 0 && all_hex(s)
}

/// The bytes well-formed hex text denotes, one per digit pair.
pub open spec fn hex_decoded(s: Seq<u8>) -> Seq<u8>
    recommends
        hex_ok(s),
{
    Seq::new(s.len() / 2, |i: int| (hex_val(s[2 * i]) * 16 + hex_val(s[2 * i + 1])) as u8)
}

/// `index` points at the first byte of `s` that is no hex digit.
pub open spec fn first_bad_digit(s: Seq<u8>, index: int) -> bool {
    &&& 0 <= index < s.len()
    &&& !is_hex_digit(s[index])
    &&& forall|j: int| 0 <= j < index ==> is_hex_digit(s[j])
}

/// Why a piece of text is not valid hex.
#[derive(Clone, Copy, Debug, PartialEq, Eq, Structural)]
pub enum HexError {
    /// The text's length is odd, so it cannot denote whole bytes.
    OddLength,
    /// The byte at `index` is not a hex digit; everything before it is.
    InvalidDigit { index: usize },
}

/// Law: hex encoding yields lowercase hex digits only, twice as many as the
/// input bytes — so an encoded digest is never the three-byte sentinel
/// `err`, whose middle byte is no hex digit.
pub proof fn lemma_hex_bytes_of_is_hex(s: Seq<u8>)
    ensures
        hex_bytes_of(s).len() == s.len() * 2,
        all_hex(hex_bytes_of(s)),
        all_lower_hex(hex_bytes_of(s)),
{
    assert forall|i: int| 0 <= i < hex_bytes_of(s).len() implies is_lower_hex_digit(
        hex_bytes_of(s)[i],
    ) && is_hex_digit(hex_bytes_of(s)[i]) by {
        let b = s[i / 2];
        assert(b / 16 < 16 && b % 16 < 16);
    }
}

/// Relies on `hex::encode`: each input byte becomes two lowercase hex
/// digits, high nibble first.
#[verifier::external_body]
pub(crate) fn hex_encode(data: &[u8]) -> (r: Vec<u8>)
    ensures
        r@ == hex_bytes_of(data@),
{
    hex::encode(data).into_bytes()
}

/// What decoding hex text `s` yields: its bytes exactly when it is
/// well-formed, an odd length reported before any digit is looked at, and
/// otherwise the first byte that is no hex digit.
pub open spec fn decode_result_is(s: Seq<u8>, r: Result<Vec<u8>, HexError>) -> bool {
    if hex_ok(s) {
        r matches Ok(v) && v@ == hex_decoded(s)
    } else if s.len() % 2 != 0 {
        r matches Err(HexError::OddLength)
    } else {
        r matches Err(HexError::InvalidDigit { index }) && first_bad_digit(s, index as int)
    }
}

/// Relies on `hex::decode`, which behaves as `decode_result_is` states.
#[verifier::external_body]
pub(crate) fn hex_decode(data: &[u8]) -> (r: Result<Vec<u8>, HexError>)
    ensures
        decode_result_is(data@, r),
{
    match hex::decode(data) {
        Ok(v) => Ok(v),
        Err(hex::FromHexError::OddLength) => Err(HexError::OddLength),
        Err(hex::FromHexError::InvalidHexCharacter { index, .. }) => Err(
            HexError::InvalidDigit { index },
        ),
        // `hex::decode` never reports this; `decode_to_slice` does.
        Err(hex::FromHexError::InvalidStringLength) => Err(HexError::OddLength),
    }
}

} // verus!

//! Unique identifiers of 128 bits.
use vstd::prelude::*;

verus! {

/// A power of sixteen.
pub open spec fn sixteen_to(n: nat) -> int
    decreases n,
{
    if n == 0 {
        1
    } else {
        16 * sixteen_to((n - 1) as nat)
    }
}

/// One of the 32 hexadecimal digits of an identifier, counted from the most significant one.
pub open spec fn hex_digit_at(value: u128, k: int) -> int {
    (value as int / sixteen_to((31 - k) as nat)) % 16
}

/// A hexadecimal digit in lower case.
pub open spec fn hex_char(digit: int) -> char {
    seq!['0', '1', '2', '3', '4', '5', '6', '7', '8', '9', 'a', 'b', 'c', 'd', 'e', 'f'][digit]
}

/// One of the 36 characters of an identifier as text: groups of 8, 4, 4, 4 and 12 digits with
/// hyphens between them.
pub open spec fn uuid_char_at(value: u128, at: int) -> char {
    if at == 8 || at == 13 || at == 18 || at == 23 {
        '-'
    } else if at < 8 {
        hex_char(hex_digit_at(value, at))
    } else if at < 13 {
        hex_char(hex_digit_at(value, at - 1))
    } else if at < 18 {
        hex_char(hex_digit_at(value, at - 2))
    } else if at < 23 {
        hex_char(hex_digit_at(value, at - 3))
    } else {
        hex_char(hex_digit_at(value, at - 4))
    }
}

/// An identifier as text.
pub open spec fn uuid_chars(value: u128) -> Seq<char> {
    Seq::new(36, |at: int| uuid_char_at(value, at))
}

/// Calls `uuid::Uuid::from_u128` and writes the result with its `Display`: 32 lower case digits in
/// five groups, the most significant digit first.
#[verifier::external_body]
pub(crate) fn uuid_text(value: u128) -> (text: String)
    ensures
        text@ == uuid_chars(value),
{
    uuid::Uuid::from_u128(value).to_string()
}

/// Calls `uuid::Uuid::new_v4`. All but six bits are random: the thirteenth digit says that the
/// identifier is a random one, and the seventeenth begins with the bits of the standard layout.
/// Where the system gives no random numbers, the call does not return.
#[verifier::external_body]
pub(crate) fn new_uuid() -> (value: u128)
    ensures
        hex_digit_at(value, 12) == 4,
        8 <= hex_digit_at(value, 16) <= 11,
{
    uuid::Uuid::new_v4().as_u128()
}

} // verus!

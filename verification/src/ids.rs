//! Identifiers: random version-4 UUIDs held as 128-bit integers (big-endian byte order,
//! as the `uuid` crate's `from_u128` / `as_u128` use it).
use vstd::prelude::*;

verus! {

/// A UUID, as the integer whose big-endian bytes are the UUID's bytes.
pub type Uuid = u128;

/// Whether a UUID carries the version-4 and RFC 4122 variant bits.
pub open spec fn is_v4(id: u128) -> bool {
    &&& (id >> 76u128) & 0xfu128 == 4u128
    &&& (id >> 62u128) & 0x3u128 == 2u128
}

/// A fresh random UUID (`uuid::Uuid::new_v4`).  The crate draws 128 random bits and
/// sets the version nibble to 4 and the variant bits to `10`; which value comes out is
/// chance, so only those bits are stated.
#[verifier::external_body]
pub(crate) fn new_id() -> (id: u128)
    ensures
        is_v4(id),
{
    uuid::Uuid::new_v4().as_u128()
}

/// The lower-case hexadecimal digit of a value below 16.
pub open spec fn hex_digit(n: int) -> char {
    seq!['0', '1', '2', '3', '4', '5', '6', '7', '8', '9', 'a', 'b', 'c', 'd', 'e', 'f'][n]
}

/// Hexadecimal digit `k` of a UUID, counted from the most significant of its 32.
pub open spec fn uuid_nibble(id: u128, k: int) -> int {
    ((id >> ((124 - 4 * k) as u128)) & 0xfu128) as int
}

/// The text that `uuid` writes for a UUID with `Display`: its 32 lower-case hexadecimal
/// digits, most significant first, in groups of 8, 4, 4, 4 and 12 joined by hyphens.
#[verifier::opaque]
pub open spec fn uuid_text(id: u128) -> Seq<char> {
    Seq::new(
        36,
        |i: int|
            if i == 8 || i == 13 || i == 18 || i == 23 {
                '-'
            } else {
                hex_digit(uuid_nibble(id, i - (if i < 8 { 0int } else if i < 13 { 1int } else if i < 18 { 2int } else if i < 23 { 3int } else { 4int })))
            },
    )
}

/// The text of a UUID (`uuid::Uuid::from_u128(id).to_string()`): the crate takes the
/// integer's big-endian bytes as the UUID and writes it hyphenated in lower-case hex.
#[verifier::external_body]
pub(crate) fn id_text(id: u128) -> (s: String)
    ensures
        s@ == uuid_text(id),
{
    uuid::Uuid::from_u128(id).to_string()
}

} // verus!

//! Entity identifiers: random version-4 UUIDs held as their 128-bit value,
//! and their canonical hyphenated text.
use vstd::prelude::*;

verus! {

/// The value carries the version-4 (random) UUID layout: version nibble 4
/// and the RFC 4122 variant bits `10`.
pub open spec fn is_v4_uuid(v: u128) -> bool {
    (v >> 76u128) & 0xfu128 == 4 && (v >> 62u128) & 0x3u128 == 2
}

/// The `k`-th hexadecimal digit of `v`, most significant first (`k < 32`).
pub open spec fn uuid_nibble(v: u128, k: int) -> u128 {
    (v >> ((4 * (31 - k)) as u128)) & 0xfu128
}

/// Lowercase hexadecimal digit character.
pub open spec fn hex_char(d: u128) -> char {
    if d < 10 {
        ((48 + d) as u8) as char
    } else {
        ((87 + d) as u8) as char
    }
}

/// Number of hyphens in the hyphenated form before position `j`.
pub open spec fn hyphens_before(j: int) -> int {
    if j > 23 {
        4
    } else if j > 18 {
        3
    } else if j > 13 {
        2
    } else if j > 8 {
        1
    } else {
        0
    }
}

/// The hyphenated lowercase form `xxxxxxxx-xxxx-xxxx-xxxx-xxxxxxxxxxxx`.
pub open spec fn uuid_text(v: u128) -> Seq<char> {
    Seq::new(
        36,
        |j: int|
            if j == 8 || j == 13 || j == 18 || j == 23 {
                '-'
            } else {
                hex_char(uuid_nibble(v, j - hyphens_before(j)))
            },
    )
}

/// A fresh random identifier (`uuid::Uuid::new_v4`). The value depends on
/// the random source, so only its version-4 layout is stated.
#[verifier::external_body]
pub(crate) fn new_v4_uuid() -> (id: u128)
    ensures
        is_v4_uuid(id),
{
    uuid::Uuid::new_v4().as_u128()
}

/// The hyphenated text of an identifier (`uuid::Uuid::from_u128` followed by
/// its `Display`, which writes the lowercase hyphenated form).
#[verifier::external_body]
pub(crate) fn uuid_hyphenated(id: u128) -> (s: String)
    ensures
        s@ == uuid_text(id),
{
    uuid::Uuid::from_u128(id).hyphenated().to_string()
}

} // verus!

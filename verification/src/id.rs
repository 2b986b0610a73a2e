//! Identifiers of clients, groups and sessions.
//!
//! An identifier is a 128-bit value. Fresh ones are random version 4 UUIDs,
//! and in text an identifier is written as a UUID is: lower-case hexadecimal
//! digits in groups of 8, 4, 4, 4 and 12, with hyphens between the groups.

use vstd::prelude::*;

verus! {

/// The character of a hexadecimal digit `d < 16`, in lower case.
pub open spec fn hex_char(d: nat) -> char {
    seq!['0', '1', '2', '3', '4', '5', '6', '7', '8', '9', 'a', 'b', 'c', 'd', 'e', 'f'][d as int]
}

/// Sixteen to the power of `e`.
pub open spec fn pow16(e: nat) -> nat
    decreases e,
{
    if e == 0 {
        1
    } else {
        16 * pow16((e - 1) as nat)
    }
}

/// The hexadecimal digit of `id` at `place`, counted from the most
/// significant of its 32 digits.
pub open spec fn hex_digit_at(id: u128, place: nat) -> nat {
    (id as nat / pow16((31 - place) as nat)) % 16
}

/// How many hyphens stand before position `i` of the hyphenated text.
pub open spec fn hyphens_before(i: int) -> int {
    if i > 23 {
        4
    } else if i > 18 {
        3
    } else if i > 13 {
        2
    } else if i > 8 {
        1
    } else {
        0
    }
}

/// The hyphenated text of an identifier: 36 characters, a hyphen at the
/// positions 8, 13, 18 and 23, and the 32 hexadecimal digits of `id` in
/// order at the others.
pub open spec fn hyphenated_text(id: u128) -> Seq<char> {
    Seq::new(
        36,
        |i: int|
            if i == 8 || i == 13 || i == 18 || i == 23 {
                '-'
            } else {
                hex_char(hex_digit_at(id, (i - hyphens_before(i)) as nat))
            },
    )
}

/// Holds of the identifiers that carry the marks of a random UUID: the
/// version digit is 4 and the two variant bits are `10`.
pub open spec fn is_random_id(id: u128) -> bool {
    id & 0xF000_C000_0000_0000_0000u128 == 0x4000_8000_0000_0000_0000u128
}

/// Draws a fresh identifier with `uuid::Uuid::new_v4` and hands it out as
/// the 128-bit number that `uuid::Uuid::as_u128` gives. Which identifier
/// comes is left open; only the version and variant marks that `new_v4`
/// sets on every one of them are claimed.
#[verifier::external_body]
pub(crate) fn random_id() -> (id: u128)
    ensures
        is_random_id(id),
{
    uuid::Uuid::new_v4().as_u128()
}

/// Writes an identifier as `uuid::Uuid` displays it: `uuid::Uuid::from_u128`
/// followed by `to_string`, which is the lower-case hyphenated form.
#[verifier::external_body]
pub(crate) fn hyphenated(id: u128) -> (s: String)
    ensures
        s@ == hyphenated_text(id),
{
    uuid::Uuid::from_u128(id).to_string()
}

} // verus!

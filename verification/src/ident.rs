//! Identifiers of graph elements. Every node, port, connection and character
//! carries a random 128-bit identifier drawn from the `uuid` crate.

use vstd::prelude::*;

verus! {

/// The lowercase hexadecimal digit for a value below 16.
pub open spec fn hex_digit(n: int) -> char {
    if n < 10 {
        (('0' as int) + n) as char
    } else {
        (('a' as int) + n - 10) as char
    }
}

/// Nibble `k` of `v`, counted from the most significant end (k = 0 is the top nibble).
pub open spec fn nibble(v: u128, k: int) -> int {
    ((v as int) / pow16(31 - k)) % 16
}

pub open spec fn pow16(e: int) -> int
    decreases e,
{
    if e <= 0 { 1 } else { 16 * pow16(e - 1) }
}

/// Lowercase hex digits of nibbles `from..to` of `v`.
pub open spec fn hex_run(v: u128, from: int, to: int) -> Seq<char>
    decreases to - from,
{
    if to <= from {
        seq![]
    } else {
        hex_run(v, from, to - 1).push(hex_digit(nibble(v, to - 1)))
    }
}

/// The hyphenated text form `xxxxxxxx-xxxx-xxxx-xxxx-xxxxxxxxxxxx` of a 128-bit identifier.
pub open spec fn uuid_hyphenated(v: u128) -> Seq<char> {
    hex_run(v, 0, 8) + seq!['-'] + hex_run(v, 8, 12) + seq!['-'] + hex_run(v, 12, 16)
        + seq!['-'] + hex_run(v, 16, 20) + seq!['-'] + hex_run(v, 20, 32)
}

/// The first eight characters of the text form, used in translation keys.
pub open spec fn uuid_prefix8(v: u128) -> Seq<char> {
    hex_run(v, 0, 8)
}

/// A fresh identifier from `uuid::Uuid::new_v4`, taken as its 128-bit value
/// (`Uuid::as_u128`). The value is random; the contract only records the version
/// nibble that `new_v4` always sets to 4.
#[verifier::external_body]
pub fn fresh_id() -> (r: u128)
    ensures
        (r >> 76u128) & 0xfu128 == 4u128,
{
    uuid::Uuid::new_v4().as_u128()
}

/// The text form of an identifier: `uuid::Uuid::from_u128(v).to_string()`, which
/// writes the 32 lowercase hex digits of `v` (most significant first) in groups
/// of 8-4-4-4-12 separated by hyphens.
#[verifier::external_body]
pub fn uuid_text(v: u128) -> (r: String)
    ensures
        r@ == uuid_hyphenated(v),
{
    uuid::Uuid::from_u128(v).to_string()
}

} // verus!

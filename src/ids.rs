//! Identifiers of users and listeners: UUIDs, drawn and read through the
//! `uuid` crate.
use vstd::arithmetic::power::pow;
use vstd::prelude::*;

verus! {

/// The lower-case hexadecimal digit for `n`, `0 <= n < 16`.
pub open spec fn hex_digit(n: int) -> char {
    seq!['0', '1', '2', '3', '4', '5', '6', '7', '8', '9', 'a', 'b', 'c', 'd', 'e', 'f'][n]
}

/// The `d`-th of the 32 hexadecimal digits of `id`, most significant first.
pub open spec fn uuid_nibble(id: u128, d: int) -> int {
    (id as int / pow(16, (31 - d) as nat)) % 16
}

/// Which hexadecimal digit stands at position `i` of the hyphenated text.
pub open spec fn digit_at(i: int) -> int {
    if i < 8 {
        i
    } else if i < 13 {
        i - 1
    } else if i < 18 {
        i - 2
    } else if i < 23 {
        i - 3
    } else {
        i - 4
    }
}

/// The canonical hyphenated text of the UUID whose 128-bit big-endian value
/// is `id`: 32 lower-case hexadecimal digits, most significant first, with
/// hyphens at positions 8, 13, 18 and 23.
pub open spec fn uuid_text(id: u128) -> Seq<char> {
    Seq::new(
        36,
        |i: int|
            if i == 8 || i == 13 || i == 18 || i == 23 {
                '-'
            } else {
                hex_digit(uuid_nibble(id, digit_at(i)))
            },
    )
}

/// The UUID, as its 128-bit big-endian value, that `uuid::Uuid::from_str`
/// reads from `s`, or `None` where it refuses `s`.
pub uninterp spec fn uuid_parse(s: Seq<char>) -> Option<u128>;

/// Relies on `uuid::Uuid::new_v4`: a random version-4 UUID. Nothing is
/// promised of the value.
#[verifier::external_body]
pub(crate) fn random_uuid() -> (r: u128) {
    uuid::Uuid::new_v4().as_u128()
}

/// Relies on `uuid::Uuid::from_u128` and its `Display`: the lower-case
/// hyphenated text of the UUID with that big-endian value.
#[verifier::external_body]
pub(crate) fn uuid_string(id: u128) -> (r: String)
    ensures
        r@ == uuid_text(id),
{
    uuid::Uuid::from_u128(id).to_string()
}

/// Relies on `uuid::Uuid::from_str` (that is, `Uuid::parse_str`): the UUID
/// that the text spells, if it spells one; a function of the text alone.
#[verifier::external_body]
pub(crate) fn parse_uuid(s: &str) -> (r: Option<u128>)
    ensures
        r == uuid_parse(s@),
{
    <uuid::Uuid as std::str::FromStr>::from_str(s).ok().map(|u| u.as_u128())
}

} // verus!

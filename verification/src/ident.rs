//! Identifiers of identities and sessions: 128-bit values, written as text in
//! the hyphenated form of a UUID.

use vstd::arithmetic::power::pow;
use vstd::prelude::*;

verus! {

/// The error of the `uuid` crate's parser.
#[verifier::external_type_specification]
#[verifier::external_body]
pub struct ExUuidError(uuid::Error);

/// The lower-case hexadecimal digit for `n`, which is below sixteen.
pub open spec fn hex_char(n: int) -> char {
    if n < 10 {
        (48 + n) as char
    } else {
        (87 + n) as char
    }
}

/// Which of the 32 hexadecimal digits stands at place `i` of the 36 places of
/// the hyphenated form, counting from the most significant digit.
pub open spec fn hex_position(i: int) -> int {
    if i < 8 {
        i
    } else if i < 13 {
        i - 1
    } else if i < 18 {
        i - 2
    } else if i < 23 {
        i - 3
    } else {
        i - 4
    }
}

/// The hyphenated lower-case form of `id`: 32 hexadecimal digits, most
/// significant first, in groups of 8, 4, 4, 4 and 12.
pub open spec fn uuid_text(id: u128) -> Seq<char> {
    Seq::new(
        36,
        |i: int|
            if i == 8 || i == 13 || i == 18 || i == 23 {
                '-'
            } else {
                hex_char((id as int / pow(16, (31 - hex_position(i)) as nat)) % 16)
            },
    )
}

/// The identifier that `uuid`'s parser reads from a text, `None` where it
/// refuses the text.
pub uninterp spec fn uuid_parsed(text: Seq<char>) -> Option<u128>;

/// The id is marked as a random one: its version is four, and its variant
/// is the one of RFC 9562.
pub open spec fn marked_random(id: u128) -> bool {
    (id >> 76) & 0xf == 4 && (id >> 62) & 0x3 == 2
}

/// Calls `uuid::Uuid::new_v4` and takes the value as a `u128`. The crate
/// draws 128 random bits and overwrites the four that hold the version and
/// the two that hold the variant; of the other bits nothing is claimed.
#[verifier::external_body]
pub(crate) fn fresh_id() -> (r: u128)
    ensures
        marked_random(r),
{
    uuid::Uuid::new_v4().as_u128()
}

/// Calls `to_string` on the `uuid::Uuid` made from `id` by `from_u128`. The
/// crate prints the sixteen bytes, most significant first, as lower-case
/// hexadecimal digits with hyphens after the 8th, 12th, 16th and 20th digit,
/// and its parser reads that text back as the same value.
#[verifier::external_body]
pub(crate) fn id_text(id: u128) -> (r: String)
    ensures
        r@ == uuid_text(id),
        uuid_parsed(r@) == Some(id),
{
    uuid::Uuid::from_u128(id).to_string()
}

/// Calls `uuid::Uuid::from_str` and takes the value as a `u128`.
#[verifier::external_body]
pub(crate) fn parse_id(text: &str) -> (r: Result<u128, uuid::Error>)
    ensures
        match r {
            Ok(id) => uuid_parsed(text@) == Some(id),
            Err(_) => uuid_parsed(text@) is None,
        },
{
    <uuid::Uuid as std::str::FromStr>::from_str(text).map(|u| u.as_u128())
}

} // verus!

//! Entity identifiers: 128-bit UUIDs, their hyphenated text and parsing.

use vstd::prelude::*;
use vstd::arithmetic::power::pow;

verus! {

/// The lowercase hexadecimal digit for `d` in `[0, 16)`.
pub open spec fn hex_digit(d: int) -> char {
    if d < 10 {
        (('0' as int) + d) as char
    } else {
        (('a' as int) + d - 10) as char
    }
}

/// The `i`-th hexadecimal digit of `id`, most significant first.
pub open spec fn nibble(id: u128, i: int) -> int {
    (id as int / pow(16, (31 - i) as nat)) % 16
}

/// How many hyphens precede position `p` of the hyphenated text.
pub open spec fn hyphens_before(p: int) -> int {
    if p < 8 {
        0
    } else if p < 13 {
        1
    } else if p < 18 {
        2
    } else if p < 23 {
        3
    } else {
        4
    }
}

/// The hyphenated lowercase text of a UUID given as its big-endian 128-bit
/// value: 32 hexadecimal digits grouped 8-4-4-4-12.
pub open spec fn uuid_text(id: u128) -> Seq<char> {
    Seq::new(
        36,
        |p: int|
            if p == 8 || p == 13 || p == 18 || p == 23 {
                '-'
            } else {
                hex_digit(nibble(id, p - hyphens_before(p)))
            },
    )
}

/// The `uuid` crate's `Uuid::from_u128(id).to_string()`: the hyphenated
/// lowercase text of the UUID with big-endian value `id`.
#[verifier::external_body]
pub(crate) fn uuid_string(id: u128) -> (r: String)
    ensures
        r@ == uuid_text(id),
{
    uuid::Uuid::from_u128(id).to_string()
}

/// What the `uuid` crate's `Uuid::parse_str` gives for `s`: the UUID's
/// big-endian value, or the text of the parse error.
pub uninterp spec fn uuid_parse_result(s: Seq<char>) -> Result<u128, Seq<char>>;

/// The `uuid` crate's `Uuid::parse_str` (simple, hyphenated, braced and URN
/// forms), with the UUID as its big-endian value and the error as its text.
#[verifier::external_body]
pub(crate) fn parse_uuid(s: &str) -> (r: Result<u128, String>)
    ensures
        match (r, uuid_parse_result(s@)) {
            (Ok(v), Ok(w)) => v == w,
            (Err(e), Err(t)) => e@ == t,
            _ => false,
        },
{
    match uuid::Uuid::parse_str(s) {
        Ok(u) => Ok(u.as_u128()),
        Err(e) => Err(e.to_string()),
    }
}

/// The id a listed entity's id text gives, when it is a UUID.
pub fn parse_id(s: &str) -> (r: Option<u128>)
    ensures
        r == match uuid_parse_result(s@) {
            Ok(v) => Some(v),
            Err(_) => None,
        },
{
    match parse_uuid(s) {
        Ok(v) => Some(v),
        Err(_) => None,
    }
}

/// The text of an id: the hyphenated lowercase UUID.
pub fn id_text(id: u128) -> (r: String)
    ensures
        r@ == uuid_text(id),
{
    uuid_string(id)
}

} // verus!

//! Event ids as text.
use vstd::arithmetic::power::pow;
use vstd::prelude::*;

verus! {

/// The character of a hexadecimal digit, in lower case.
pub open spec fn hex_digit(n: nat) -> char {
    if n < 10 {
        (48 + n) as char
    } else {
        (87 + n) as char
    }
}

/// The `k`-th of the 32 hexadecimal digits of an id, counted from the most significant one.
pub open spec fn id_digit(id: u128, k: int) -> nat {
    ((id as int / pow(16, (31 - k) as nat)) % 16) as nat
}

/// An id in its hyphenated form: its 32 digits in groups of 8, 4, 4, 4 and 12.
pub open spec fn hyphenated(id: u128) -> Seq<char> {
    Seq::new(
        36,
        |i: int|
            if i < 8 {
                hex_digit(id_digit(id, i))
            } else if i == 8 || i == 13 || i == 18 || i == 23 {
                '-'
            } else if i < 13 {
                hex_digit(id_digit(id, i - 1))
            } else if i < 18 {
                hex_digit(id_digit(id, i - 2))
            } else if i < 23 {
                hex_digit(id_digit(id, i - 3))
            } else {
                hex_digit(id_digit(id, i - 4))
            },
    )
}

/// The id that a text denotes, if it denotes one.
pub uninterp spec fn parsed_id(text: Seq<char>) -> Option<u128>;

/// Calls the `Display` of `uuid::Uuid`: the hyphenated form in lower case. Reading that text
/// back with `Uuid::parse_str` gives the same id.
#[verifier::external_body]
pub(crate) fn id_text(id: u128) -> (r: String)
    ensures
        r@ == hyphenated(id),
        parsed_id(r@) == Some(id),
{
    uuid::Uuid::from_u128(id).to_string()
}

/// Calls `uuid::Uuid::parse_str`, whose result depends on the text alone.
#[verifier::external_body]
pub(crate) fn parse_id(text: &str) -> (r: Option<u128>)
    ensures
        r == parsed_id(text@),
{
    match uuid::Uuid::parse_str(text) {
        Ok(id) => Some(id.as_u128()),
        Err(_) => None,
    }
}

} // verus!

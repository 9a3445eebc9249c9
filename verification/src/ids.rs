//! Identifiers. A UUID is held as the `u128` that `Uuid::as_u128` gives,
//! so that ids compare and sort as `Uuid` does (its bytes, big-endian).

use vstd::arithmetic::power::pow;
use vstd::prelude::*;

use crate::text::is_ascii_alnum;

verus! {

/// What `uuid::Uuid::parse_str` makes of a string, as `Uuid::as_u128`,
/// or `None` where it returns an error.
pub uninterp spec fn uuid_parse(s: Seq<char>) -> Option<u128>;

/// Calls `uuid::Uuid::parse_str(s)`; on success gives the id as
/// `Uuid::as_u128`. The contract only names the result: which strings the
/// crate accepts (hyphenated, simple, braced and URN forms) is not
/// restated here.
#[verifier::external_body]
pub(crate) fn parse_uuid(s: &str) -> (r: Option<u128>)
    ensures
        r == uuid_parse(s@),
{
    match uuid::Uuid::parse_str(s) {
        Ok(id) => Some(id.as_u128()),
        Err(_) => None,
    }
}

/// The lower-case hex digit for `n`, from 0 to 15.
pub open spec fn hex_digit(n: int) -> char {
    if n < 10 {
        (n + 48) as char
    } else {
        (n + 87) as char
    }
}

/// Which of the 32 hex digits of an id stands at column `i` of its
/// hyphenated text (columns 8, 13, 18 and 23 hold the hyphens).
pub open spec fn uuid_digit_index(i: int) -> int {
    if i < 8 {
        i
    } else if i < 13 {
        i - 1
    } else if i < 18 {
        i - 2
    } else if i < 23 {
        i - 3
    } else {
        i - 4
    }
}

/// The hyphenated text of an id: its 32 hex digits, most significant
/// first and in lower case, in groups of 8-4-4-4-12 joined by hyphens.
/// Kept opaque: no proof here needs its digits.
#[verifier::opaque]
pub open spec fn uuid_text(id: u128) -> Seq<char> {
    Seq::new(
        36,
        |i: int|
            if i == 8 || i == 13 || i == 18 || i == 23 {
                '-'
            } else {
                hex_digit((id as int / pow(16, (31 - uuid_digit_index(i)) as nat)) % 16)
            },
    )
}

/// Calls `Uuid::from_u128(id).to_string()`. The crate's `Display` writes
/// the hyphenated form in lower case (`uuid_text`), which `Uuid::parse_str`
/// reads back as the same id; the contract says both, and that the text is
/// made of ASCII letters, digits and hyphens.
#[verifier::external_body]
pub(crate) fn uuid_string(id: u128) -> (r: String)
    ensures
        r@ == uuid_text(id),
        uuid_parse(r@) == Some(id),
        forall|i: int| 0 <= i < r@.len() ==> is_ascii_alnum(#[trigger] r@[i]) || r@[i] == '-',
{
    uuid::Uuid::from_u128(id).to_string()
}

} // verus!

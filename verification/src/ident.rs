//! Secret identifiers: 128-bit values, written as hyphenated UUIDs.

use uuid::Uuid;
use vstd::prelude::*;

verus! {

/// `uuid::Error`, carried through unread.
#[verifier::external_type_specification]
#[verifier::external_body]
pub struct ExUuidError(uuid::Error);

/// The identifier that `text` is read as, or `None` where `text` is not a
/// UUID in any of the simple, hyphenated, URN or braced forms.
pub uninterp spec fn uuid_parse(text: Seq<char>) -> Option<u128>;

/// The `index`-th of the 32 hexadecimal digits of `id`, counted from the most
/// significant, in lower case.
pub open spec fn hex_digit(id: u128, index: int) -> char {
    "0123456789abcdef"@[((id >> ((4 * (31 - index)) as u128)) & 0xf) as int]
}

/// How many hyphens stand before position `at` of a hyphenated UUID.
pub open spec fn hyphens_before(at: int) -> int {
    if at < 8 {
        0
    } else if at < 13 {
        1
    } else if at < 18 {
        2
    } else if at < 23 {
        3
    } else {
        4
    }
}

/// The external form of an identifier: its 32 lower-case hexadecimal digits
/// in groups of 8, 4, 4, 4 and 12, joined by hyphens.
pub open spec fn id_text(id: u128) -> Seq<char> {
    Seq::new(
        36,
        |at: int|
            if at == 8 || at == 13 || at == 18 || at == 23 {
                '-'
            } else {
                hex_digit(id, at - hyphens_before(at))
            },
    )
}

/// `Uuid::parse_str`, read as a 128-bit value. Trusted: parsing depends on
/// the text alone, and is named `uuid_parse`.
#[verifier::external_body]
fn parse_uuid(text: &str) -> (parsed: Result<u128, uuid::Error>)
    ensures
        parsed is Ok <==> uuid_parse(text@) is Some,
        parsed matches Ok(id) ==> uuid_parse(text@) == Some(id),
{
    match Uuid::parse_str(text) {
        Ok(parsed) => Ok(parsed.as_u128()),
        Err(e) => Err(e),
    }
}

/// `Display` of `Uuid::from_u128(id)`. Trusted: the text is the lower-case
/// hyphenated form of `id`, and `Uuid::parse_str` reads it back as `id`.
#[verifier::external_body]
pub(crate) fn format_uuid(id: u128) -> (text: String)
    ensures
        text@ == id_text(id),
        uuid_parse(text@) == Some(id),
{
    Uuid::from_u128(id).to_string()
}

/// `Uuid::new_v4`, read as a 128-bit value. Nothing is claimed of the value
/// drawn.
#[verifier::external_body]
pub(crate) fn random_uuid() -> (id: u128) {
    Uuid::new_v4().as_u128()
}

/// Reads an identifier from its external form. Malformed text gives `None`.
pub fn parse_id(text: &str) -> (id: Option<u128>)
    ensures
        id == uuid_parse(text@),
{
    match parse_uuid(text) {
        Ok(id) => Some(id),
        Err(_) => None,
    }
}

} // verus!

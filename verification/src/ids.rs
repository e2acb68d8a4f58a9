//! Request identifiers: 128-bit UUID values with their textual wire form.

use vstd::prelude::*;

verus! {

/// A request identifier, the 128-bit value of a UUID.
#[derive(Clone, Copy, Debug, PartialEq, Eq, Structural)]
pub struct RequestId {
    pub value: u128,
}

/// What the uuid parser accepts, reduced to the 128-bit value it denotes;
/// `None` on text that is not a well-formed UUID.
pub uninterp spec fn parsed_uuid(s: Seq<char>) -> Option<u128>;

/// The hyphenated lower-case rendering of a 128-bit UUID value.
pub uninterp spec fn uuid_str_of(v: u128) -> Seq<char>;

/// Relies on `uuid::Uuid::parse_str`: the result depends on the text alone.
#[verifier::external_body]
pub(crate) fn uuid_parse(s: &str) -> (r: Option<u128>)
    ensures
        r == parsed_uuid(s@),
{
    match uuid::Uuid::parse_str(s) {
        Ok(u) => Some(u.as_u128()),
        Err(_) => None,
    }
}

/// Relies on `uuid::Uuid::hyphenated`: the rendering depends on the value
/// alone, and `uuid::Uuid::parse_str` reads the hyphenated form back to the
/// same value.
#[verifier::external_body]
pub(crate) fn uuid_format(v: u128) -> (r: String)
    ensures
        r@ == uuid_str_of(v),
        parsed_uuid(r@) == Some(v),
{
    uuid::Uuid::from_u128(v).hyphenated().to_string()
}

} // verus!

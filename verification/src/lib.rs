//! Marshalling core of an object-storage client: encodes typed values as
//! protocol headers on outgoing requests and decodes typed records from
//! response headers and XML response bodies, including paginated listings.

pub mod access_tier;
pub mod errors;
pub mod headers;
pub mod ids;
pub mod listing;
pub mod metadata;
pub mod numeric;
pub mod parsing_xml;
pub mod responses;
pub mod share;
pub mod text;
pub mod time;
pub mod xml_tree;

use vstd::prelude::*;

verus! {

/// A continuation token is absent exactly when it is `None` or empty text;
/// an empty marker string is normalized to absence.
pub open spec fn normalized_marker(m: Option<Seq<char>>) -> Option<Seq<char>> {
    match m {
        Some(s) => if s.len() == 0 {
            None
        } else {
            Some(s)
        },
        None => None,
    }
}

} // verus!

//! The closed set of decoding/encoding failure kinds shared by the header
//! codec and the XML entity parser. Every failure is terminal for the current
//! decode attempt and propagates to the caller unchanged.

use vstd::prelude::*;

verus! {

/// Spec-level image of an [`Error`]: the same variants over `Seq<char>`.
pub enum ErrorV {
    MissingHeader(Seq<char>),
    MalformedHeaderValue(Seq<char>),
    MalformedTimestamp(Seq<char>),
    MalformedXml(Seq<char>),
    MissingXmlNode(Seq<char>),
    UnexpectedXmlShape(Seq<char>),
    NumericParseFailure(Seq<char>),
}

/// A decode or encode failure. Each variant carries the identifying context:
/// the header name that was absent, the XML path or shape note, or the raw
/// text that failed to parse.
#[derive(Debug, Clone, PartialEq, Eq)]
pub enum Error {
    MissingHeader(String),
    MalformedHeaderValue(String),
    MalformedTimestamp(String),
    MalformedXml(String),
    MissingXmlNode(String),
    UnexpectedXmlShape(String),
    NumericParseFailure(String),
}

impl View for Error {
    type V = ErrorV;

    open spec fn view(&self) -> ErrorV {
        match self {
            Error::MissingHeader(s) => ErrorV::MissingHeader(s@),
            Error::MalformedHeaderValue(s) => ErrorV::MalformedHeaderValue(s@),
            Error::MalformedTimestamp(s) => ErrorV::MalformedTimestamp(s@),
            Error::MalformedXml(s) => ErrorV::MalformedXml(s@),
            Error::MissingXmlNode(s) => ErrorV::MissingXmlNode(s@),
            Error::UnexpectedXmlShape(s) => ErrorV::UnexpectedXmlShape(s@),
            Error::NumericParseFailure(s) => ErrorV::NumericParseFailure(s@),
        }
    }
}

} // verus!

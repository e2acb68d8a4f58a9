//! Timestamps, carried as seconds since the Unix epoch, with the RFC 2822
//! wire encoding used by protocol headers and listing bodies.

use vstd::prelude::*;

verus! {

/// The last second RFC 2822 can express with a four-digit year,
/// 9999-12-31 23:59:59 UTC.
pub const MAX_RFC2822_SECS: i64 = 253402300799;

/// An instant, as non-leap seconds since 1970-01-01 00:00:00 UTC.
#[derive(Clone, Copy, Debug, PartialEq, Eq, Structural)]
pub struct Timestamp {
    pub secs: i64,
}

impl Timestamp {
    /// An instant can be rendered in RFC 2822 iff it lies between the epoch
    /// and the last four-digit year.
    pub open spec fn encodable(self) -> bool {
        0 <= self.secs <= MAX_RFC2822_SECS
    }
}

/// The RFC 2822 rendering of an instant, e.g. `Wed, 01 Jan 2020 00:00:00 +0000`.
pub uninterp spec fn rfc2822_of(secs: i64) -> Seq<char>;

/// What chrono's RFC 2822 parser accepts, reduced to the instant it denotes;
/// `None` on text that is not a well-formed RFC 2822 date.
pub uninterp spec fn parsed_rfc2822(s: Seq<char>) -> Option<i64>;

/// Relies on chrono's `DateTime::to_rfc2822`: the rendering depends on the
/// instant alone, and `DateTime::parse_from_rfc2822` reads it back to the
/// same instant (the writer emits a four-digit year, a correct weekday and a
/// `+0000` offset, all of which the parser accepts literally).
#[verifier::external_body]
pub(crate) fn rfc2822_format(secs: i64) -> (r: String)
    requires
        0 <= secs <= MAX_RFC2822_SECS,
    ensures
        r@ == rfc2822_of(secs),
        parsed_rfc2822(r@) == Some(secs),
{
    let dt = chrono::DateTime::<chrono::Utc>::from_timestamp(secs, 0).unwrap();
    dt.to_rfc2822()
}

/// Relies on chrono's `DateTime::parse_from_rfc2822`: the result depends on
/// the text alone; the parsed instant is taken as its non-leap seconds.
#[verifier::external_body]
pub(crate) fn rfc2822_parse(s: &str) -> (r: Option<i64>)
    ensures
        r == parsed_rfc2822(s@),
{
    match chrono::DateTime::parse_from_rfc2822(s) {
        Ok(d) => Some(d.timestamp()),
        Err(_) => None,
    }
}

/// Relies on chrono's `Utc::now` for the wall clock; nothing is assumed of
/// the value it returns.
#[verifier::external_body]
pub(crate) fn now_secs() -> i64 {
    chrono::Utc::now().timestamp()
}

} // verus!

//! Typed response objects: the share properties response decoded from
//! headers, and the share listing response decoded from a body and headers.

use vstd::prelude::*;
use crate::errors::{Error, ErrorV};
use crate::headers::{lookup, Headers};
use crate::ids::{parsed_uuid, uuid_parse, RequestId};
use crate::listing::{
    incomplete_vector_from_share_response, opt_str_view, shares_views, spec_parse_listing,
    IncompleteVector, ListingV,
};
use crate::share::{spec_share_from_headers, Share, ShareV};
use crate::time::{parsed_rfc2822, rfc2822_parse, Timestamp};

verus! {

/// The decoded response of a get-properties operation.
#[derive(Debug, Clone)]
pub struct GetPropertiesResponse {
    pub share: Share,
    pub request_id: RequestId,
    pub date: Timestamp,
}

/// Spec-level image of a [`GetPropertiesResponse`].
pub struct GetPropertiesV {
    pub share: ShareV,
    pub request_id: u128,
    pub date: i64,
}

impl View for GetPropertiesResponse {
    type V = GetPropertiesV;

    open spec fn view(&self) -> GetPropertiesV {
        GetPropertiesV {
            share: self.share@,
            request_id: self.request_id.value,
            date: self.date.secs,
        }
    }
}

/// What decoding a get-properties response returns: the mandatory request id
/// and date headers first, then the share record itself.
pub open spec fn spec_get_properties(name: Seq<char>, h: Seq<(Seq<char>, Seq<char>)>) -> Result<
    GetPropertiesV,
    ErrorV,
> {
    match lookup(h, "x-ms-request-id"@) {
        None => Err(ErrorV::MissingHeader("x-ms-request-id"@)),
        Some(raw) => match parsed_uuid(raw) {
            None => Err(ErrorV::MalformedHeaderValue(raw)),
            Some(rid) => match lookup(h, "date"@) {
                None => Err(ErrorV::MissingHeader("date"@)),
                Some(d_raw) => match parsed_rfc2822(d_raw) {
                    None => Err(ErrorV::MalformedTimestamp(d_raw)),
                    Some(secs) => match spec_share_from_headers(name, h) {
                        Err(e) => Err(e),
                        Ok(share) => Ok(
                            GetPropertiesV { share, request_id: rid, date: secs },
                        ),
                    },
                },
            },
        },
    }
}

impl GetPropertiesResponse {
    /// Decodes a get-properties response from the share's name and the
    /// response header map.
    pub fn from_response(share_name: &str, headers: &Headers) -> (r: Result<
        GetPropertiesResponse,
        Error,
    >)
        ensures
            (match r {
                Ok(resp) => spec_get_properties(share_name@, headers@) == Ok::<
                    GetPropertiesV,
                    ErrorV,
                >(resp@),
                Err(e) => spec_get_properties(share_name@, headers@) == Err::<
                    GetPropertiesV,
                    ErrorV,
                >(e@),
            }),
    {
        let rid_raw = match headers.get("x-ms-request-id") {
            None => {
                return Err(Error::MissingHeader("x-ms-request-id".to_owned()));
            },
            Some(v) => v,
        };
        let request_id = match uuid_parse(rid_raw.as_str()) {
            None => {
                return Err(Error::MalformedHeaderValue(rid_raw));
            },
            Some(v) => RequestId { value: v },
        };
        let date_raw = match headers.get("date") {
            None => {
                return Err(Error::MissingHeader("date".to_owned()));
            },
            Some(v) => v,
        };
        let date = match rfc2822_parse(date_raw.as_str()) {
            None => {
                return Err(Error::MalformedTimestamp(date_raw));
            },
            Some(secs) => Timestamp { secs },
        };
        let share = match Share::from_response(share_name, headers) {
            Ok(s) => s,
            Err(e) => {
                return Err(e);
            },
        };
        Ok(GetPropertiesResponse { share, request_id, date })
    }
}

/// The decoded response of a list-shares operation.
#[derive(Debug, Clone)]
pub struct ListSharesResponse {
    pub incomplete_vector: IncompleteVector<Share>,
    pub request_id: RequestId,
}

/// What decoding a list-shares response returns: the parsed listing page
/// paired with the mandatory request id.
pub open spec fn spec_list_shares_response(
    body: Seq<char>,
    h: Seq<(Seq<char>, Seq<char>)>,
) -> Result<(ListingV, u128), ErrorV> {
    match spec_parse_listing(body) {
        Err(e) => Err(e),
        Ok(l) => match lookup(h, "x-ms-request-id"@) {
            None => Err(ErrorV::MissingHeader("x-ms-request-id"@)),
            Some(raw) => match parsed_uuid(raw) {
                None => Err(ErrorV::MalformedHeaderValue(raw)),
                Some(rid) => Ok((l, rid)),
            },
        },
    }
}

impl ListSharesResponse {
    /// True iff the continuation token is absent: no further page exists.
    pub fn is_complete(&self) -> (r: bool)
        ensures
            r == self.incomplete_vector.spec_is_complete(),
    {
        self.incomplete_vector.is_complete()
    }

    /// Decodes a list-shares response from its body text and header map.
    pub fn from_response(body: &str, headers: &Headers) -> (r: Result<ListSharesResponse, Error>)
        ensures
            (match r {
                Ok(resp) => spec_list_shares_response(body@, headers@) == Ok::<
                    (ListingV, u128),
                    ErrorV,
                >(
                    (
                        ListingV {
                            token: opt_str_view(resp.incomplete_vector.token),
                            shares: shares_views(resp.incomplete_vector.vector@),
                        },
                        resp.request_id.value,
                    ),
                ),
                Err(e) => spec_list_shares_response(body@, headers@) == Err::<
                    (ListingV, u128),
                    ErrorV,
                >(e@),
            }),
    {
        let incomplete_vector = match incomplete_vector_from_share_response(body) {
            Ok(v) => v,
            Err(e) => {
                return Err(e);
            },
        };
        let rid_raw = match headers.get("x-ms-request-id") {
            None => {
                return Err(Error::MissingHeader("x-ms-request-id".to_owned()));
            },
            Some(v) => v,
        };
        let request_id = match uuid_parse(rid_raw.as_str()) {
            None => {
                return Err(Error::MalformedHeaderValue(rid_raw));
            },
            Some(v) => RequestId { value: v },
        };
        Ok(ListSharesResponse { incomplete_vector, request_id })
    }
}

} // verus!

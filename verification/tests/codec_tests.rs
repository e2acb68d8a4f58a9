use storage_codec::access_tier::AccessTier;
use storage_codec::errors::Error;
use storage_codec::headers::{
    add_mandatory_header, add_mandatory_header2, add_optional_header, add_optional_header2,
    add_optional_header_ref, decode, decode_metadata, decode_optional, encode,
    CommonStorageResponseHeaders, HeaderEntry, HeaderItem, HeaderKind, HeaderValue, Headers,
};
use storage_codec::ids::RequestId;
use storage_codec::metadata::Metadata;
use storage_codec::numeric::{parse_u64, u64_to_string};
use storage_codec::time::Timestamp;

fn entry(name: &str, value: &str) -> HeaderEntry {
    HeaderEntry { name: name.to_string(), value: value.to_string() }
}

#[test]
fn quota_round_trip() {
    let mut h = Headers::new();
    encode(&HeaderItem::Quota(5120), &mut h);
    let got = decode(&h, "x-ms-share-quota", HeaderKind::Unsigned).unwrap();
    assert_eq!(got, HeaderValue::Unsigned(5120));
}

#[test]
fn tier_round_trip() {
    for tier in [
        AccessTier::TransactionOptimized,
        AccessTier::Hot,
        AccessTier::Cool,
        AccessTier::Premium,
    ] {
        let mut h = Headers::new();
        encode(&HeaderItem::Tier(tier), &mut h);
        let got = decode(&h, "x-ms-access-tier", HeaderKind::Tier).unwrap();
        assert_eq!(got, HeaderValue::Tier(tier));
    }
    assert_eq!(AccessTier::Hot.as_str(), "Hot");
    assert_eq!(AccessTier::parse("TransactionOptimized"), Some(AccessTier::TransactionOptimized));
    assert_eq!(AccessTier::parse("hot"), None);
}

#[test]
fn identifier_round_trip() {
    let mut h = Headers::new();
    encode(&HeaderItem::ClientRequestId("req-77".to_string()), &mut h);
    let got = decode(&h, "x-ms-client-request-id", HeaderKind::Text).unwrap();
    assert_eq!(got, HeaderValue::Text("req-77".to_string()));
}

#[test]
fn timestamp_round_trip() {
    let stamp = Timestamp { secs: 1577836800 };
    let mut h = Headers::new();
    encode(&HeaderItem::Date(stamp), &mut h);
    let got = decode(&h, "x-ms-date", HeaderKind::Stamp).unwrap();
    assert_eq!(got, HeaderValue::Stamp(stamp));
}

#[test]
fn timestamp_decode_known_value() {
    let mut h = Headers::new();
    h.append("x-ms-date".to_string(), "Wed, 01 Jan 2020 00:00:00 +0000".to_string());
    let got = decode(&h, "x-ms-date", HeaderKind::Stamp).unwrap();
    assert_eq!(got, HeaderValue::Stamp(Timestamp { secs: 1577836800 }));
}

#[test]
fn lease_id_round_trip() {
    let id = RequestId { value: 0xc9da6455213e42d99e793c9b5e75e897u128 };
    let mut h = Headers::new();
    encode(&HeaderItem::LeaseId(id), &mut h);
    let got = decode(&h, "x-ms-lease-id", HeaderKind::Uuid).unwrap();
    assert_eq!(got, HeaderValue::Uuid(id));
}

#[test]
fn uuid_decode_known_value() {
    let mut h = Headers::new();
    h.append(
        "x-ms-request-id".to_string(),
        "c9da6455-213e-42d9-9e79-3c9b5e75e897".to_string(),
    );
    let got = decode(&h, "x-ms-request-id", HeaderKind::Uuid).unwrap();
    assert_eq!(
        got,
        HeaderValue::Uuid(RequestId { value: 0xc9da6455213e42d99e793c9b5e75e897u128 })
    );
}

#[test]
fn optional_absence_is_none_mandatory_absence_is_error() {
    let h = Headers::new();
    let opt = decode_optional(&h, "x-ms-share-quota", HeaderKind::Unsigned).unwrap();
    assert!(opt.is_none());
    let err = decode(&h, "x-ms-share-quota", HeaderKind::Unsigned).unwrap_err();
    assert_eq!(err, Error::MissingHeader("x-ms-share-quota".to_string()));
}

#[test]
fn malformed_quota_is_numeric_failure() {
    for bad in ["-5", "abc"] {
        let mut h = Headers::new();
        h.append("x-ms-share-quota".to_string(), bad.to_string());
        let err = decode(&h, "x-ms-share-quota", HeaderKind::Unsigned).unwrap_err();
        assert_eq!(err, Error::NumericParseFailure(bad.to_string()));
        let err2 = decode_optional(&h, "x-ms-share-quota", HeaderKind::Unsigned).unwrap_err();
        assert_eq!(err2, Error::NumericParseFailure(bad.to_string()));
    }
}

#[test]
fn lookup_is_case_insensitive() {
    let h = Headers { entries: vec![entry("X-MS-Share-Quota", "7")] };
    let got = decode(&h, "x-ms-share-quota", HeaderKind::Unsigned).unwrap();
    assert_eq!(got, HeaderValue::Unsigned(7));
}

#[test]
fn encode_overwrites_existing_header() {
    let mut h = Headers { entries: vec![entry("x-ms-share-quota", "1")] };
    encode(&HeaderItem::Quota(2), &mut h);
    let got = decode(&h, "x-ms-share-quota", HeaderKind::Unsigned).unwrap();
    assert_eq!(got, HeaderValue::Unsigned(2));
    assert_eq!(h.entries.len(), 1);
}

#[test]
fn metadata_round_trip() {
    let mut m = Metadata::new();
    m.insert("key1".to_string(), "v1".to_string());
    let mut h = Headers::new();
    encode(&HeaderItem::Meta(m), &mut h);
    assert_eq!(h.entries.len(), 1);
    assert_eq!(h.entries[0].name, "x-ms-meta-key1");
    assert_eq!(h.entries[0].value, "v1");
    let back = decode_metadata(&h);
    assert_eq!(back.pairs.len(), 1);
    assert_eq!(back.pairs[0].key, "key1");
    assert_eq!(back.pairs[0].value, "v1");
}

#[test]
fn metadata_insert_overwrites() {
    let mut m = Metadata::new();
    m.insert("k".to_string(), "a".to_string());
    m.insert("k".to_string(), "b".to_string());
    assert_eq!(m.pairs.len(), 1);
    assert_eq!(m.pairs[0].value, "b");
}

#[test]
fn encode_entry_points_agree() {
    let item = HeaderItem::Quota(42);
    let mut h1 = Headers::new();
    let mut h2 = Headers::new();
    add_mandatory_header(&item, &mut h1);
    add_mandatory_header2(&item, &mut h2);
    assert_eq!(h1.entries.len(), h2.entries.len());
    for (a, b) in h1.entries.iter().zip(h2.entries.iter()) {
        assert_eq!(a.name, b.name);
        assert_eq!(a.value, b.value);
    }

    let opt = Some(HeaderItem::Tier(AccessTier::Cool));
    let mut h3 = Headers::new();
    let mut h4 = Headers::new();
    add_optional_header(&opt, &mut h3);
    add_optional_header2(&opt, &mut h4);
    assert_eq!(h3.entries.len(), 1);
    assert_eq!(h3.entries[0].name, h4.entries[0].name);
    assert_eq!(h3.entries[0].value, h4.entries[0].value);

    let none: Option<HeaderItem> = None;
    let mut h5 = Headers::new();
    add_optional_header(&none, &mut h5);
    add_optional_header2(&none, &mut h5);
    assert_eq!(h5.entries.len(), 0);

    let item2 = HeaderItem::ClientRequestId("abc".to_string());
    let borrowed = Some(&item2);
    let mut h6 = Headers::new();
    add_optional_header_ref(&borrowed, &mut h6);
    assert_eq!(h6.entries[0].name, "x-ms-client-request-id");
    assert_eq!(h6.entries[0].value, "abc");
}

#[test]
fn common_response_headers_decode() {
    let h = Headers {
        entries: vec![
            entry("x-ms-request-id", "c9da6455-213e-42d9-9e79-3c9b5e75e897"),
            entry("x-ms-client-request-id", "mine"),
            entry("x-ms-version", "2019-02-02"),
            entry("date", "Wed, 01 Jan 2020 00:00:00 +0000"),
            entry("server", "File-Service/1.0"),
        ],
    };
    let c = CommonStorageResponseHeaders::from_headers(&h).unwrap();
    assert_eq!(c.request_id.value, 0xc9da6455213e42d99e793c9b5e75e897u128);
    assert_eq!(c.client_request_id, Some("mine".to_string()));
    assert_eq!(c.version, "2019-02-02");
    assert_eq!(c.date, Timestamp { secs: 1577836800 });
    assert_eq!(c.server, "File-Service/1.0");
}

#[test]
fn common_response_headers_missing_version() {
    let h = Headers {
        entries: vec![entry("x-ms-request-id", "c9da6455-213e-42d9-9e79-3c9b5e75e897")],
    };
    let err = CommonStorageResponseHeaders::from_headers(&h).unwrap_err();
    assert_eq!(err, Error::MissingHeader("x-ms-version".to_string()));
}

#[test]
fn common_response_headers_malformed_date() {
    let h = Headers {
        entries: vec![
            entry("x-ms-request-id", "c9da6455-213e-42d9-9e79-3c9b5e75e897"),
            entry("x-ms-version", "2019-02-02"),
            entry("date", "yesterday"),
        ],
    };
    let err = CommonStorageResponseHeaders::from_headers(&h).unwrap_err();
    assert_eq!(err, Error::MalformedTimestamp("yesterday".to_string()));
}

#[test]
fn unsigned_decimal_codec() {
    assert_eq!(parse_u64("0"), Some(0));
    assert_eq!(parse_u64("+5"), Some(5));
    assert_eq!(parse_u64("18446744073709551615"), Some(u64::MAX));
    assert_eq!(parse_u64("18446744073709551616"), None);
    assert_eq!(parse_u64(""), None);
    assert_eq!(parse_u64("+"), None);
    assert_eq!(parse_u64(" 5"), None);
    assert_eq!(parse_u64("5 "), None);
    assert_eq!(parse_u64("12a"), None);
    assert_eq!(u64_to_string(0), "0");
    assert_eq!(u64_to_string(12345), "12345");
    assert_eq!(u64_to_string(u64::MAX), "18446744073709551615");
}

#[test]
fn malformed_uuid_header() {
    let mut h = Headers::new();
    h.append("x-ms-request-id".to_string(), "not-a-uuid".to_string());
    let err = decode(&h, "x-ms-request-id", HeaderKind::Uuid).unwrap_err();
    assert_eq!(err, Error::MalformedHeaderValue("not-a-uuid".to_string()));
}

#[test]
fn malformed_tier_header() {
    let mut h = Headers::new();
    h.append("x-ms-access-tier".to_string(), "Lukewarm".to_string());
    let err = decode(&h, "x-ms-access-tier", HeaderKind::Tier).unwrap_err();
    assert_eq!(err, Error::MalformedHeaderValue("Lukewarm".to_string()));
}

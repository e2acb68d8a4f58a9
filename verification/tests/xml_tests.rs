use storage_codec::access_tier::AccessTier;
use storage_codec::errors::Error;
use storage_codec::headers::{HeaderEntry, Headers};
use storage_codec::listing::incomplete_vector_from_share_response;
use storage_codec::parsing_xml::{
    cast_must_text, cast_must_u64, cast_optional_text, cast_optional_u64, traverse,
};
use storage_codec::responses::{GetPropertiesResponse, ListSharesResponse};
use storage_codec::share::Share;
use storage_codec::time::Timestamp;
use storage_codec::xml_tree::{XmlElement, XmlNode};

fn share_xml(name: &str, extra: &str) -> String {
    format!(
        "<Share><Name>{}</Name><Properties>\
         <Last-Modified>Wed, 01 Jan 2020 00:00:00 +0000</Last-Modified>\
         <Etag>0x8D7</Etag><Quota>5120</Quota><AccessTier>Hot</AccessTier>\
         </Properties>{}</Share>",
        name, extra
    )
}

fn listing_body(shares: &str, marker: &str) -> String {
    format!("<EnumerationResults><Shares>{}</Shares>{}</EnumerationResults>", shares, marker)
}

#[test]
fn empty_listing_is_complete() {
    let body = listing_body("", "");
    let v = incomplete_vector_from_share_response(&body).unwrap();
    assert_eq!(v.vector.len(), 0);
    assert!(v.is_complete());
}

#[test]
fn next_marker_means_incomplete() {
    let one = share_xml("a", "");
    let body = listing_body(&one, "<NextMarker>abc123</NextMarker>");
    let v = incomplete_vector_from_share_response(&body).unwrap();
    assert!(!v.is_complete());
    assert_eq!(v.token, Some("abc123".to_string()));
}

#[test]
fn empty_next_marker_means_complete() {
    let one = share_xml("a", "");
    let body = listing_body(&one, "<NextMarker></NextMarker>");
    let v = incomplete_vector_from_share_response(&body).unwrap();
    assert!(v.is_complete());
    assert_eq!(v.token, None);
}

#[test]
fn entity_order_is_preserved() {
    let shares = format!("{}{}{}", share_xml("a", ""), share_xml("b", ""), share_xml("c", ""));
    let body = listing_body(&shares, "");
    let v = incomplete_vector_from_share_response(&body).unwrap();
    let names: Vec<&str> = v.vector.iter().map(|s| s.name.as_str()).collect();
    assert_eq!(names, vec!["a", "b", "c"]);
}

#[test]
fn parsed_share_fields() {
    let body = listing_body(
        &share_xml(
            "stuff",
            "<Metadata><color>blue</color><size>big</size></Metadata>",
        ),
        "",
    );
    let v = incomplete_vector_from_share_response(&body).unwrap();
    assert_eq!(v.vector.len(), 1);
    let s = &v.vector[0];
    assert_eq!(s.name, "stuff");
    assert_eq!(s.last_modified, Timestamp { secs: 1577836800 });
    assert_eq!(s.e_tag, "0x8D7");
    assert_eq!(s.quota, 5120);
    assert_eq!(s.access_tier, AccessTier::Hot);
    assert!(!s.deleted);
    assert!(s.snapshot.is_none());
    assert_eq!(s.metadata.pairs.len(), 2);
    assert_eq!(s.metadata.pairs[0].key, "color");
    assert_eq!(s.metadata.pairs[0].value, "blue");
    assert_eq!(s.metadata.pairs[1].key, "size");
    assert_eq!(s.metadata.pairs[1].value, "big");
}

#[test]
fn optional_entity_fields() {
    let extra = "<Snapshot>Thu, 02 Jan 2020 00:00:00 +0000</Snapshot>\
                 <Version>01D</Version><Deleted>true</Deleted>";
    let body = listing_body(&share_xml("s", extra), "");
    let v = incomplete_vector_from_share_response(&body).unwrap();
    let s = &v.vector[0];
    assert_eq!(s.snapshot, Some(Timestamp { secs: 1577923200 }));
    assert_eq!(s.version, Some("01D".to_string()));
    assert!(s.deleted);
}

#[test]
fn metadata_child_without_text_is_shape_error() {
    let body = listing_body(&share_xml("s", "<Metadata><color></color></Metadata>"), "");
    let err = incomplete_vector_from_share_response(&body).unwrap_err();
    assert_eq!(err, Error::UnexpectedXmlShape("color".to_string()));
}

#[test]
fn metadata_child_with_nested_element_is_shape_error() {
    let body = listing_body(
        &share_xml("s", "<Metadata><color><deep/></color></Metadata>"),
        "",
    );
    let err = incomplete_vector_from_share_response(&body).unwrap_err();
    assert_eq!(err, Error::UnexpectedXmlShape("color".to_string()));
}

#[test]
fn malformed_entity_quota_is_numeric_failure() {
    let bad = "<Share><Name>s</Name><Properties>\
               <Last-Modified>Wed, 01 Jan 2020 00:00:00 +0000</Last-Modified>\
               <Etag>0x8D7</Etag><Quota>abc</Quota><AccessTier>Hot</AccessTier>\
               </Properties></Share>";
    let body = listing_body(bad, "");
    let err = incomplete_vector_from_share_response(&body).unwrap_err();
    assert_eq!(err, Error::NumericParseFailure("abc".to_string()));
}

#[test]
fn missing_mandatory_entity_field() {
    let bad = "<Share><Properties>\
               <Last-Modified>Wed, 01 Jan 2020 00:00:00 +0000</Last-Modified>\
               <Etag>0x8D7</Etag><Quota>1</Quota><AccessTier>Hot</AccessTier>\
               </Properties></Share>";
    let body = listing_body(bad, "");
    let err = incomplete_vector_from_share_response(&body).unwrap_err();
    assert_eq!(err, Error::MissingXmlNode("Name".to_string()));
}

#[test]
fn syntax_error_is_malformed_xml() {
    let err = incomplete_vector_from_share_response("no markup here").unwrap_err();
    assert!(matches!(err, Error::MalformedXml(_)));
}

#[test]
fn traverse_and_casts_on_hand_built_tree() {
    let leaf = XmlElement {
        name: "Quota".to_string(),
        children: vec![XmlNode::Text("77".to_string())],
    };
    let empty_leaf = XmlElement { name: "Marker".to_string(), children: vec![] };
    let root = XmlElement {
        name: "Root".to_string(),
        children: vec![
            XmlNode::Element(leaf),
            XmlNode::Element(empty_leaf),
            XmlNode::Text("stray".to_string()),
        ],
    };
    let found = traverse(&root, &["Quota"], true).unwrap();
    assert_eq!(found.len(), 1);
    assert_eq!(cast_must_u64(&root, &["Quota"]).unwrap(), 77);
    assert_eq!(cast_must_text(&root, &["Marker"]).unwrap(), "");
    assert_eq!(cast_optional_text(&root, &["Absent"]).unwrap(), None);
    assert_eq!(cast_optional_u64(&root, &["Quota"]).unwrap(), Some(77));
    let err = traverse(&root, &["Absent"], true).unwrap_err();
    assert_eq!(err, Error::MissingXmlNode("Absent".to_string()));
    let empty = traverse(&root, &["Absent"], false).unwrap();
    assert_eq!(empty.len(), 0);
}

#[test]
fn get_properties_response_decode() {
    let h = Headers {
        entries: vec![
            HeaderEntry {
                name: "x-ms-request-id".to_string(),
                value: "c9da6455-213e-42d9-9e79-3c9b5e75e897".to_string(),
            },
            HeaderEntry {
                name: "date".to_string(),
                value: "Wed, 01 Jan 2020 00:00:00 +0000".to_string(),
            },
            HeaderEntry {
                name: "last-modified".to_string(),
                value: "Wed, 01 Jan 2020 00:00:00 +0000".to_string(),
            },
            HeaderEntry { name: "etag".to_string(), value: "0x8D7".to_string() },
            HeaderEntry { name: "x-ms-access-tier".to_string(), value: "Cool".to_string() },
            HeaderEntry { name: "x-ms-share-quota".to_string(), value: "100".to_string() },
            HeaderEntry { name: "x-ms-meta-owner".to_string(), value: "me".to_string() },
        ],
    };
    let resp = GetPropertiesResponse::from_response("myshare", &h).unwrap();
    assert_eq!(resp.request_id.value, 0xc9da6455213e42d99e793c9b5e75e897u128);
    assert_eq!(resp.date, Timestamp { secs: 1577836800 });
    assert_eq!(resp.share.name, "myshare");
    assert_eq!(resp.share.quota, 100);
    assert_eq!(resp.share.e_tag, "0x8D7");
    assert_eq!(resp.share.access_tier, AccessTier::Cool);
    assert_eq!(resp.share.metadata.pairs.len(), 1);
    assert_eq!(resp.share.metadata.pairs[0].key, "owner");
    assert_eq!(resp.share.metadata.pairs[0].value, "me");
}

#[test]
fn get_properties_missing_quota() {
    let h = Headers {
        entries: vec![
            HeaderEntry {
                name: "x-ms-request-id".to_string(),
                value: "c9da6455-213e-42d9-9e79-3c9b5e75e897".to_string(),
            },
            HeaderEntry {
                name: "date".to_string(),
                value: "Wed, 01 Jan 2020 00:00:00 +0000".to_string(),
            },
            HeaderEntry {
                name: "last-modified".to_string(),
                value: "Wed, 01 Jan 2020 00:00:00 +0000".to_string(),
            },
            HeaderEntry { name: "etag".to_string(), value: "0x8D7".to_string() },
            HeaderEntry { name: "x-ms-access-tier".to_string(), value: "Hot".to_string() },
        ],
    };
    let err = GetPropertiesResponse::from_response("myshare", &h).unwrap_err();
    assert_eq!(err, Error::MissingHeader("x-ms-share-quota".to_string()));
}

#[test]
fn list_shares_response_decode() {
    let body = listing_body(&share_xml("a", ""), "<NextMarker>tok</NextMarker>");
    let h = Headers {
        entries: vec![HeaderEntry {
            name: "x-ms-request-id".to_string(),
            value: "c9da6455-213e-42d9-9e79-3c9b5e75e897".to_string(),
        }],
    };
    let resp = ListSharesResponse::from_response(&body, &h).unwrap();
    assert!(!resp.is_complete());
    assert_eq!(resp.incomplete_vector.vector.len(), 1);
    assert_eq!(resp.request_id.value, 0xc9da6455213e42d99e793c9b5e75e897u128);
}

#[test]
fn listing_with_declaration_and_whitespace() {
    let body = format!(
        "<?xml version=\"1.0\" encoding=\"utf-8\"?>\n<EnumerationResults>\n  <Shares>{}</Shares>\n  <NextMarker/>\n</EnumerationResults>",
        share_xml("ws", "")
    );
    let v = incomplete_vector_from_share_response(&body).unwrap();
    assert_eq!(v.vector.len(), 1);
    assert_eq!(v.vector[0].name, "ws");
    assert!(v.is_complete());
}

#[test]
fn share_new_defaults() {
    let s = Share::new("fresh");
    assert_eq!(s.name, "fresh");
    assert!(s.snapshot.is_none());
    assert!(s.version.is_none());
    assert!(!s.deleted);
    assert_eq!(s.e_tag, "");
    assert_eq!(s.quota, 0);
    assert_eq!(s.access_tier, AccessTier::TransactionOptimized);
    assert_eq!(s.metadata.pairs.len(), 0);
}

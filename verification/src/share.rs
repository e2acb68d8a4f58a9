//! The share resource record: mandatory and optional fields decoded from
//! response headers or from one listing entity node, plus its metadata
//! sub-traversal.

use vstd::prelude::*;
use crate::access_tier::AccessTier;
use crate::errors::{Error, ErrorV};
use crate::headers::{decode_metadata, lookup, Headers};
use crate::metadata::{meta_map, meta_pairs_of, Metadata, MetaPair};
use crate::numeric::{dec_of, parse_u64};
use crate::parsing_xml::{
    cast_must_text, cast_must_tier, cast_must_timestamp, cast_must_u64, cast_optional_bool,
    cast_optional_text, cast_optional_timestamp, cast_optional_u64, elems_views, path_views,
    spec_cast_opt_bool, spec_cast_opt_stamp, spec_cast_opt_text, spec_cast_opt_u64,
    spec_cast_stamp, spec_cast_text, spec_cast_tier, spec_cast_u64, traverse, traverse_result,
};
use crate::text::str_eq;
use crate::time::{now_secs, parsed_rfc2822, rfc2822_parse, Timestamp};
use crate::xml_tree::{nodes_view, text_content, lemma_nodes_view_index, ElemV, NodeV, XmlElement, XmlNode};
use crate::access_tier::tier_of;

verus! {

/// One storage share: mandatory fields must be present in a well-formed
/// response — their absence is a decode error, never a default — and
/// optional fields decode to `None` on absence.
#[derive(Debug, Clone)]
pub struct Share {
    pub name: String,
    pub snapshot: Option<Timestamp>,
    pub version: Option<String>,
    pub deleted: bool,
    pub last_modified: Timestamp,
    pub e_tag: String,
    pub quota: u64,
    pub provisioned_iops: Option<u64>,
    pub provisioned_ingress_mbps: Option<u64>,
    pub provisioned_egress_mbps: Option<u64>,
    pub next_allowed_quota_downgrade_time: Option<Timestamp>,
    pub deleted_time: Option<Timestamp>,
    pub remaining_retention_days: Option<u64>,
    pub access_tier: AccessTier,
    pub metadata: Metadata,
}

/// Spec-level image of a [`Share`]; the metadata is its mapping.
pub struct ShareV {
    pub name: Seq<char>,
    pub snapshot: Option<i64>,
    pub version: Option<Seq<char>>,
    pub deleted: bool,
    pub last_modified: i64,
    pub e_tag: Seq<char>,
    pub quota: u64,
    pub provisioned_iops: Option<u64>,
    pub provisioned_ingress_mbps: Option<u64>,
    pub provisioned_egress_mbps: Option<u64>,
    pub next_allowed_quota_downgrade_time: Option<i64>,
    pub deleted_time: Option<i64>,
    pub remaining_retention_days: Option<u64>,
    pub access_tier: AccessTier,
    pub metadata: Map<Seq<char>, Seq<char>>,
}

impl View for Share {
    type V = ShareV;

    open spec fn view(&self) -> ShareV {
        ShareV {
            name: self.name@,
            snapshot: match self.snapshot {
                Some(t) => Some(t.secs),
                None => None,
            },
            version: match &self.version {
                Some(s) => Some(s@),
                None => None,
            },
            deleted: self.deleted,
            last_modified: self.last_modified.secs,
            e_tag: self.e_tag@,
            quota: self.quota,
            provisioned_iops: self.provisioned_iops,
            provisioned_ingress_mbps: self.provisioned_ingress_mbps,
            provisioned_egress_mbps: self.provisioned_egress_mbps,
            next_allowed_quota_downgrade_time: match self.next_allowed_quota_downgrade_time {
                Some(t) => Some(t.secs),
                None => None,
            },
            deleted_time: match self.deleted_time {
                Some(t) => Some(t.secs),
                None => None,
            },
            remaining_retention_days: self.remaining_retention_days,
            access_tier: self.access_tier,
            metadata: meta_map(self.metadata@),
        }
    }
}

/// The images of a metadata pair sequence.
pub open spec fn pairs_views(s: Seq<MetaPair>) -> Seq<(Seq<char>, Seq<char>)> {
    Seq::new(s.len(), |i: int| s[i]@)
}

/// The metadata pairs the children of one `Metadata` node carry, in order:
/// each child must be an element with exactly one text-content child; any
/// other shape — a non-element child, no child, several children, a
/// non-text child — is an unexpected-shape error.
pub open spec fn spec_meta_pairs(children: Seq<NodeV>) -> Result<
    Seq<(Seq<char>, Seq<char>)>,
    ErrorV,
>
    decreases children.len(),
{
    if children.len() == 0 {
        Ok(Seq::empty())
    } else {
        match spec_meta_pairs(children.drop_last()) {
            Err(e) => Err(e),
            Ok(rest) => match children.last() {
                NodeV::Elem(el) => if el.children.len() == 1 {
                    match el.children[0] {
                        NodeV::Text(t) => Ok(rest.push((el.name, t))),
                        _ => Err(ErrorV::UnexpectedXmlShape(el.name)),
                    }
                } else {
                    Err(ErrorV::UnexpectedXmlShape(el.name))
                },
                _ => Err(ErrorV::UnexpectedXmlShape("Metadata"@)),
            },
        }
    }
}

/// The metadata pairs of a sequence of `Metadata` nodes, concatenated in
/// document order; the first ill-shaped child is the error.
pub open spec fn spec_meta_all(es: Seq<ElemV>) -> Result<Seq<(Seq<char>, Seq<char>)>, ErrorV>
    decreases es.len(),
{
    if es.len() == 0 {
        Ok(Seq::empty())
    } else {
        match spec_meta_all(es.drop_last()) {
            Err(e) => Err(e),
            Ok(acc) => match spec_meta_pairs(es.last().children) {
                Err(e) => Err(e),
                Ok(ps) => Ok(acc + ps),
            },
        }
    }
}

/// The metadata mapping of one entity node: the pairs under its `Metadata`
/// children, later pairs winning; an absent `Metadata` node is an empty
/// mapping.
pub open spec fn spec_share_metadata(root: ElemV) -> Result<Map<Seq<char>, Seq<char>>, ErrorV> {
    match traverse_result(seq![root], seq!["Metadata"@], false) {
        Err(e) => Err(e),
        Ok(nodes) => match spec_meta_all(nodes) {
            Err(e) => Err(e),
            Ok(pairs) => Ok(meta_map(pairs)),
        },
    }
}

/// What parsing one listing entity node returns, field by field in decode
/// order; the first failing cast is the error.
pub open spec fn spec_parse_share(e: ElemV) -> Result<ShareV, ErrorV> {
    match spec_cast_text(e, seq!["Name"@]) {
        Err(err) => Err(err),
        Ok(name) => match spec_cast_opt_stamp(e, seq!["Snapshot"@]) {
            Err(err) => Err(err),
            Ok(snapshot) => match spec_cast_opt_text(e, seq!["Version"@]) {
                Err(err) => Err(err),
                Ok(version) => match spec_cast_opt_bool(e, seq!["Deleted"@]) {
                    Err(err) => Err(err),
                    Ok(deleted_opt) => match spec_cast_stamp(
                        e,
                        seq!["Properties"@, "Last-Modified"@],
                    ) {
                        Err(err) => Err(err),
                        Ok(last_modified) => match spec_cast_text(
                            e,
                            seq!["Properties"@, "Etag"@],
                        ) {
                            Err(err) => Err(err),
                            Ok(e_tag) => match spec_cast_u64(e, seq!["Properties"@, "Quota"@]) {
                                Err(err) => Err(err),
                                Ok(quota) => match spec_cast_opt_stamp(
                                    e,
                                    seq!["Properties"@, "DeletedTime"@],
                                ) {
                                    Err(err) => Err(err),
                                    Ok(deleted_time) => match spec_cast_opt_u64(
                                        e,
                                        seq!["Properties"@, "RemainingRetentionDays"@],
                                    ) {
                                        Err(err) => Err(err),
                                        Ok(retention) => match spec_cast_tier(
                                            e,
                                            seq!["Properties"@, "AccessTier"@],
                                        ) {
                                            Err(err) => Err(err),
                                            Ok(tier) => match spec_share_metadata(e) {
                                                Err(err) => Err(err),
                                                Ok(metadata) => Ok(
                                                    ShareV {
                                                        name,
                                                        snapshot,
                                                        version,
                                                        deleted: match deleted_opt {
                                                            Some(d) => d,
                                                            None => false,
                                                        },
                                                        last_modified,
                                                        e_tag,
                                                        quota,
                                                        provisioned_iops: None,
                                                        provisioned_ingress_mbps: None,
                                                        provisioned_egress_mbps: None,
                                                        next_allowed_quota_downgrade_time: None,
                                                        deleted_time,
                                                        remaining_retention_days: retention,
                                                        access_tier: tier,
                                                        metadata,
                                                    },
                                                ),
                                            },
                                        },
                                    },
                                },
                            },
                        },
                    },
                },
            },
        },
    }
}

fn collect_meta_pairs(children: &Vec<XmlNode>, upto: usize) -> (r: Result<Vec<MetaPair>, Error>)
    requires
        upto <= children@.len(),
    ensures
        (match r {
            Ok(v) => spec_meta_pairs(nodes_view(children@).take(upto as int)) == Ok::<
                Seq<(Seq<char>, Seq<char>)>,
                ErrorV,
            >(pairs_views(v@)),
            Err(e) => spec_meta_pairs(nodes_view(children@).take(upto as int)) == Err::<
                Seq<(Seq<char>, Seq<char>)>,
                ErrorV,
            >(e@),
        }),
    decreases upto,
{
    proof {
        lemma_nodes_view_index(children@);
    }
    if upto == 0 {
        let r: Vec<MetaPair> = Vec::new();
        proof {
            assert(pairs_views(r@) =~= Seq::<(Seq<char>, Seq<char>)>::empty());
            assert(nodes_view(children@).take(0) =~= Seq::<NodeV>::empty());
        }
        Ok(r)
    } else {
        let ghost full = nodes_view(children@);
        let ghost cur = full.take(upto as int);
        proof {
            assert(cur.drop_last() =~= full.take(upto - 1));
            assert(cur.last() == full[upto - 1]);
        }
        match collect_meta_pairs(children, upto - 1) {
            Err(e) => Err(e),
            Ok(mut v) => match &children[upto - 1] {
                XmlNode::Element(el) => {
                    proof {
                        lemma_nodes_view_index(el.children@);
                    }
                    if el.children.len() == 1 {
                        match &el.children[0] {
                            XmlNode::Text(t) => {
                                let ghost before = v@;
                                v.push(MetaPair { key: el.name.clone(), value: t.clone() });
                                proof {
                                    assert(pairs_views(v@) =~= pairs_views(before).push(
                                        (el.name@, t@),
                                    ));
                                }
                                Ok(v)
                            },
                            _ => Err(Error::UnexpectedXmlShape(el.name.clone())),
                        }
                    } else {
                        Err(Error::UnexpectedXmlShape(el.name.clone()))
                    }
                },
                _ => Err(Error::UnexpectedXmlShape("Metadata".to_owned())),
            },
        }
    }
}

fn collect_meta_all(nodes: &Vec<&XmlElement>, upto: usize) -> (r: Result<Vec<MetaPair>, Error>)
    requires
        upto <= nodes@.len(),
    ensures
        (match r {
            Ok(v) => spec_meta_all(elems_views(nodes@).take(upto as int)) == Ok::<
                Seq<(Seq<char>, Seq<char>)>,
                ErrorV,
            >(pairs_views(v@)),
            Err(e) => spec_meta_all(elems_views(nodes@).take(upto as int)) == Err::<
                Seq<(Seq<char>, Seq<char>)>,
                ErrorV,
            >(e@),
        }),
    decreases upto,
{
    if upto == 0 {
        let r: Vec<MetaPair> = Vec::new();
        proof {
            assert(pairs_views(r@) =~= Seq::<(Seq<char>, Seq<char>)>::empty());
            assert(elems_views(nodes@).take(0) =~= Seq::<ElemV>::empty());
            assert(spec_meta_all(elems_views(nodes@).take(0)) == Ok::<
                Seq<(Seq<char>, Seq<char>)>,
                ErrorV,
            >(pairs_views(r@)));
        }
        Ok(r)
    } else {
        let ghost full = elems_views(nodes@);
        let ghost cur = full.take(upto as int);
        proof {
            assert(cur.drop_last() =~= full.take(upto - 1));
            assert(cur.last() == full[upto - 1]);
            assert(full[upto - 1] == nodes@[upto - 1]@);
        }
        match collect_meta_all(nodes, upto - 1) {
            Err(e) => Err(e),
            Ok(mut acc) => {
                let e: &XmlElement = nodes[upto - 1];
                proof {
                    lemma_nodes_view_index(e.children@);
                    assert(nodes_view(e.children@).take(e.children@.len() as int) =~= nodes_view(
                        e.children@,
                    ));
                    assert(cur.last().children == nodes_view(e.children@));
                }
                match collect_meta_pairs(&e.children, e.children.len()) {
                    Err(err) => Err(err),
                    Ok(mut ps) => {
                        let ghost acc_before = acc@;
                        let ghost ps_seq = ps@;
                        acc.append(&mut ps);
                        proof {
                            assert(acc@ =~= acc_before + ps_seq);
                            assert(pairs_views(acc@) =~= pairs_views(acc_before) + pairs_views(
                                ps_seq,
                            )) by {
                                assert(forall|i: int|
                                    0 <= i < acc_before.len() ==> acc@[i] == #[trigger] acc_before[
                                        i
                                    ]);
                                assert(forall|i: int|
                                    0 <= i < ps_seq.len() ==> acc@[acc_before.len() + i]
                                        == #[trigger] ps_seq[i]);
                            }
                            assert(cur.last().children == nodes_view(e.children@));
                            assert(spec_meta_pairs(cur.last().children) == Ok::<
                                Seq<(Seq<char>, Seq<char>)>,
                                ErrorV,
                            >(pairs_views(ps_seq)));
                            assert(spec_meta_all(cur.drop_last()) == Ok::<
                                Seq<(Seq<char>, Seq<char>)>,
                                ErrorV,
                            >(pairs_views(acc_before)));
                            assert(spec_meta_all(cur) == Ok::<
                                Seq<(Seq<char>, Seq<char>)>,
                                ErrorV,
                            >(pairs_views(acc_before) + pairs_views(ps_seq)));
                            assert(spec_meta_all(elems_views(nodes@).take(upto as int)) == Ok::<
                                Seq<(Seq<char>, Seq<char>)>,
                                ErrorV,
                            >(pairs_views(acc@)));
                        }
                        Ok(acc)
                    },
                }
            },
        }
    }
}

fn metadata_from_pairs(pairs: Vec<MetaPair>) -> (r: Metadata)
    ensures
        r.wf(),
        meta_map(r@) == meta_map(pairs_views(pairs@)),
{
    let mut m = Metadata::new();
    let n = pairs.len();
    let mut i: usize = 0;
    proof {
        assert(pairs_views(pairs@).take(0) =~= Seq::<(Seq<char>, Seq<char>)>::empty());
    }
    while i < n
        invariant
            0 <= i <= n,
            n == pairs@.len(),
            m.wf(),
            meta_map(m@) == meta_map(pairs_views(pairs@).take(i as int)),
        decreases n - i,
    {
        let ghost cur = pairs_views(pairs@).take(i + 1 as int);
        proof {
            assert(cur.drop_last() =~= pairs_views(pairs@).take(i as int));
            assert(cur.last() == pairs@[i as int]@);
        }
        let p = &pairs[i];
        m.insert(p.key.clone(), p.value.clone());
        i = i + 1;
    }
    proof {
        assert(pairs_views(pairs@).take(n as int) =~= pairs_views(pairs@));
    }
    m
}

impl Share {
    /// Parses one listing entity node into a share record, combining
    /// mandatory and optional casts with the metadata sub-traversal.
    pub fn parse(elem: &XmlElement) -> (r: Result<Share, Error>)
        ensures
            (match r {
                Ok(s) => spec_parse_share(elem@) == Ok::<ShareV, ErrorV>(s@),
                Err(e) => spec_parse_share(elem@) == Err::<ShareV, ErrorV>(e@),
            }),
    {
        let name = match cast_must_text(elem, &["Name"]) {
            Ok(v) => v,
            Err(e) => {
                proof {
                    assert(path_views((&["Name"])@) =~= seq!["Name"@]);
                }
                return Err(e);
            },
        };
        proof {
            assert(path_views((&["Name"])@) =~= seq!["Name"@]);
        }
        let snapshot = match cast_optional_timestamp(elem, &["Snapshot"]) {
            Ok(v) => v,
            Err(e) => {
                proof {
                    assert(path_views((&["Snapshot"])@) =~= seq!["Snapshot"@]);
                }
                return Err(e);
            },
        };
        proof {
            assert(path_views((&["Snapshot"])@) =~= seq!["Snapshot"@]);
        }
        let version = match cast_optional_text(elem, &["Version"]) {
            Ok(v) => v,
            Err(e) => {
                proof {
                    assert(path_views((&["Version"])@) =~= seq!["Version"@]);
                }
                return Err(e);
            },
        };
        proof {
            assert(path_views((&["Version"])@) =~= seq!["Version"@]);
        }
        let deleted = match cast_optional_bool(elem, &["Deleted"]) {
            Ok(Some(d)) => d,
            Ok(None) => false,
            Err(e) => {
                proof {
                    assert(path_views((&["Deleted"])@) =~= seq!["Deleted"@]);
                }
                return Err(e);
            },
        };
        proof {
            assert(path_views((&["Deleted"])@) =~= seq!["Deleted"@]);
        }
        let last_modified = match cast_must_timestamp(elem, &["Properties", "Last-Modified"]) {
            Ok(v) => v,
            Err(e) => {
                proof {
                    assert(path_views((&["Properties", "Last-Modified"])@) =~= seq![
                        "Properties"@,
                        "Last-Modified"@,
                    ]);
                }
                return Err(e);
            },
        };
        proof {
            assert(path_views((&["Properties", "Last-Modified"])@) =~= seq![
                "Properties"@,
                "Last-Modified"@,
            ]);
        }
        let e_tag = match cast_must_text(elem, &["Properties", "Etag"]) {
            Ok(v) => v,
            Err(e) => {
                proof {
                    assert(path_views((&["Properties", "Etag"])@) =~= seq![
                        "Properties"@,
                        "Etag"@,
                    ]);
                }
                return Err(e);
            },
        };
        proof {
            assert(path_views((&["Properties", "Etag"])@) =~= seq!["Properties"@, "Etag"@]);
        }
        let quota = match cast_must_u64(elem, &["Properties", "Quota"]) {
            Ok(v) => v,
            Err(e) => {
                proof {
                    assert(path_views((&["Properties", "Quota"])@) =~= seq![
                        "Properties"@,
                        "Quota"@,
                    ]);
                }
                return Err(e);
            },
        };
        proof {
            assert(path_views((&["Properties", "Quota"])@) =~= seq!["Properties"@, "Quota"@]);
        }
        let deleted_time = match cast_optional_timestamp(elem, &["Properties", "DeletedTime"]) {
            Ok(v) => v,
            Err(e) => {
                proof {
                    assert(path_views((&["Properties", "DeletedTime"])@) =~= seq![
                        "Properties"@,
                        "DeletedTime"@,
                    ]);
                }
                return Err(e);
            },
        };
        proof {
            assert(path_views((&["Properties", "DeletedTime"])@) =~= seq![
                "Properties"@,
                "DeletedTime"@,
            ]);
        }
        let remaining_retention_days = match cast_optional_u64(
            elem,
            &["Properties", "RemainingRetentionDays"],
        ) {
            Ok(v) => v,
            Err(e) => {
                proof {
                    assert(path_views((&["Properties", "RemainingRetentionDays"])@) =~= seq![
                        "Properties"@,
                        "RemainingRetentionDays"@,
                    ]);
                }
                return Err(e);
            },
        };
        proof {
            assert(path_views((&["Properties", "RemainingRetentionDays"])@) =~= seq![
                "Properties"@,
                "RemainingRetentionDays"@,
            ]);
        }
        let access_tier = match cast_must_tier(elem, &["Properties", "AccessTier"]) {
            Ok(v) => v,
            Err(e) => {
                proof {
                    assert(path_views((&["Properties", "AccessTier"])@) =~= seq![
                        "Properties"@,
                        "AccessTier"@,
                    ]);
                }
                return Err(e);
            },
        };
        proof {
            assert(path_views((&["Properties", "AccessTier"])@) =~= seq![
                "Properties"@,
                "AccessTier"@,
            ]);
        }
        let meta_nodes = match traverse(elem, &["Metadata"], false) {
            Ok(v) => v,
            Err(e) => {
                // an unrequired traversal never fails
                proof {
                    assert(false);
                }
                return Err(e);
            },
        };
        proof {
            assert(path_views((&["Metadata"])@) =~= seq!["Metadata"@]);
        }
        let pairs = match collect_meta_all(&meta_nodes, meta_nodes.len()) {
            Ok(v) => v,
            Err(e) => {
                proof {
                    assert(elems_views(meta_nodes@).take(meta_nodes@.len() as int)
                        =~= elems_views(meta_nodes@));
                }
                return Err(e);
            },
        };
        proof {
            assert(elems_views(meta_nodes@).take(meta_nodes@.len() as int) =~= elems_views(
                meta_nodes@,
            ));
        }
        let metadata = metadata_from_pairs(pairs);
        Ok(
            Share {
                name,
                snapshot,
                version,
                deleted,
                last_modified,
                e_tag,
                quota,
                provisioned_iops: None,
                provisioned_ingress_mbps: None,
                provisioned_egress_mbps: None,
                next_allowed_quota_downgrade_time: None,
                deleted_time,
                remaining_retention_days,
                access_tier,
                metadata,
            },
        )
    }
}

/// What an optional unsigned header decodes to: absence is `None`, and text
/// that is not unsigned decimal is a numeric parse failure.
pub open spec fn spec_opt_u64_header(h: Seq<(Seq<char>, Seq<char>)>, name: Seq<char>) -> Result<
    Option<u64>,
    ErrorV,
> {
    match lookup(h, name) {
        None => Ok(None),
        Some(raw) => match dec_of(raw) {
            Some(v) => Ok(Some(v)),
            None => Err(ErrorV::NumericParseFailure(raw)),
        },
    }
}

/// What an optional timestamp header decodes to.
pub open spec fn spec_opt_stamp_header(h: Seq<(Seq<char>, Seq<char>)>, name: Seq<char>) -> Result<
    Option<i64>,
    ErrorV,
> {
    match lookup(h, name) {
        None => Ok(None),
        Some(raw) => match parsed_rfc2822(raw) {
            Some(v) => Ok(Some(v)),
            None => Err(ErrorV::MalformedTimestamp(raw)),
        },
    }
}

fn opt_u64_header(headers: &Headers, name: &str) -> (r: Result<Option<u64>, Error>)
    ensures
        (match r {
            Ok(Some(v)) => spec_opt_u64_header(headers@, name@) == Ok::<Option<u64>, ErrorV>(
                Some(v),
            ),
            Ok(None) => spec_opt_u64_header(headers@, name@) == Ok::<Option<u64>, ErrorV>(None),
            Err(e) => spec_opt_u64_header(headers@, name@) == Err::<Option<u64>, ErrorV>(e@),
        }),
{
    match headers.get(name) {
        None => Ok(None),
        Some(raw) => match parse_u64(raw.as_str()) {
            Some(v) => Ok(Some(v)),
            None => Err(Error::NumericParseFailure(raw)),
        },
    }
}

fn opt_stamp_header(headers: &Headers, name: &str) -> (r: Result<Option<Timestamp>, Error>)
    ensures
        (match r {
            Ok(Some(t)) => spec_opt_stamp_header(headers@, name@) == Ok::<Option<i64>, ErrorV>(
                Some(t.secs),
            ),
            Ok(None) => spec_opt_stamp_header(headers@, name@) == Ok::<Option<i64>, ErrorV>(None),
            Err(e) => spec_opt_stamp_header(headers@, name@) == Err::<Option<i64>, ErrorV>(e@),
        }),
{
    match headers.get(name) {
        None => Ok(None),
        Some(raw) => match rfc2822_parse(raw.as_str()) {
            Some(secs) => Ok(Some(Timestamp { secs })),
            None => Err(Error::MalformedTimestamp(raw)),
        },
    }
}

/// What decoding a share from response headers returns, field by field in
/// decode order: the mandatory last-modified, entity tag, access tier and
/// quota fail with a missing-header error when absent and the field's
/// malformed error when unparsable; the provisioned numbers and the next
/// allowed quota downgrade time are optional; the metadata scan never fails;
/// everything a header cannot carry keeps its absent default.
pub open spec fn spec_share_from_headers(
    name: Seq<char>,
    h: Seq<(Seq<char>, Seq<char>)>,
) -> Result<ShareV, ErrorV> {
    match lookup(h, "last-modified"@) {
        None => Err(ErrorV::MissingHeader("last-modified"@)),
        Some(lm_raw) => match parsed_rfc2822(lm_raw) {
            None => Err(ErrorV::MalformedTimestamp(lm_raw)),
            Some(lm) => match lookup(h, "etag"@) {
                None => Err(ErrorV::MissingHeader("etag"@)),
                Some(e_tag) => match lookup(h, "x-ms-access-tier"@) {
                    None => Err(ErrorV::MissingHeader("x-ms-access-tier"@)),
                    Some(tier_raw) => match tier_of(tier_raw) {
                        None => Err(ErrorV::MalformedHeaderValue(tier_raw)),
                        Some(tier) => match lookup(h, "x-ms-share-quota"@) {
                            None => Err(ErrorV::MissingHeader("x-ms-share-quota"@)),
                            Some(q_raw) => match dec_of(q_raw) {
                                None => Err(ErrorV::NumericParseFailure(q_raw)),
                                Some(quota) => match spec_opt_u64_header(
                                    h,
                                    "x-ms-share-provisioned-iops"@,
                                ) {
                                    Err(e) => Err(e),
                                    Ok(iops) => match spec_opt_u64_header(
                                        h,
                                        "x-ms-share-provisioned-ingress-mbps"@,
                                    ) {
                                        Err(e) => Err(e),
                                        Ok(ingress) => match spec_opt_u64_header(
                                            h,
                                            "x-ms-share-provisioned-egress-mbps"@,
                                        ) {
                                            Err(e) => Err(e),
                                            Ok(egress) => match spec_opt_stamp_header(
                                                h,
                                                "x-ms-share-next-allowed-quota-downgrade-time"@,
                                            ) {
                                                Err(e) => Err(e),
                                                Ok(next_allowed) => Ok(
                                                    ShareV {
                                                        name,
                                                        snapshot: None,
                                                        version: None,
                                                        deleted: false,
                                                        last_modified: lm,
                                                        e_tag,
                                                        quota,
                                                        provisioned_iops: iops,
                                                        provisioned_ingress_mbps: ingress,
                                                        provisioned_egress_mbps: egress,
                                                        next_allowed_quota_downgrade_time:
                                                            next_allowed,
                                                        deleted_time: None,
                                                        remaining_retention_days: None,
                                                        access_tier: tier,
                                                        metadata: meta_map(meta_pairs_of(h)),
                                                    },
                                                ),
                                            },
                                        },
                                    },
                                },
                            },
                        },
                    },
                },
            },
        },
    }
}

impl Share {
    /// Decodes a share from the headers of a properties response; the share
    /// name comes from the caller, everything else from the header map.
    pub fn from_response(name: &str, headers: &Headers) -> (r: Result<Share, Error>)
        ensures
            (match r {
                Ok(s) => spec_share_from_headers(name@, headers@) == Ok::<ShareV, ErrorV>(s@),
                Err(e) => spec_share_from_headers(name@, headers@) == Err::<ShareV, ErrorV>(e@),
            }),
    {
        let lm_raw = match headers.get("last-modified") {
            None => {
                return Err(Error::MissingHeader("last-modified".to_owned()));
            },
            Some(v) => v,
        };
        let last_modified = match rfc2822_parse(lm_raw.as_str()) {
            None => {
                return Err(Error::MalformedTimestamp(lm_raw));
            },
            Some(secs) => Timestamp { secs },
        };
        let e_tag = match headers.get("etag") {
            None => {
                return Err(Error::MissingHeader("etag".to_owned()));
            },
            Some(v) => v,
        };
        let tier_raw = match headers.get("x-ms-access-tier") {
            None => {
                return Err(Error::MissingHeader("x-ms-access-tier".to_owned()));
            },
            Some(v) => v,
        };
        let access_tier = match AccessTier::parse(tier_raw.as_str()) {
            None => {
                return Err(Error::MalformedHeaderValue(tier_raw));
            },
            Some(t) => t,
        };
        let quota_raw = match headers.get("x-ms-share-quota") {
            None => {
                return Err(Error::MissingHeader("x-ms-share-quota".to_owned()));
            },
            Some(v) => v,
        };
        let quota = match parse_u64(quota_raw.as_str()) {
            None => {
                return Err(Error::NumericParseFailure(quota_raw));
            },
            Some(v) => v,
        };
        let provisioned_iops = match opt_u64_header(headers, "x-ms-share-provisioned-iops") {
            Ok(v) => v,
            Err(e) => {
                return Err(e);
            },
        };
        let provisioned_ingress_mbps = match opt_u64_header(
            headers,
            "x-ms-share-provisioned-ingress-mbps",
        ) {
            Ok(v) => v,
            Err(e) => {
                return Err(e);
            },
        };
        let provisioned_egress_mbps = match opt_u64_header(
            headers,
            "x-ms-share-provisioned-egress-mbps",
        ) {
            Ok(v) => v,
            Err(e) => {
                return Err(e);
            },
        };
        let next_allowed_quota_downgrade_time = match opt_stamp_header(
            headers,
            "x-ms-share-next-allowed-quota-downgrade-time",
        ) {
            Ok(v) => v,
            Err(e) => {
                return Err(e);
            },
        };
        let metadata = decode_metadata(headers);
        Ok(
            Share {
                name: name.to_owned(),
                snapshot: None,
                version: None,
                deleted: false,
                last_modified,
                e_tag,
                quota,
                provisioned_iops,
                provisioned_ingress_mbps,
                provisioned_egress_mbps,
                next_allowed_quota_downgrade_time,
                deleted_time: None,
                remaining_retention_days: None,
                access_tier,
                metadata,
            },
        )
    }

    /// A fresh share value with the given name and every other field at its
    /// absent default; the last-modified stamp is the wall clock's value,
    /// about which nothing is promised.
    pub fn new(name: &str) -> (r: Share)
        ensures
            r@.name == name@,
            r@.snapshot is None,
            r@.version is None,
            !r@.deleted,
            r@.e_tag.len() == 0,
            r@.quota == 0,
            r@.provisioned_iops is None,
            r@.provisioned_ingress_mbps is None,
            r@.provisioned_egress_mbps is None,
            r@.next_allowed_quota_downgrade_time is None,
            r@.deleted_time is None,
            r@.remaining_retention_days is None,
            r@.access_tier == AccessTier::TransactionOptimized,
            r@.metadata =~= Map::<Seq<char>, Seq<char>>::empty(),
    {
        Share {
            name: name.to_owned(),
            snapshot: None,
            version: None,
            deleted: false,
            last_modified: Timestamp { secs: now_secs() },
            e_tag: String::new(),
            quota: 0,
            provisioned_iops: None,
            provisioned_ingress_mbps: None,
            provisioned_egress_mbps: None,
            next_allowed_quota_downgrade_time: None,
            deleted_time: None,
            remaining_retention_days: None,
            access_tier: AccessTier::TransactionOptimized,
            metadata: Metadata::new(),
        }
    }
}

} // verus!

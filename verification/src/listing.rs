//! Paginated listings: an ordered sequence of parsed entities together with
//! an optional continuation token, and the body parser that produces one.

use vstd::prelude::*;
use crate::errors::{Error, ErrorV};
use crate::normalized_marker;
use crate::parsing_xml::{
    cast_optional_text, elems_views, path_views, spec_cast_opt_text, traverse, traverse_result,
};
use crate::share::{spec_parse_share, Share, ShareV};
use crate::xml_tree::{parse_xml_text, xml_doc_of, ElemV, XmlElement};

verus! {

/// A page of results: the entities of one response in server-returned order,
/// plus the continuation token of the next page, if there is one. Complete
/// exactly when the token is absent.
#[derive(Debug, Clone)]
pub struct IncompleteVector<T> {
    pub token: Option<String>,
    pub vector: Vec<T>,
}

impl<T> IncompleteVector<T> {
    /// The listing is complete iff no continuation token is present.
    pub open spec fn spec_is_complete(&self) -> bool {
        self.token is None
    }

    /// Wraps a page of entities with its continuation token.
    pub fn new(token: Option<String>, vector: Vec<T>) -> (r: IncompleteVector<T>)
        ensures
            r.token == token,
            r.vector == vector,
    {
        IncompleteVector { token, vector }
    }

    /// True iff the continuation token is absent: no further page exists.
    pub fn is_complete(&self) -> (r: bool)
        ensures
            r == self.spec_is_complete(),
    {
        match &self.token {
            None => true,
            Some(_) => false,
        }
    }
}

/// The images of a share sequence.
pub open spec fn shares_views(s: Seq<Share>) -> Seq<ShareV> {
    Seq::new(s.len(), |i: int| s[i]@)
}

/// The image of an optional token.
pub open spec fn opt_str_view(s: Option<String>) -> Option<Seq<char>> {
    match s {
        Some(t) => Some(t@),
        None => None,
    }
}

/// What parsing a sequence of entity nodes returns: each node parsed in
/// document order — the output order equals the order of appearance in the
/// source document — and the first failing entity is the error.
pub open spec fn spec_parse_shares(nodes: Seq<ElemV>) -> Result<Seq<ShareV>, ErrorV>
    decreases nodes.len(),
{
    if nodes.len() == 0 {
        Ok(Seq::empty())
    } else {
        match spec_parse_shares(nodes.drop_last()) {
            Err(e) => Err(e),
            Ok(rest) => match spec_parse_share(nodes.last()) {
                Err(e) => Err(e),
                Ok(s) => Ok(rest.push(s)),
            },
        }
    }
}

/// Entity order is preserved exactly: a successfully parsed entity sequence
/// has one record per entity node, and the record at each position is the
/// parse of the node at the same position — no reordering, deduplication or
/// sorting.
pub proof fn lemma_parse_shares_order(nodes: Seq<ElemV>)
    requires
        spec_parse_shares(nodes) is Ok,
    ensures
        spec_parse_shares(nodes)->Ok_0.len() == nodes.len(),
        forall|i: int|
            0 <= i < nodes.len() ==> spec_parse_share(#[trigger] nodes[i]) == Ok::<
                ShareV,
                ErrorV,
            >(spec_parse_shares(nodes)->Ok_0[i]),
    decreases nodes.len(),
{
    if nodes.len() > 0 {
        lemma_parse_shares_order(nodes.drop_last());
        let prev = spec_parse_shares(nodes.drop_last())->Ok_0;
        let whole = spec_parse_shares(nodes)->Ok_0;
        assert(whole == prev.push(spec_parse_share(nodes.last())->Ok_0));
        assert(forall|i: int| 0 <= i < prev.len() ==> whole[i] == #[trigger] prev[i]);
        assert(forall|i: int|
            0 <= i < nodes.len() - 1 ==> #[trigger] nodes.drop_last()[i] == nodes[i]);
        assert(nodes.last() == nodes[nodes.len() - 1]);
        assert(whole[nodes.len() - 1] == spec_parse_share(nodes.last())->Ok_0);
        assert(spec_parse_share(nodes.last()) is Ok);
        assert forall|i: int| 0 <= i < nodes.len() implies spec_parse_share(
            #[trigger] nodes[i],
        ) == Ok::<ShareV, ErrorV>(whole[i]) by {
            if i < nodes.len() - 1 {
                assert(nodes.drop_last()[i] == nodes[i]);
                assert(spec_parse_share(nodes.drop_last()[i]) == Ok::<ShareV, ErrorV>(prev[i]));
            } else {
                assert(spec_parse_share(nodes[i]) == spec_parse_share(nodes.last()));
            }
        }
    }
}

/// Spec-level image of a parsed listing page.
pub struct ListingV {
    pub token: Option<Seq<char>>,
    pub shares: Seq<ShareV>,
}

/// What parsing a listing body returns: a body that is not well-formed XML
/// is a malformed-XML error; the entity nodes are parsed in document order;
/// the continuation marker is optional and an empty marker is normalized to
/// absence, so a present-but-empty marker means the listing is complete.
pub open spec fn spec_parse_listing(body: Seq<char>) -> Result<ListingV, ErrorV> {
    match xml_doc_of(body) {
        None => Err(ErrorV::MalformedXml(body)),
        Some(root) => match traverse_result(seq![root], seq!["Shares"@, "Share"@], false) {
            Err(e) => Err(e),
            Ok(nodes) => match spec_parse_shares(nodes) {
                Err(e) => Err(e),
                Ok(shares) => match spec_cast_opt_text(root, seq!["NextMarker"@]) {
                    Err(e) => Err(e),
                    Ok(marker) => Ok(ListingV { token: normalized_marker(marker), shares }),
                },
            },
        },
    }
}

fn parse_shares(nodes: &Vec<&XmlElement>, upto: usize) -> (r: Result<Vec<Share>, Error>)
    requires
        upto <= nodes@.len(),
    ensures
        (match r {
            Ok(v) => spec_parse_shares(elems_views(nodes@).take(upto as int)) == Ok::<
                Seq<ShareV>,
                ErrorV,
            >(shares_views(v@)),
            Err(e) => spec_parse_shares(elems_views(nodes@).take(upto as int)) == Err::<
                Seq<ShareV>,
                ErrorV,
            >(e@),
        }),
    decreases upto,
{
    if upto == 0 {
        let r: Vec<Share> = Vec::new();
        proof {
            assert(shares_views(r@) =~= Seq::<ShareV>::empty());
            assert(elems_views(nodes@).take(0) =~= Seq::<ElemV>::empty());
        }
        Ok(r)
    } else {
        let ghost full = elems_views(nodes@);
        let ghost cur = full.take(upto as int);
        proof {
            assert(cur.drop_last() =~= full.take(upto - 1));
            assert(cur.last() == full[upto - 1]);
            assert(full[upto - 1] == nodes@[upto - 1]@);
        }
        match parse_shares(nodes, upto - 1) {
            Err(e) => Err(e),
            Ok(mut v) => {
                let e: &XmlElement = nodes[upto - 1];
                match Share::parse(e) {
                    Err(err) => Err(err),
                    Ok(s) => {
                        let ghost before = v@;
                        v.push(s);
                        proof {
                            assert(shares_views(v@) =~= shares_views(before).push(
                                v@[before.len() as int]@,
                            ));
                        }
                        Ok(v)
                    },
                }
            },
        }
    }
}

/// Parses a listing response body into a page of shares: a syntax error is a
/// malformed-XML failure; every entity node is parsed in document order; an
/// absent or empty continuation marker means the page is the last one.
pub fn incomplete_vector_from_share_response(body: &str) -> (r: Result<
    IncompleteVector<Share>,
    Error,
>)
    ensures
        (match r {
            Ok(v) => spec_parse_listing(body@) == Ok::<ListingV, ErrorV>(
                ListingV { token: opt_str_view(v.token), shares: shares_views(v.vector@) },
            ),
            Err(e) => spec_parse_listing(body@) == Err::<ListingV, ErrorV>(e@),
        }),
{
    let root = match parse_xml_text(body) {
        None => {
            return Err(Error::MalformedXml(body.to_owned()));
        },
        Some(e) => e,
    };
    let share_nodes = match traverse(&root, &["Shares", "Share"], false) {
        Ok(v) => v,
        Err(e) => {
            // an unrequired traversal never fails
            proof {
                assert(path_views((&["Shares", "Share"])@) =~= seq!["Shares"@, "Share"@]);
                assert(false);
            }
            return Err(e);
        },
    };
    proof {
        assert(path_views((&["Shares", "Share"])@) =~= seq!["Shares"@, "Share"@]);
    }
    let shares = match parse_shares(&share_nodes, share_nodes.len()) {
        Ok(v) => v,
        Err(e) => {
            proof {
                assert(elems_views(share_nodes@).take(share_nodes@.len() as int) =~= elems_views(
                    share_nodes@,
                ));
            }
            return Err(e);
        },
    };
    proof {
        assert(elems_views(share_nodes@).take(share_nodes@.len() as int) =~= elems_views(
            share_nodes@,
        ));
    }
    let marker = match cast_optional_text(&root, &["NextMarker"]) {
        Ok(v) => v,
        Err(e) => {
            proof {
                assert(path_views((&["NextMarker"])@) =~= seq!["NextMarker"@]);
            }
            return Err(e);
        },
    };
    proof {
        assert(path_views((&["NextMarker"])@) =~= seq!["NextMarker"@]);
    }
    let token = match marker {
        Some(s) => if s.as_str().unicode_len() == 0 {
            None
        } else {
            Some(s)
        },
        None => None,
    };
    Ok(IncompleteVector::new(token, shares))
}

} // verus!

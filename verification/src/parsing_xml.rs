//! Path-based traversal and typed extraction over a parsed XML document
//! tree: descending a path of element names, and casting a terminal node's
//! text content into a typed value.

use vstd::prelude::*;
use crate::access_tier::{tier_of, AccessTier};
use crate::errors::{Error, ErrorV};
use crate::numeric::{dec_of, parse_u64};
use crate::text::str_eq;
use crate::time::{parsed_rfc2822, rfc2822_parse, Timestamp};
use crate::xml_tree::{
    children_named, descend, elem_view, first_missing, lemma_descend_nonempty,
    lemma_nodes_view_index, level_children, node_view, nodes_view, text_content, ElemV, NodeV,
    XmlElement, XmlNode,
};

verus! {

/// The images of a borrowed element sequence.
pub open spec fn elems_views(s: Seq<&XmlElement>) -> Seq<ElemV> {
    Seq::new(s.len(), |i: int| s[i]@)
}

/// The images of a borrowed path of segment names.
pub open spec fn path_views(p: Seq<&str>) -> Seq<Seq<char>> {
    Seq::new(p.len(), |i: int| p[i]@)
}

/// What traversal returns: with `required`, the first path segment matching
/// zero nodes is a missing-node error; otherwise, and on success, the nodes
/// the whole path leads to, in document order.
pub open spec fn traverse_result(es: Seq<ElemV>, path: Seq<Seq<char>>, required: bool) -> Result<
    Seq<ElemV>,
    ErrorV,
> {
    match first_missing(es, path) {
        Some(seg) => if required {
            Err(ErrorV::MissingXmlNode(seg))
        } else {
            Ok(descend(es, path))
        },
        None => Ok(descend(es, path)),
    }
}

fn children_named_exec<'a>(children: &'a Vec<XmlNode>, name: &str, upto: usize) -> (r: Vec<
    &'a XmlElement,
>)
    requires
        upto <= children@.len(),
    ensures
        elems_views(r@) =~= children_named(nodes_view(children@).take(upto as int), name@),
    decreases upto,
{
    proof {
        lemma_nodes_view_index(children@);
    }
    if upto == 0 {
        let r: Vec<&'a XmlElement> = Vec::new();
        proof {
            assert(elems_views(r@) =~= children_named(
                nodes_view(children@).take(0),
                name@,
            ));
        }
        r
    } else {
        let mut r = children_named_exec(children, name, upto - 1);
        let ghost full = nodes_view(children@);
        let ghost cur = full.take(upto as int);
        proof {
            assert(cur.drop_last() =~= full.take(upto - 1));
            assert(cur.last() == full[upto - 1]);
            assert(full[upto - 1] == node_view(children@[upto - 1]));
        }
        let node = &children[upto - 1];
        match node {
            XmlNode::Element(el) => {
                if str_eq(el.name.as_str(), name) {
                    let ghost before = r@;
                    r.push(el);
                    proof {
                        assert(elems_views(r@) =~= elems_views(before).push(el@));
                    }
                }
            },
            _ => {},
        }
        proof {
            assert(elems_views(r@) =~= children_named(cur, name@));
        }
        r
    }
}

fn level_exec<'a>(es: &Vec<&'a XmlElement>, name: &str, upto: usize) -> (r: Vec<&'a XmlElement>)
    requires
        upto <= es@.len(),
    ensures
        elems_views(r@) =~= level_children(elems_views(es@).take(upto as int), name@),
    decreases upto,
{
    if upto == 0 {
        let r: Vec<&'a XmlElement> = Vec::new();
        proof {
            assert(elems_views(r@) =~= level_children(
                elems_views(es@).take(0),
                name@,
            ));
        }
        r
    } else {
        let mut r = level_exec(es, name, upto - 1);
        let e: &'a XmlElement = es[upto - 1];
        let mut kids = children_named_exec(&e.children, name, e.children.len());
        let ghost full = elems_views(es@);
        let ghost cur = full.take(upto as int);
        let ghost r_before = r@;
        let ghost kids_seq = kids@;
        let ghost kids_view = elems_views(kids@);
        proof {
            lemma_nodes_view_index(e.children@);
            assert(nodes_view(e.children@).take(nodes_view(e.children@).len() as int)
                =~= nodes_view(e.children@));
            assert(cur.drop_last() =~= full.take(upto - 1));
            assert(cur.last() == full[upto - 1]);
            assert(full[upto - 1] == es@[upto - 1]@);
            assert(cur.last().children == nodes_view(e.children@));
        }
        r.append(&mut kids);
        proof {
            assert(elems_views(r@) =~= elems_views(r_before) + kids_view) by {
                assert(r@ =~= r_before + kids_seq);
                assert(forall|i: int|
                    0 <= i < r_before.len() ==> r@[i] == #[trigger] r_before[i]);
                assert(forall|i: int|
                    0 <= i < kids_seq.len() ==> r@[r_before.len() + i] == #[trigger] kids_seq[i]);
            }
            assert(elems_views(r@) =~= level_children(cur, name@));
        }
        r
    }
}

fn traverse_from<'a>(es: Vec<&'a XmlElement>, path: &[&str], from: usize, required: bool) -> (r:
    Result<Vec<&'a XmlElement>, Error>)
    requires
        from <= path@.len(),
    ensures
        (match r {
            Ok(v) => traverse_result(elems_views(es@), path_views(path@).skip(from as int), required)
                == Ok::<Seq<ElemV>, ErrorV>(elems_views(v@)),
            Err(e) => traverse_result(
                elems_views(es@),
                path_views(path@).skip(from as int),
                required,
            ) == Err::<Seq<ElemV>, ErrorV>(e@),
        }),
    decreases path@.len() - from,
{
    let n = path.len();
    let ghost p = path_views(path@).skip(from as int);
    if from == n {
        proof {
            assert(p =~= Seq::<Seq<char>>::empty());
        }
        Ok(es)
    } else {
        let seg: &str = *vstd::slice::slice_index_get(path, from);
        let next = level_exec(&es, seg, es.len());
        proof {
            assert(p[0] == seg@);
            assert(elems_views(es@).take(es@.len() as int) =~= elems_views(es@));
            assert(p.drop_first() =~= path_views(path@).skip(from + 1));
        }
        if required && next.is_empty() {
            proof {
                assert(level_children(elems_views(es@), p[0]).len() == 0);
                assert(first_missing(elems_views(es@), p) == Some(seg@));
            }
            Err(Error::MissingXmlNode(seg.to_owned()))
        } else {
            let ghost next_views = elems_views(next@);
            let r = traverse_from(next, path, from + 1, required);
            proof {
                assert(level_children(elems_views(es@), p[0]) == next_views);
            }
            r
        }
    }
}

/// Descends the document tree along the ordered path of element names,
/// collecting all matching children at each level; with `required`, a
/// segment that matches zero nodes is a missing-node error, otherwise an
/// empty result is a valid outcome.
pub fn traverse<'a>(node: &'a XmlElement, path: &[&str], required: bool) -> (r: Result<
    Vec<&'a XmlElement>,
    Error,
>)
    ensures
        (match r {
            Ok(v) => traverse_result(seq![node@], path_views(path@), required) == Ok::<
                Seq<ElemV>,
                ErrorV,
            >(elems_views(v@)),
            Err(e) => traverse_result(seq![node@], path_views(path@), required) == Err::<
                Seq<ElemV>,
                ErrorV,
            >(e@),
        }),
{
    let mut start: Vec<&'a XmlElement> = Vec::new();
    start.push(node);
    proof {
        assert(elems_views(start@) =~= seq![node@]);
        assert(path_views(path@).skip(0) =~= path_views(path@));
    }
    traverse_from(start, path, 0, required)
}

/// The text content of one element, as [`text_content`] defines it; `None`
/// on a shape the casts reject.
fn element_text(e: &XmlElement) -> (r: Option<String>)
    ensures
        (match r {
            Some(s) => text_content(e@) == Some(s@),
            None => text_content(e@) is None,
        }),
{
    proof {
        lemma_nodes_view_index(e.children@);
    }
    if e.children.len() == 0 {
        proof {
            assert(e@.children =~= Seq::<NodeV>::empty());
        }
        Some(String::new())
    } else if e.children.len() == 1 {
        match &e.children[0] {
            XmlNode::Text(t) => Some(t.clone()),
            _ => None,
        }
    } else {
        None
    }
}

/// What `true`/`false` text denotes; anything else is malformed.
pub open spec fn bool_of(s: Seq<char>) -> Option<bool> {
    if s == "true"@ {
        Some(true)
    } else if s == "false"@ {
        Some(false)
    } else {
        None
    }
}

/// Reads a boolean literal; `None` on anything but `true` or `false`.
pub fn parse_bool(s: &str) -> (r: Option<bool>)
    ensures
        r == bool_of(s@),
{
    if str_eq(s, "true") {
        Some(true)
    } else if str_eq(s, "false") {
        Some(false)
    } else {
        None
    }
}

/// What a mandatory text cast returns: the first node the path leads to must
/// exist, and its content must be text.
pub open spec fn spec_cast_text(root: ElemV, path: Seq<Seq<char>>) -> Result<Seq<char>, ErrorV> {
    match traverse_result(seq![root], path, true) {
        Err(e) => Err(e),
        Ok(nodes) => if nodes.len() == 0 {
            Err(
                ErrorV::MissingXmlNode(
                    if path.len() > 0 {
                        path.last()
                    } else {
                        root.name
                    },
                ),
            )
        } else {
            match text_content(nodes[0]) {
                Some(t) => Ok(t),
                None => Err(ErrorV::UnexpectedXmlShape(nodes[0].name)),
            }
        },
    }
}

/// What an optional text cast returns: an unresolved path is `None`; a
/// resolved node with non-text content is still an error.
pub open spec fn spec_cast_opt_text(root: ElemV, path: Seq<Seq<char>>) -> Result<
    Option<Seq<char>>,
    ErrorV,
> {
    match traverse_result(seq![root], path, false) {
        Err(e) => Err(e),
        Ok(nodes) => if nodes.len() == 0 {
            Ok(None)
        } else {
            match text_content(nodes[0]) {
                Some(t) => Ok(Some(t)),
                None => Err(ErrorV::UnexpectedXmlShape(nodes[0].name)),
            }
        },
    }
}

pub open spec fn spec_cast_u64(root: ElemV, path: Seq<Seq<char>>) -> Result<u64, ErrorV> {
    match spec_cast_text(root, path) {
        Err(e) => Err(e),
        Ok(t) => match dec_of(t) {
            Some(v) => Ok(v),
            None => Err(ErrorV::NumericParseFailure(t)),
        },
    }
}

pub open spec fn spec_cast_stamp(root: ElemV, path: Seq<Seq<char>>) -> Result<i64, ErrorV> {
    match spec_cast_text(root, path) {
        Err(e) => Err(e),
        Ok(t) => match parsed_rfc2822(t) {
            Some(v) => Ok(v),
            None => Err(ErrorV::MalformedTimestamp(t)),
        },
    }
}

pub open spec fn spec_cast_tier(root: ElemV, path: Seq<Seq<char>>) -> Result<AccessTier, ErrorV> {
    match spec_cast_text(root, path) {
        Err(e) => Err(e),
        Ok(t) => match tier_of(t) {
            Some(v) => Ok(v),
            None => Err(ErrorV::MalformedHeaderValue(t)),
        },
    }
}

pub open spec fn spec_cast_opt_u64(root: ElemV, path: Seq<Seq<char>>) -> Result<
    Option<u64>,
    ErrorV,
> {
    match spec_cast_opt_text(root, path) {
        Err(e) => Err(e),
        Ok(None) => Ok(None),
        Ok(Some(t)) => match dec_of(t) {
            Some(v) => Ok(Some(v)),
            None => Err(ErrorV::NumericParseFailure(t)),
        },
    }
}

pub open spec fn spec_cast_opt_stamp(root: ElemV, path: Seq<Seq<char>>) -> Result<
    Option<i64>,
    ErrorV,
> {
    match spec_cast_opt_text(root, path) {
        Err(e) => Err(e),
        Ok(None) => Ok(None),
        Ok(Some(t)) => match parsed_rfc2822(t) {
            Some(v) => Ok(Some(v)),
            None => Err(ErrorV::MalformedTimestamp(t)),
        },
    }
}

pub open spec fn spec_cast_opt_bool(root: ElemV, path: Seq<Seq<char>>) -> Result<
    Option<bool>,
    ErrorV,
> {
    match spec_cast_opt_text(root, path) {
        Err(e) => Err(e),
        Ok(None) => Ok(None),
        Ok(Some(t)) => match bool_of(t) {
            Some(v) => Ok(Some(v)),
            None => Err(ErrorV::MalformedHeaderValue(t)),
        },
    }
}

/// Traverses to a single terminal node's text content; fails with a
/// missing-node error when the path does not resolve and a shape error when
/// the node's content is not text.
pub fn cast_must_text(node: &XmlElement, path: &[&str]) -> (r: Result<String, Error>)
    ensures
        (match r {
            Ok(s) => spec_cast_text(node@, path_views(path@)) == Ok::<Seq<char>, ErrorV>(s@),
            Err(e) => spec_cast_text(node@, path_views(path@)) == Err::<Seq<char>, ErrorV>(e@),
        }),
{
    match traverse(node, path, true) {
        Err(e) => Err(e),
        Ok(v) => {
            if v.len() == 0 {
                // a required traversal from one node cannot come back empty
                proof {
                    lemma_descend_nonempty(seq![node@], path_views(path@));
                    assert(false);
                }
                Err(Error::MissingXmlNode(String::new()))
            } else {
                let first: &XmlElement = v[0];
                proof {
                    assert(elems_views(v@)[0] == first@);
                }
                match element_text(first) {
                    Some(s) => Ok(s),
                    None => Err(Error::UnexpectedXmlShape(first.name.clone())),
                }
            }
        },
    }
}

/// Like [`cast_must_text`], but an unresolved path is success-with-`None`;
/// non-text content of a resolved node is still an error.
pub fn cast_optional_text(node: &XmlElement, path: &[&str]) -> (r: Result<Option<String>, Error>)
    ensures
        (match r {
            Ok(Some(s)) => spec_cast_opt_text(node@, path_views(path@)) == Ok::<
                Option<Seq<char>>,
                ErrorV,
            >(Some(s@)),
            Ok(None) => spec_cast_opt_text(node@, path_views(path@)) == Ok::<
                Option<Seq<char>>,
                ErrorV,
            >(None),
            Err(e) => spec_cast_opt_text(node@, path_views(path@)) == Err::<
                Option<Seq<char>>,
                ErrorV,
            >(e@),
        }),
{
    match traverse(node, path, false) {
        Err(e) => {
            // an unrequired traversal never fails
            proof {
                assert(false);
            }
            Err(e)
        },
        Ok(v) => {
            if v.len() == 0 {
                Ok(None)
            } else {
                let first: &XmlElement = v[0];
                proof {
                    assert(elems_views(v@)[0] == first@);
                }
                match element_text(first) {
                    Some(s) => Ok(Some(s)),
                    None => Err(Error::UnexpectedXmlShape(first.name.clone())),
                }
            }
        },
    }
}

/// A mandatory unsigned 64-bit cast: negative, empty or overflowing text is
/// a numeric parse failure, never a clamp.
pub fn cast_must_u64(node: &XmlElement, path: &[&str]) -> (r: Result<u64, Error>)
    ensures
        (match r {
            Ok(v) => spec_cast_u64(node@, path_views(path@)) == Ok::<u64, ErrorV>(v),
            Err(e) => spec_cast_u64(node@, path_views(path@)) == Err::<u64, ErrorV>(e@),
        }),
{
    match cast_must_text(node, path) {
        Err(e) => Err(e),
        Ok(t) => match parse_u64(t.as_str()) {
            Some(v) => Ok(v),
            None => Err(Error::NumericParseFailure(t)),
        },
    }
}

/// A mandatory RFC 2822 timestamp cast.
pub fn cast_must_timestamp(node: &XmlElement, path: &[&str]) -> (r: Result<Timestamp, Error>)
    ensures
        (match r {
            Ok(t) => spec_cast_stamp(node@, path_views(path@)) == Ok::<i64, ErrorV>(t.secs),
            Err(e) => spec_cast_stamp(node@, path_views(path@)) == Err::<i64, ErrorV>(e@),
        }),
{
    match cast_must_text(node, path) {
        Err(e) => Err(e),
        Ok(t) => match rfc2822_parse(t.as_str()) {
            Some(secs) => Ok(Timestamp { secs }),
            None => Err(Error::MalformedTimestamp(t)),
        },
    }
}

/// A mandatory access-tier cast: exactly the tier literals are accepted.
pub fn cast_must_tier(node: &XmlElement, path: &[&str]) -> (r: Result<AccessTier, Error>)
    ensures
        (match r {
            Ok(t) => spec_cast_tier(node@, path_views(path@)) == Ok::<AccessTier, ErrorV>(t),
            Err(e) => spec_cast_tier(node@, path_views(path@)) == Err::<AccessTier, ErrorV>(e@),
        }),
{
    match cast_must_text(node, path) {
        Err(e) => Err(e),
        Ok(t) => match AccessTier::parse(t.as_str()) {
            Some(v) => Ok(v),
            None => Err(Error::MalformedHeaderValue(t)),
        },
    }
}

/// An optional unsigned 64-bit cast.
pub fn cast_optional_u64(node: &XmlElement, path: &[&str]) -> (r: Result<Option<u64>, Error>)
    ensures
        (match r {
            Ok(Some(v)) => spec_cast_opt_u64(node@, path_views(path@)) == Ok::<
                Option<u64>,
                ErrorV,
            >(Some(v)),
            Ok(None) => spec_cast_opt_u64(node@, path_views(path@)) == Ok::<
                Option<u64>,
                ErrorV,
            >(None),
            Err(e) => spec_cast_opt_u64(node@, path_views(path@)) == Err::<Option<u64>, ErrorV>(
                e@,
            ),
        }),
{
    match cast_optional_text(node, path) {
        Err(e) => Err(e),
        Ok(None) => Ok(None),
        Ok(Some(t)) => match parse_u64(t.as_str()) {
            Some(v) => Ok(Some(v)),
            None => Err(Error::NumericParseFailure(t)),
        },
    }
}

/// An optional RFC 2822 timestamp cast.
pub fn cast_optional_timestamp(node: &XmlElement, path: &[&str]) -> (r: Result<
    Option<Timestamp>,
    Error,
>)
    ensures
        (match r {
            Ok(Some(t)) => spec_cast_opt_stamp(node@, path_views(path@)) == Ok::<
                Option<i64>,
                ErrorV,
            >(Some(t.secs)),
            Ok(None) => spec_cast_opt_stamp(node@, path_views(path@)) == Ok::<
                Option<i64>,
                ErrorV,
            >(None),
            Err(e) => spec_cast_opt_stamp(node@, path_views(path@)) == Err::<
                Option<i64>,
                ErrorV,
            >(e@),
        }),
{
    match cast_optional_text(node, path) {
        Err(e) => Err(e),
        Ok(None) => Ok(None),
        Ok(Some(t)) => match rfc2822_parse(t.as_str()) {
            Some(secs) => Ok(Some(Timestamp { secs })),
            None => Err(Error::MalformedTimestamp(t)),
        },
    }
}

/// An optional boolean cast.
pub fn cast_optional_bool(node: &XmlElement, path: &[&str]) -> (r: Result<Option<bool>, Error>)
    ensures
        (match r {
            Ok(Some(v)) => spec_cast_opt_bool(node@, path_views(path@)) == Ok::<
                Option<bool>,
                ErrorV,
            >(Some(v)),
            Ok(None) => spec_cast_opt_bool(node@, path_views(path@)) == Ok::<
                Option<bool>,
                ErrorV,
            >(None),
            Err(e) => spec_cast_opt_bool(node@, path_views(path@)) == Err::<
                Option<bool>,
                ErrorV,
            >(e@),
        }),
{
    match cast_optional_text(node, path) {
        Err(e) => Err(e),
        Ok(None) => Ok(None),
        Ok(Some(t)) => match parse_bool(t.as_str()) {
            Some(v) => Ok(Some(v)),
            None => Err(Error::MalformedHeaderValue(t)),
        },
    }
}

} // verus!

//! The XML document model the entity parser traverses: a tree of element
//! nodes with character data, together with its spec-level image and the
//! trusted document parser.

use vstd::prelude::*;

verus! {

/// One node of a parsed XML document. Character data is kept verbatim;
/// comment, CDATA and processing-instruction nodes carry no entity content
/// and appear as `Other`.
#[derive(Debug)]
pub enum XmlNode {
    Element(XmlElement),
    Text(String),
    Other,
}

/// An element node: its tag name and its children in document order.
#[derive(Debug)]
pub struct XmlElement {
    pub name: String,
    pub children: Vec<XmlNode>,
}

/// Spec-level image of an [`XmlNode`].
pub enum NodeV {
    Elem(ElemV),
    Text(Seq<char>),
    Other,
}

/// Spec-level image of an [`XmlElement`].
pub struct ElemV {
    pub name: Seq<char>,
    pub children: Seq<NodeV>,
}

pub open spec fn node_view(n: XmlNode) -> NodeV
    decreases n,
{
    match n {
        XmlNode::Element(e) => NodeV::Elem(elem_view(e)),
        XmlNode::Text(s) => NodeV::Text(s@),
        XmlNode::Other => NodeV::Other,
    }
}

pub open spec fn elem_view(e: XmlElement) -> ElemV
    decreases e,
{
    ElemV { name: e.name@, children: nodes_view(e.children@) }
}

pub open spec fn nodes_view(s: Seq<XmlNode>) -> Seq<NodeV>
    decreases s,
{
    if s.len() == 0 {
        Seq::empty()
    } else {
        seq![node_view(s[0])] + nodes_view(s.drop_first())
    }
}

impl View for XmlNode {
    type V = NodeV;

    open spec fn view(&self) -> NodeV {
        node_view(*self)
    }
}

impl View for XmlElement {
    type V = ElemV;

    open spec fn view(&self) -> ElemV {
        elem_view(*self)
    }
}

/// The image of a node sequence is pointwise and keeps its length.
pub proof fn lemma_nodes_view_index(s: Seq<XmlNode>)
    ensures
        nodes_view(s).len() == s.len(),
        forall|i: int| 0 <= i < s.len() ==> nodes_view(s)[i] == node_view(#[trigger] s[i]),
    decreases s.len(),
{
    if s.len() > 0 {
        lemma_nodes_view_index(s.drop_first());
        assert forall|i: int| 0 <= i < s.len() implies nodes_view(s)[i] == node_view(
            #[trigger] s[i],
        ) by {
            if i == 0 {
                assert(nodes_view(s)[0] == node_view(s[0]));
            } else {
                assert(nodes_view(s)[i] == nodes_view(s.drop_first())[i - 1]);
                assert(s.drop_first()[i - 1] == s[i]);
            }
        }
    }
}

/// The text content of an element: empty for a childless element, the
/// character data of a single text child, and no content at all — a shape
/// the typed casts reject — for anything else.
pub open spec fn text_content(e: ElemV) -> Option<Seq<char>> {
    if e.children.len() == 0 {
        Some(Seq::empty())
    } else if e.children.len() == 1 {
        match e.children[0] {
            NodeV::Text(t) => Some(t),
            _ => None,
        }
    } else {
        None
    }
}

/// The element children of `nodes` named `name`, in document order.
pub open spec fn children_named(nodes: Seq<NodeV>, name: Seq<char>) -> Seq<ElemV>
    decreases nodes.len(),
{
    if nodes.len() == 0 {
        Seq::empty()
    } else {
        let rest = children_named(nodes.drop_last(), name);
        match nodes.last() {
            NodeV::Elem(el) => if el.name == name {
                rest.push(el)
            } else {
                rest
            },
            _ => rest,
        }
    }
}

/// One traversal level: all matching children of every element of `es`, in
/// document order.
pub open spec fn level_children(es: Seq<ElemV>, name: Seq<char>) -> Seq<ElemV>
    decreases es.len(),
{
    if es.len() == 0 {
        Seq::empty()
    } else {
        level_children(es.drop_last(), name) + children_named(es.last().children, name)
    }
}

/// The elements the ordered path leads to, starting from `es`.
pub open spec fn descend(es: Seq<ElemV>, path: Seq<Seq<char>>) -> Seq<ElemV>
    decreases path.len(),
{
    if path.len() == 0 {
        es
    } else {
        descend(level_children(es, path[0]), path.drop_first())
    }
}

/// The first path segment that matches zero nodes, or `None` when every
/// level is inhabited.
pub open spec fn first_missing(es: Seq<ElemV>, path: Seq<Seq<char>>) -> Option<Seq<char>>
    decreases path.len(),
{
    if path.len() == 0 {
        None
    } else {
        let next = level_children(es, path[0]);
        if next.len() == 0 {
            Some(path[0])
        } else {
            first_missing(next, path.drop_first())
        }
    }
}

/// A path with no missing segment leads somewhere whenever it starts
/// somewhere.
pub proof fn lemma_descend_nonempty(es: Seq<ElemV>, path: Seq<Seq<char>>)
    requires
        es.len() > 0,
        first_missing(es, path) is None,
    ensures
        descend(es, path).len() > 0,
    decreases path.len(),
{
    if path.len() > 0 {
        lemma_descend_nonempty(level_children(es, path[0]), path.drop_first());
    }
}

/// The document an XML body text denotes, or `None` on an XML syntax error.
pub uninterp spec fn xml_doc_of(body: Seq<char>) -> Option<ElemV>;

#[verifier::external_type_specification]
#[verifier::external_body]
pub struct ExXmlElement(xml::Element);

#[verifier::external_type_specification]
#[verifier::external_body]
pub struct ExXml(xml::Xml);

/// Converts one outside child node, one variant to one variant; comment,
/// CDATA and processing-instruction nodes become [`XmlNode::Other`].
#[verifier::external_body]
fn node_from_outside(x: &xml::Xml) -> XmlNode {
    match x {
        xml::Xml::ElementNode(e) => XmlNode::Element(element_from_outside(e)),
        xml::Xml::CharacterNode(s) => XmlNode::Text(s.clone()),
        xml::Xml::CDATANode(_) => XmlNode::Other,
        xml::Xml::CommentNode(_) => XmlNode::Other,
        xml::Xml::PINode(_) => XmlNode::Other,
    }
}

/// Converts one outside element: its name and its children, in order.
#[verifier::external_body]
fn element_from_outside(e: &xml::Element) -> XmlElement {
    XmlElement {
        name: e.name.clone(),
        children: e.children.iter().map(|c| node_from_outside(c)).collect(),
    }
}

/// Relies on RustyXML's `Element` parser (`str::parse::<xml::Element>`): the
/// parsed tree depends on the body text alone; a syntax error, or a body
/// with no root element, is `None`.
#[verifier::external_body]
pub(crate) fn parse_xml_text(body: &str) -> (r: Option<XmlElement>)
    ensures
        (match r {
            Some(e) => xml_doc_of(body@) == Some(e@),
            None => xml_doc_of(body@) is None,
        }),
{
    match body.parse::<xml::Element>() {
        Ok(e) => Some(element_from_outside(&e)),
        Err(_) => None,
    }
}

} // verus!

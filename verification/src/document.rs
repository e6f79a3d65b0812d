//! Reading the request body: from the bytes of a PROPFIND or REPORT request
//! to the properties that it names.
//!
//! The text is parsed by `roxmltree`. What the parser found is held as a flat
//! list of nodes in document order, each with the position of its parent, and
//! the search for the `prop` element and its children works on that list.

use crate::request::{
    first_occurrences, lemma_first_occurrences_distinct, lemma_first_occurrences_idempotent,
    PropRequest,
};
use crate::sequences::lemma_filter_push;
use vstd::prelude::*;
use vstd::string::*;
use vstd::utf8::{decode_utf8, encode_utf8_decode_utf8, encode_utf8_valid_utf8, valid_utf8};

verus! {

/// `roxmltree::Error`: why the parser rejected a text. It is only told apart
/// from success.
#[verifier::external_type_specification]
#[verifier::external_body]
pub struct ExXmlError(roxmltree::Error);

/// One node of a parsed document.
pub struct XmlNode {
    /// The position of the parent in the list of nodes; the document's root
    /// node has none.
    pub parent: Option<usize>,
    /// Whether the node is an element, and not text, a comment or the like.
    pub element: bool,
    /// The local part of an element's tag name; empty for any other node.
    pub name: String,
}

/// A node as the contracts see it.
pub struct NodeView {
    pub parent: Option<int>,
    pub element: bool,
    pub name: Seq<char>,
}

impl DeepView for XmlNode {
    type V = NodeView;

    open spec fn deep_view(&self) -> NodeView {
        NodeView {
            parent: match self.parent {
                Some(p) => Some(p as int),
                None => None,
            },
            element: self.element,
            name: self.name@,
        }
    }
}

/// The nodes of the document that `roxmltree` reads from `text`, in document
/// order and with the document's root node first; `None` where it rejects the
/// text.
pub uninterp spec fn xml_nodes(text: Seq<char>) -> Option<Seq<NodeView>>;

/// `roxmltree::Document::parse`, with the nodes of the document copied out
/// one for one as `Document::descendants` walks them: each with its parent's
/// `NodeId`, which is the parent's position in that walk, its `is_element`
/// and the local part of its `tag_name`. An error of the parser comes back as
/// it is.
#[verifier::external_body]
fn read_nodes(text: &str) -> (nodes: Result<Vec<XmlNode>, roxmltree::Error>)
    ensures
        match nodes {
            Ok(list) => xml_nodes(text@) == Some(list.deep_view()),
            Err(_) => xml_nodes(text@) is None,
        },
{
    let doc = roxmltree::Document::parse(text)?;
    Ok(
        doc.descendants().map(
            |n| XmlNode {
                parent: n.parent().map(|p| p.id().get_usize()),
                element: n.is_element(),
                name: n.tag_name().name().to_string(),
            },
        ).collect(),
    )
}

/// Node `i` is an element directly below node `parent`, and is called `name`
/// where a name is asked for.
pub open spec fn is_child(
    nodes: Seq<NodeView>,
    i: int,
    parent: int,
    name: Option<Seq<char>>,
) -> bool {
    &&& 0 <= i < nodes.len()
    &&& nodes[i].element
    &&& nodes[i].parent == Some(parent)
    &&& (name matches Some(n) ==> nodes[i].name == n)
}

/// The first child of that description in document order.
pub open spec fn first_child(
    nodes: Seq<NodeView>,
    parent: int,
    name: Option<Seq<char>>,
) -> Option<int> {
    if exists|i: int| is_child(nodes, i, parent, name) {
        Some(
            choose|i: int|
                is_child(nodes, i, parent, name) && forall|j: int|
                    0 <= j < i ==> !is_child(nodes, j, parent, name),
        )
    } else {
        None
    }
}

/// The names of the elements directly below node `parent`, in document order.
pub open spec fn child_names(nodes: Seq<NodeView>, parent: int) -> Seq<Seq<char>> {
    nodes.filter(|n: NodeView| n.element && n.parent == Some(parent)).map_values(
        |n: NodeView| n.name,
    )
}

/// The properties that a document asks for: the children of the first `prop`
/// element directly below the document's root element, whatever that root
/// element is called. A document without such a `prop` asks for nothing.
pub open spec fn requested_names(nodes: Seq<NodeView>) -> Seq<Seq<char>> {
    match first_child(nodes, 0, None) {
        None => Seq::empty(),
        Some(root) => match first_child(nodes, root, Some("prop"@)) {
            None => Seq::empty(),
            Some(prop) => first_occurrences(child_names(nodes, prop)),
        },
    }
}

/// The properties that a request body asks for. An empty body and one that
/// is not well-formed XML ask for nothing.
pub open spec fn requested_properties(text: Seq<char>) -> Seq<Seq<char>> {
    if text.len() == 0 {
        Seq::empty()
    } else {
        match xml_nodes(text) {
            Some(nodes) => requested_names(nodes),
            None => Seq::empty(),
        }
    }
}

/// What a body asks for is an ordered set of names: no name stands in it
/// twice, and reading the names that were read gives the same names again.
pub proof fn lemma_requested_once(text: Seq<char>)
    ensures
        requested_properties(text).no_duplicates(),
        first_occurrences(requested_properties(text)) == requested_properties(text),
{
    let none = Seq::<Seq<char>>::empty();
    assert(first_occurrences(none) == none);
    if text.len() > 0 && xml_nodes(text) is Some {
        let nodes = xml_nodes(text)->0;
        if first_child(nodes, 0, None) is Some {
            let root = first_child(nodes, 0, None)->0;
            if first_child(nodes, root, Some("prop"@)) is Some {
                let prop = first_child(nodes, root, Some("prop"@))->0;
                lemma_first_occurrences_distinct(child_names(nodes, prop));
                lemma_first_occurrences_idempotent(child_names(nodes, prop));
            }
        }
    }
}

/// Looks for the first element below `parent`, of the given name where one is
/// given.
fn find_child(nodes: &Vec<XmlNode>, parent: usize, name: Option<&String>) -> (found: Option<usize>)
    ensures
        match found {
            Some(i) => first_child(nodes.deep_view(), parent as int, name.deep_view()) == Some(
                i as int,
            ),
            None => first_child(nodes.deep_view(), parent as int, name.deep_view()) is None,
        },
{
    let ghost all = nodes.deep_view();
    let ghost wanted = name.deep_view();
    let mut i: usize = 0;
    while i < nodes.len()
        invariant
            i <= nodes.len(),
            all == nodes.deep_view(),
            wanted == name.deep_view(),
            forall|j: int| 0 <= j < i ==> !is_child(all, j, parent as int, wanted),
        decreases nodes.len() - i,
    {
        let node = &nodes[i];
        let named = match name {
            Some(n) => node.name == *n,
            None => true,
        };
        if node.element && node.parent == Some(parent) && named {
            assert(is_child(all, i as int, parent as int, wanted));
            return Some(i);
        }
        assert(!is_child(all, i as int, parent as int, wanted));
        i += 1;
    }
    None
}

/// Collects the names of the elements below `parent`.
fn names_below(nodes: &Vec<XmlNode>, parent: usize) -> (names: Vec<String>)
    ensures
        names.deep_view() == child_names(nodes.deep_view(), parent as int),
{
    let ghost all = nodes.deep_view();
    let ghost below = |n: NodeView| n.element && n.parent == Some(parent as int);
    let ghost name_of = |n: NodeView| n.name;
    let mut names: Vec<String> = Vec::new();
    let mut i: usize = 0;
    proof {
        reveal(Seq::filter);
        assert(all.take(0) =~= Seq::empty());
        assert(names.deep_view() =~= all.take(0).filter(below).map_values(name_of));
    }
    while i < nodes.len()
        invariant
            i <= nodes.len(),
            all == nodes.deep_view(),
            below == |n: NodeView| n.element && n.parent == Some(parent as int),
            name_of == |n: NodeView| n.name,
            names.deep_view() == all.take(i as int).filter(below).map_values(name_of),
        decreases nodes.len() - i,
    {
        let ghost before = names.deep_view();
        let ghost kept = all.take(i as int).filter(below);
        proof {
            assert(all.take(i + 1) =~= all.take(i as int).push(all[i as int]));
            lemma_filter_push(all.take(i as int), below, all[i as int]);
        }
        let node = &nodes[i];
        if node.element && node.parent == Some(parent) {
            names.push(node.name.clone());
            assert(names.deep_view() =~= before.push(node.name@));
            assert(kept.push(all[i as int]).map_values(name_of) =~= kept.map_values(name_of).push(
                node.name@,
            ));
        }
        i += 1;
    }
    assert(all.take(i as int) =~= all);
    names
}

/// The request that a parsed document makes.
pub fn request_from_nodes(nodes: &Vec<XmlNode>) -> (request: PropRequest)
    ensures
        request@ == requested_names(nodes.deep_view()),
{
    match find_child(nodes, 0, None) {
        None => PropRequest::empty(),
        Some(root) => {
            let prop_tag = "prop".to_owned();
            match find_child(nodes, root, Some(&prop_tag)) {
                None => PropRequest::empty(),
                Some(prop) => PropRequest::new(names_below(nodes, prop)),
            }
        },
    }
}

/// Reads the body of a PROPFIND or REPORT request. A client may send no body
/// at all, or one that cannot be parsed: both ask for nothing, and neither is
/// an error.
pub fn parse_carddav_request(xml_content: &str) -> (request: PropRequest)
    ensures
        request@ == requested_properties(xml_content@),
{
    if xml_content.is_empty() {
        return PropRequest::empty();
    }
    match read_nodes(xml_content) {
        Ok(nodes) => request_from_nodes(&nodes),
        Err(_) => PropRequest::empty(),
    }
}

/// `std::str::Utf8Error`: where a run of bytes stops being UTF-8. It is only
/// told apart from success.
#[verifier::external_type_specification]
#[verifier::external_body]
pub struct ExUtf8Error(std::str::Utf8Error);

/// `std::str::from_utf8`: the bytes as a text, where they are the UTF-8
/// encoding of one, and an error where they are not.
#[verifier::external_body]
fn read_text(body: &[u8]) -> (text: Result<&str, std::str::Utf8Error>)
    ensures
        match text {
            Ok(text) => text.spec_bytes() == body@,
            Err(_) => !valid_utf8(body@),
        },
{
    std::str::from_utf8(body)
}

/// The properties that the bytes of a request body ask for. Bytes that are
/// no text ask for nothing, as a text does that is no XML.
pub open spec fn requested_in_body(body: Seq<u8>) -> Seq<Seq<char>> {
    if valid_utf8(body) {
        requested_properties(decode_utf8(body))
    } else {
        Seq::empty()
    }
}

/// Reads the body of a request as it came over the wire.
pub fn parse_carddav_body(body: &[u8]) -> (request: PropRequest)
    ensures
        request@ == requested_in_body(body@),
{
    match read_text(body) {
        Ok(text) => {
            proof {
                encode_utf8_valid_utf8(text@);
                encode_utf8_decode_utf8(text@);
            }
            parse_carddav_request(text)
        },
        Err(_) => PropRequest::empty(),
    }
}

} // verus!

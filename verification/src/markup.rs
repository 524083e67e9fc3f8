//! The parsed wishlist page, as far as the extraction reads it. The page is
//! parsed and searched by the select crate; this module states what each of
//! its searches hands back.

use vstd::prelude::*;
use vstd::string::StrSliceExecFns;
use select::document::Document;
use select::predicate::{Class, Text};
use crate::text::is_white_space;

verus! {

/// What one node of a parsed document holds. Names are local names.
pub ghost enum NodeData {
    Text(Seq<char>),
    Element { name: Seq<char>, attributes: Seq<(Seq<char>, Seq<char>)> },
    Comment(Seq<char>),
}

/// One node of a parsed document: its place among the other nodes, each
/// given by position in the document, and what it holds. The searches walk
/// the links, so two documents with the same nodes are searched alike.
pub ghost struct MarkupNode {
    pub parent: Option<int>,
    pub prev: Option<int>,
    pub next: Option<int>,
    pub first_child: Option<int>,
    pub last_child: Option<int>,
    pub data: NodeData,
}

/// The document type of the select crate. Nothing inside it is read here:
/// what it holds is spoken of through `document_nodes`.
#[verifier::external_type_specification]
#[verifier::external_body]
pub struct ExDocument(Document);

/// The most characters of markup that are handed to the parser. The parser
/// keeps the page, and every text in it, in buffers that refuse to grow
/// past 2^31 bytes, or past 2^30 where an address has 32 bits; a character
/// of the page takes four bytes at most, there as here.
pub const MAX_MARKUP_CHARS: usize = 0x0FFF_FFFF;

/// Whether a page is short enough for the parser.
pub open spec fn parseable(markup: Seq<char>) -> bool {
    markup.len() <= MAX_MARKUP_CHARS
}

/// The nodes that a document holds, in document order.
pub uninterp spec fn document_nodes(document: Document) -> Seq<MarkupNode>;

/// The nodes that parsing `markup` as HTML gives.
pub uninterp spec fn parsed_nodes(markup: Seq<char>) -> Seq<MarkupNode>;

/// Whether the document has the nodes of some parsed text. The searches
/// below are stated of such documents only.
pub open spec fn is_parsed(document: Document) -> bool {
    exists|markup: Seq<char>| document_nodes(document) == #[trigger] parsed_nodes(markup)
}

/// Whether `at` is the place of the first attribute called `name`.
pub open spec fn is_first_named(
    attributes: Seq<(Seq<char>, Seq<char>)>,
    name: Seq<char>,
    at: int,
) -> bool {
    &&& 0 <= at < attributes.len()
    &&& attributes[at].0 == name
    &&& forall|before: int| 0 <= before < at ==> (#[trigger] attributes[before]).0 != name
}

/// Whether the stretch of `value` from `from` up to `to` is one of the
/// pieces that white space cuts it into: not empty, free of white space,
/// and with white space or an end of the value on either side.
pub open spec fn is_piece(value: Seq<char>, from: int, to: int) -> bool {
    &&& 0 <= from < to <= value.len()
    &&& forall|inside: int| from <= inside < to ==> !is_white_space(#[trigger] value[inside])
    &&& (from == 0 || is_white_space(value[from - 1]))
    &&& (to == value.len() || is_white_space(value[to]))
}

/// Whether a node carries `class`: it is an element, and `class` is one of
/// the pieces of its first attribute called `class`.
pub open spec fn carries_class(node: MarkupNode, class: Seq<char>) -> bool {
    match node.data {
        NodeData::Element { attributes, .. } => exists|at: int, from: int, to: int|
            is_first_named(attributes, "class"@, at) && is_piece(attributes[at].1, from, to)
                && #[trigger] attributes[at].1.subrange(from, to) == class,
        _ => false,
    }
}

/// Whether the node at `at` lies below the node at `root`: its parent is
/// that node, or lies below it. A parent stands before its children.
pub open spec fn is_below(nodes: Seq<MarkupNode>, at: int, root: int) -> bool
    decreases at,
{
    if 0 <= at < nodes.len() {
        match nodes[at].parent {
            Some(parent) => 0 <= parent < at && (parent == root || is_below(nodes, parent, root)),
            None => false,
        }
    } else {
        false
    }
}

/// The positions before `end` that are wanted, by rising position.
pub open spec fn positions_before(wanted: spec_fn(int) -> bool, end: nat) -> Seq<usize>
    decreases end,
{
    if end == 0 {
        Seq::empty()
    } else if wanted(end - 1) {
        positions_before(wanted, (end - 1) as nat).push((end - 1) as usize)
    } else {
        positions_before(wanted, (end - 1) as nat)
    }
}

/// The positions of the nodes that carry `class`, in document order.
pub open spec fn class_nodes(nodes: Seq<MarkupNode>, class: Seq<char>) -> Seq<usize> {
    positions_before(|at: int| carries_class(nodes[at], class), nodes.len())
}

/// The positions of the nodes below the node at `root` that carry `class`,
/// in document order.
pub open spec fn class_nodes_below(nodes: Seq<MarkupNode>, root: usize, class: Seq<char>) -> Seq<
    usize,
> {
    positions_before(
        |at: int| is_below(nodes, at, root as int) && carries_class(nodes[at], class),
        nodes.len(),
    )
}

/// The positions of the text nodes below the node at `root`, in document
/// order.
pub open spec fn text_nodes_below(nodes: Seq<MarkupNode>, root: usize) -> Seq<usize> {
    positions_before(
        |at: int| is_below(nodes, at, root as int) && nodes[at].data is Text,
        nodes.len(),
    )
}

/// The text of a text node, and no text for another node.
pub open spec fn text_of(node: MarkupNode) -> Seq<char> {
    match node.data {
        NodeData::Text(text) => text,
        _ => Seq::empty(),
    }
}

/// The texts of the text nodes below the node at `root`, in document order.
pub open spec fn texts_below(nodes: Seq<MarkupNode>, root: usize) -> Seq<Seq<char>> {
    text_nodes_below(nodes, root).map_values(|at: usize| text_of(nodes[at as int]))
}

/// Whether every position in `found` is one of a node of `nodes`.
pub open spec fn all_within(found: Seq<usize>, nodes: Seq<MarkupNode>) -> bool {
    forall|i: int| 0 <= i < found.len() ==> (#[trigger] found[i]) < nodes.len()
}

/// Whether a page is short enough for the parser.
pub fn is_parseable(markup: &str) -> (fits: bool)
    ensures
        fits == parseable(markup@),
{
    markup.unicode_len() <= MAX_MARKUP_CHARS
}

/// Calls `Document::from` on a string slice, which parses it as an HTML
/// document. The nodes of the result depend on the text alone. The parser
/// refuses buffers beyond its limit, which a page within `parseable` does
/// not reach. It also goes one call deeper for every level of nesting in
/// the page: how deep it can go is a matter of the machine's stack, as is
/// the memory it needs, and nothing is claimed of either.
#[verifier::external_body]
pub(crate) fn parse_document(markup: &str) -> (document: Document)
    requires
        parseable(markup@),
    ensures
        document_nodes(document) == parsed_nodes(markup@),
{
    Document::from(markup)
}

/// Calls `Document::find` with the predicate `Class`, and `Node::index` on
/// each node found. The search goes through the nodes of the document by
/// rising position and keeps those that the predicate accepts: elements
/// whose `class` attribute, cut at white space, has `class` among its
/// pieces. Each position handed back is that of a node of the document.
#[verifier::external_body]
pub(crate) fn find_class(document: &Document, class: &str) -> (found: Vec<usize>)
    requires
        is_parsed(*document),
    ensures
        found@ == class_nodes(document_nodes(*document), class@),
        all_within(found@, document_nodes(*document)),
{
    document.find(Class(class)).map(|node| node.index()).collect()
}

/// Calls `Node::find` with the predicate `Class` on the node that
/// `Document::nth` gives for `root`, and `Node::index` on each node found.
/// The search walks from that node to its children and on to theirs. In a
/// parsed document a node stands before its children and a child before the
/// next child, so the walk comes to every node below the root, by rising
/// position, and keeps those that the predicate accepts.
#[verifier::external_body]
pub(crate) fn find_class_below(document: &Document, root: usize, class: &str) -> (found: Vec<usize>)
    requires
        is_parsed(*document),
        root < document_nodes(*document).len(),
    ensures
        found@ == class_nodes_below(document_nodes(*document), root, class@),
        all_within(found@, document_nodes(*document)),
{
    document.nth(root).unwrap().find(Class(class)).map(|node| node.index()).collect()
}

/// Calls `Node::find` with the predicate `Text` on the node that
/// `Document::nth` gives for `root`, and `Node::text` on each text node
/// found. The walk is that of `find_class_below`; a text node has no
/// children, so its text is what it holds itself.
#[verifier::external_body]
pub(crate) fn find_texts_below(document: &Document, root: usize) -> (texts: Vec<String>)
    requires
        is_parsed(*document),
        root < document_nodes(*document).len(),
    ensures
        texts.deep_view() == texts_below(document_nodes(*document), root),
{
    document.nth(root).unwrap().find(Text).map(|node| node.text()).collect()
}

/// The wanted positions are listed by rising position, each of them once
/// and no other.
pub proof fn lemma_positions_in_order(wanted: spec_fn(int) -> bool, end: nat)
    requires
        end <= usize::MAX,
    ensures
        forall|i: int|
            0 <= i < positions_before(wanted, end).len() ==> {
                let at = #[trigger] positions_before(wanted, end)[i];
                at < end && wanted(at as int)
            },
        forall|i: int, j: int|
            0 <= i < j < positions_before(wanted, end).len() ==> positions_before(wanted, end)[i]
                < positions_before(wanted, end)[j],
        forall|at: int|
            0 <= at < end && #[trigger] wanted(at) ==> positions_before(wanted, end).contains(
                at as usize,
            ),
    decreases end,
{
    if end > 0 {
        let before = positions_before(wanted, (end - 1) as nat);
        let all = positions_before(wanted, end);
        lemma_positions_in_order(wanted, (end - 1) as nat);
        assert forall|at: int| 0 <= at < end && #[trigger] wanted(at) implies all.contains(
            at as usize,
        ) by {
            if at < end - 1 {
                let k = choose|k: int| 0 <= k < before.len() && before[k] == at as usize;
                assert(all[k] == at as usize);
            } else {
                assert(all[all.len() - 1] == at as usize);
            }
        }
    }
}

} // verus!

//! Reading a document from HTML. The parser lists the nodes of a document in
//! document order, each with the number of nodes below it; `assemble` builds
//! the tree from that listing.

use vstd::prelude::*;
use crate::dom::{lemma_children_view, DomNode, DomTree};
use crate::error::MarkdownError;

verus! {

/// One node of a parsed document, as the parser lists it. An element comes
/// with the number of nodes below it, which follow it in the listing.
#[derive(Debug, PartialEq, Eq)]
pub enum OutlineEntry {
    Text(String),
    Element { name: String, descendants: usize },
}

/// What an `OutlineEntry` stands for.
pub enum OutlineItem {
    Text(Seq<char>),
    Element { name: Seq<char>, descendants: nat },
}

impl DeepView for OutlineEntry {
    type V = OutlineItem;

    open spec fn deep_view(&self) -> OutlineItem {
        match self {
            OutlineEntry::Text(text) => OutlineItem::Text(text@),
            OutlineEntry::Element { name, descendants } => OutlineItem::Element {
                name: name@,
                descendants: *descendants as nat,
            },
        }
    }
}

impl OutlineItem {
    /// How many entries of a listing of `available` entries the node takes
    /// up, itself included, where it is the first of them. A count that
    /// reaches past the end of the listing stops there.
    pub open spec fn extent(self, available: nat) -> nat {
        match self {
            OutlineItem::Text(_) => 1,
            OutlineItem::Element { descendants, .. } => if descendants < available {
                descendants + 1
            } else {
                available
            },
        }
    }
}

/// The trees that a listing describes: the first entry is the root of the
/// first tree, the entries below it are the listing of its children, and the
/// entries after those are the listing of the trees that follow.
pub open spec fn forest(outline: Seq<OutlineItem>) -> Seq<DomTree>
    decreases outline.len(),
{
    if outline.len() == 0 {
        Seq::empty()
    } else {
        let extent = outline[0].extent(outline.len()) as int;
        let first = match outline[0] {
            OutlineItem::Text(text) => DomTree::Text(text),
            OutlineItem::Element { name, .. } => DomTree::Element {
                name,
                children: forest(outline.subrange(1, extent)),
            },
        };
        seq![first] + forest(outline.subrange(extent, outline.len() as int))
    }
}

/// The number of nodes of a tree.
pub open spec fn tree_size(tree: DomTree) -> nat
    decreases tree, 0int,
{
    match tree {
        DomTree::Text(_) => 1,
        DomTree::Element { children, .. } => 1 + forest_size(children, children.len() as int),
    }
}

/// The number of nodes of the first `k` of `trees`.
pub open spec fn forest_size(trees: Seq<DomTree>, k: int) -> nat
    decreases trees, k,
{
    if 0 < k <= trees.len() {
        forest_size(trees, k - 1) + tree_size(trees[k - 1])
    } else {
        0
    }
}

/// The listing of a tree: its root, with the number of nodes below it, and
/// then the listing of its children.
pub open spec fn listing(tree: DomTree) -> Seq<OutlineItem>
    decreases tree, 0int,
{
    match tree {
        DomTree::Text(text) => seq![OutlineItem::Text(text)],
        DomTree::Element { name, children } => {
            let descendants = forest_size(children, children.len() as int);
            seq![OutlineItem::Element { name, descendants }] + forest_listing(
                children,
                children.len() as int,
            )
        },
    }
}

/// The listing of the first `k` of `trees`, one after the other.
pub open spec fn forest_listing(trees: Seq<DomTree>, k: int) -> Seq<OutlineItem>
    decreases trees, k,
{
    if 0 < k <= trees.len() {
        forest_listing(trees, k - 1) + listing(trees[k - 1])
    } else {
        Seq::empty()
    }
}

/// A listing has one entry for each node.
pub proof fn lemma_listing_len(tree: DomTree)
    ensures
        listing(tree).len() == tree_size(tree),
    decreases tree, 0int,
{
    match tree {
        DomTree::Text(_) => {},
        DomTree::Element { name, children } => {
            lemma_forest_listing_len(children, children.len() as int);
        },
    }
}

/// A listing has one entry for each node.
pub proof fn lemma_forest_listing_len(trees: Seq<DomTree>, k: int)
    ensures
        forest_listing(trees, k).len() == forest_size(trees, k),
    decreases trees, k,
{
    if 0 < k <= trees.len() {
        lemma_forest_listing_len(trees, k - 1);
        lemma_listing_len(trees[k - 1]);
    }
}

/// A listing that starts with the listing of a tree describes that tree,
/// and then what the rest of the listing describes.
pub proof fn lemma_forest_of_listing(tree: DomTree, rest: Seq<OutlineItem>)
    ensures
        forest(listing(tree) + rest) == seq![tree] + forest(rest),
    decreases tree, 0int,
{
    let outline = listing(tree) + rest;
    match tree {
        DomTree::Text(_) => {
            assert(outline.subrange(1, outline.len() as int) =~= rest);
        },
        DomTree::Element { name, children } => {
            let below = forest_listing(children, children.len() as int);
            lemma_forest_listing_len(children, children.len() as int);
            assert(outline.subrange(1, 1 + below.len() as int) =~= below);
            assert(outline.subrange(1 + below.len() as int, outline.len() as int) =~= rest);
            lemma_forest_of_forest_listing(children, children.len() as int, Seq::empty());
            assert(below + Seq::<OutlineItem>::empty() =~= below);
            assert(children.take(children.len() as int) =~= children);
            assert(forest(below) =~= children);
        },
    }
}

/// A listing that starts with the listing of some trees describes those
/// trees, and then what the rest of the listing describes.
pub proof fn lemma_forest_of_forest_listing(trees: Seq<DomTree>, k: int, rest: Seq<OutlineItem>)
    requires
        0 <= k <= trees.len(),
    ensures
        forest(forest_listing(trees, k) + rest) == trees.take(k) + forest(rest),
    decreases trees, k,
{
    if k == 0 {
        assert(forest_listing(trees, k) + rest =~= rest);
        assert(trees.take(0) + forest(rest) =~= forest(rest));
    } else {
        let last = listing(trees[k - 1]);
        lemma_forest_of_forest_listing(trees, k - 1, last + rest);
        lemma_forest_of_listing(trees[k - 1], rest);
        assert(forest_listing(trees, k) + rest =~= forest_listing(trees, k - 1) + (last + rest));
        assert(trees.take(k) + forest(rest) =~= trees.take(k - 1) + (seq![trees[k - 1]] + forest(
            rest,
        )));
    }
}

/// The listing of a document describes that document.
pub proof fn lemma_listing_describes(document: Seq<DomTree>)
    ensures
        forest(forest_listing(document, document.len() as int)) == document,
{
    let outline = forest_listing(document, document.len() as int);
    lemma_forest_of_forest_listing(document, document.len() as int, Seq::empty());
    assert(outline + Seq::<OutlineItem>::empty() =~= outline);
    assert(document.take(document.len() as int) + forest(Seq::<OutlineItem>::empty()) =~= document);
}

/// The error of `html_parser`. Nothing is known of what it holds.
#[verifier::external_type_specification]
#[verifier::external_body]
pub struct ExParseError(html_parser::Error);

/// Calls `html_parser::Dom::parse` and lists the nodes of the document that
/// it returns: each top-level node, followed by the nodes that the iterator
/// of `html_parser::Node` yields for it, which are the nodes below it in
/// document order. A comment is listed as text, an element with the number
/// of nodes that the iterator yields for it. Nothing is claimed of the
/// outcome: whether a text is accepted also depends on the stack that is
/// left to the parser and on the budget of calls that its process has set,
/// so the same text need not give the same outcome twice.
#[verifier::external_body]
fn parse_outline(html: &str) -> Result<Vec<OutlineEntry>, html_parser::Error>
{
    let dom = html_parser::Dom::parse(html)?;
    let nodes = dom.children.iter().flat_map(|root| std::iter::once(root).chain(root));
    Ok(nodes.map(|node| match node {
        html_parser::Node::Text(text) => OutlineEntry::Text(text.clone()),
        html_parser::Node::Comment(text) => OutlineEntry::Text(text.clone()),
        html_parser::Node::Element(element) => OutlineEntry::Element {
            name: element.name.clone(),
            descendants: node.into_iter().count(),
        },
    }).collect())
}

/// The message of an `html_parser::Error`, as its `Display` writes it.
/// Nothing is claimed of the text.
#[verifier::external_body]
fn error_message(error: &html_parser::Error) -> String {
    error.to_string()
}

/// Builds the trees that the entries of `outline` from `start` up to `end`
/// describe.
fn assemble_range(outline: &Vec<OutlineEntry>, start: usize, end: usize) -> (nodes: Vec<DomNode>)
    requires
        start <= end <= outline.len(),
    ensures
        nodes.deep_view() == forest(outline.deep_view().subrange(start as int, end as int)),
    decreases end - start,
{
    let ghost views = outline.deep_view();
    let mut nodes: Vec<DomNode> = Vec::new();
    let mut at: usize = start;
    assert(nodes.deep_view() =~= Seq::<DomTree>::empty());
    while at < end
        invariant
            start <= at <= end <= outline.len(),
            views == outline.deep_view(),
            nodes.deep_view() + forest(views.subrange(at as int, end as int)) == forest(
                views.subrange(start as int, end as int),
            ),
        decreases end - at,
    {
        let ghost rest = views.subrange(at as int, end as int);
        let ghost built = nodes.deep_view();
        assert(rest[0] == outline[at as int].deep_view());
        let node = match &outline[at] {
            OutlineEntry::Text(text) => {
                let node = DomNode::Text(text.clone());
                assert(rest.subrange(1, rest.len() as int) =~= views.subrange(
                    at + 1,
                    end as int,
                ));
                at += 1;
                node
            },
            OutlineEntry::Element { name, descendants } => {
                let below = if *descendants < end - at {
                    *descendants
                } else {
                    end - at - 1
                };
                assert(rest.subrange(1, below + 1) =~= views.subrange(at + 1, at + 1 + below));
                assert(rest.subrange(below + 1, rest.len() as int) =~= views.subrange(
                    at + 1 + below,
                    end as int,
                ));
                let children = assemble_range(outline, at + 1, at + 1 + below);
                let node = DomNode::Element { name: name.clone(), children };
                proof {
                    lemma_children_view(node);
                }
                at += 1 + below;
                node
            },
        };
        nodes.push(node);
        assert(nodes.deep_view() =~= built.push(node.deep_view()));
        assert(forest(rest) == seq![node.deep_view()] + forest(
            views.subrange(at as int, end as int),
        ));
        assert(nodes.deep_view() + forest(views.subrange(at as int, end as int)) =~= built
            + forest(rest));
    }
    assert(views.subrange(end as int, end as int) =~= Seq::<OutlineItem>::empty());
    assert(nodes.deep_view() =~= nodes.deep_view() + forest(
        views.subrange(at as int, end as int),
    ));
    nodes
}

/// Builds the document that a listing of its nodes describes.
pub fn assemble(outline: &Vec<OutlineEntry>) -> (document: Vec<DomNode>)
    ensures
        document.deep_view() == forest(outline.deep_view()),
{
    assert(outline.deep_view().subrange(0, outline.len() as int) =~= outline.deep_view());
    assemble_range(outline, 0, outline.len())
}

/// Reads a document from HTML: the parser lists its nodes, and `assemble`
/// builds the document from the listing. Where the parser refuses the text,
/// the error holds its message. Which of the two happens is the parser's to
/// decide.
pub fn parse_document(html: &str) -> (parsed: Result<Vec<DomNode>, MarkdownError>)
    ensures
        parsed matches Err(error) ==> error is InvalidHtml,
{
    match parse_outline(html) {
        Ok(outline) => Ok(assemble(&outline)),
        Err(error) => Err(MarkdownError::InvalidHtml(error_message(&error))),
    }
}

} // verus!

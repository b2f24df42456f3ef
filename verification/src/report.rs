//! The elements of a document that rendering passes over. Nothing is
//! written for them; they are listed here, so that whoever renders a
//! document can tell its user what was left out.

use vstd::prelude::*;
use crate::dom::{lemma_children_view, tag_of, DomNode, DomTree, TagName};
use crate::section::{locate_questions_list, questions_list};

verus! {

/// The elements that are passed over while `node` is rendered, in document
/// order: each element that is not rendered itself and stands where an
/// element would be rendered. What such an element holds is not looked at.
pub open spec fn unhandled_in_node(node: DomTree) -> Seq<DomTree>
    decreases node, 0int,
{
    match node {
        DomTree::Text(_) => Seq::empty(),
        DomTree::Element { name, children } => if tag_of(name).is_rendered() {
            unhandled_in_children(children, children.len() as int)
        } else {
            seq![node]
        },
    }
}

/// The elements that are passed over while the first `k` of `children` are
/// rendered.
pub open spec fn unhandled_in_children(children: Seq<DomTree>, k: int) -> Seq<DomTree>
    decreases children, k,
{
    if 0 < k <= children.len() {
        unhandled_in_children(children, k - 1) + unhandled_in_node(children[k - 1])
    } else {
        Seq::empty()
    }
}

/// The elements that are passed over while the first `k` children of the
/// list of questions are rendered: those inside its list items.
pub open spec fn unhandled_in_questions(children: Seq<DomTree>, k: int) -> Seq<DomTree>
    decreases k,
{
    if 0 < k <= children.len() {
        let inside = if children[k - 1].has_tag(TagName::ListItem) {
            unhandled_in_node(children[k - 1])
        } else {
            Seq::empty()
        };
        unhandled_in_questions(children, k - 1) + inside
    } else {
        Seq::empty()
    }
}

/// The elements that are passed over while the lab note of `document` is
/// written.
pub open spec fn unhandled_in_document(document: Seq<DomTree>) -> Seq<DomTree> {
    match questions_list(document) {
        Some(list) => unhandled_in_questions(list.children(), list.children().len() as int),
        None => Seq::empty(),
    }
}

/// Appends to `found` the elements that are passed over while `node` is
/// rendered.
pub fn collect_unhandled<'a>(found: &mut Vec<&'a DomNode>, node: &'a DomNode)
    ensures
        final(found).deep_view() == old(found).deep_view() + unhandled_in_node(node.deep_view()),
    decreases node, 0int,
{
    match node {
        DomNode::Text(_) => {
            assert(found.deep_view() =~= old(found).deep_view() + unhandled_in_node(
                node.deep_view(),
            ));
        },
        DomNode::Element { name, children } => {
            proof {
                lemma_children_view(*node);
            }
            match TagName::from_name(name.as_str()) {
                TagName::Heading1 | TagName::Other => {
                    found.push(node);
                    assert(found.deep_view() =~= old(found).deep_view() + seq![node.deep_view()]);
                },
                _ => {
                    collect_unhandled_children(found, children);
                },
            }
        },
    }
}

/// Appends to `found` the elements that are passed over while `children` are
/// rendered.
pub fn collect_unhandled_children<'a>(found: &mut Vec<&'a DomNode>, children: &'a Vec<DomNode>)
    ensures
        final(found).deep_view() == old(found).deep_view() + unhandled_in_children(
            children.deep_view(),
            children.len() as int,
        ),
    decreases children, 1int,
{
    let ghost views = children.deep_view();
    let mut at: usize = 0;
    assert(found.deep_view() =~= old(found).deep_view() + unhandled_in_children(views, 0));
    while at < children.len()
        invariant
            at <= children.len(),
            views == children.deep_view(),
            found.deep_view() == old(found).deep_view() + unhandled_in_children(views, at as int),
        decreases children.len() - at,
    {
        assert(views.len() == children.len());
        assert(views[at as int] == children[at as int].deep_view());
        collect_unhandled(found, &children[at]);
        at += 1;
        assert(found.deep_view() =~= old(found).deep_view() + unhandled_in_children(
            views,
            at as int,
        ));
    }
}

/// The elements that are passed over while the lab note of `document` is
/// written, in document order.
pub fn unhandled_elements(document: &Vec<DomNode>) -> (found: Vec<&DomNode>)
    ensures
        found.deep_view() == unhandled_in_document(document.deep_view()),
{
    let mut found: Vec<&DomNode> = Vec::new();
    assert(found.deep_view() =~= Seq::<DomTree>::empty());
    match locate_questions_list(document) {
        Some(list) => {
            match list {
                DomNode::Text(_) => {},
                DomNode::Element { name: _, children } => {
                    proof {
                        lemma_children_view(*list);
                    }
                    let ghost views = children.deep_view();
                    let mut at: usize = 0;
                    while at < children.len()
                        invariant
                            at <= children.len(),
                            views == children.deep_view(),
                            found.deep_view() == unhandled_in_questions(views, at as int),
                        decreases children.len() - at,
                    {
                        assert(views.len() == children.len());
                        assert(views[at as int] == children[at as int].deep_view());
                        if children[at].has_tag(TagName::ListItem) {
                            collect_unhandled(&mut found, &children[at]);
                        }
                        at += 1;
                        assert(found.deep_view() =~= unhandled_in_questions(views, at as int));
                    }
                },
            }
        },
        None => {},
    }
    found
}

} // verus!

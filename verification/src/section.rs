//! Finding the list of questions in a document.

use vstd::prelude::*;
use crate::dom::{DomNode, DomTree, TagName};

verus! {

/// Whether the node at `at` is an ordered list that comes after a heading
/// that opens the questions.
pub open spec fn follows_marker(document: Seq<DomTree>, at: int) -> bool {
    &&& 0 <= at < document.len()
    &&& document[at].has_tag(TagName::OrderedList)
    &&& exists|heading: int| 0 <= heading < at && (#[trigger] document[heading]).is_marker_heading()
}

/// Whether the node at `at` is the first such list.
pub open spec fn is_questions_list(document: Seq<DomTree>, at: int) -> bool {
    &&& follows_marker(document, at)
    &&& forall|before: int| 0 <= before < at ==> !follows_marker(document, before)
}

/// Where the list of questions stands among the top-level nodes of a
/// document: the first ordered list after a heading that opens the questions,
/// whatever stands between the two. `None` where no ordered list follows such
/// a heading.
pub open spec fn questions_list_index(document: Seq<DomTree>) -> Option<int> {
    if exists|at: int| follows_marker(document, at) {
        Some(choose|at: int| is_questions_list(document, at))
    } else {
        None
    }
}

/// The list of questions of a document.
pub open spec fn questions_list(document: Seq<DomTree>) -> Option<DomTree> {
    match questions_list_index(document) {
        Some(at) => Some(document[at]),
        None => None,
    }
}

/// There is at most one first list.
pub proof fn lemma_questions_list_index(document: Seq<DomTree>, at: int)
    requires
        is_questions_list(document, at),
    ensures
        questions_list_index(document) == Some(at),
{
    let chosen = choose|at: int| is_questions_list(document, at);
    assert(is_questions_list(document, chosen));
    if chosen < at {
        assert(!follows_marker(document, chosen));
    }
    if at < chosen {
        assert(!follows_marker(document, at));
    }
}

/// Finds the list of questions among the top-level nodes of a document.
pub fn locate_questions_list(document: &Vec<DomNode>) -> (found: Option<&DomNode>)
    ensures
        found.deep_view() == questions_list(document.deep_view()),
        match found {
            Some(list) => questions_list_index(document.deep_view()) matches Some(at) && *list
                == document[at],
            None => true,
        },
{
    let ghost views = document.deep_view();
    let mut armed = false;
    let mut at: usize = 0;
    while at < document.len()
        invariant
            at <= document.len(),
            views == document.deep_view(),
            armed <==> exists|heading: int|
                0 <= heading < at && (#[trigger] views[heading]).is_marker_heading(),
            forall|before: int| 0 <= before < at ==> !follows_marker(views, before),
        decreases document.len() - at,
    {
        let node = &document[at];
        assert(views[at as int] == node.deep_view());
        if armed && node.has_tag(TagName::OrderedList) {
            proof {
                lemma_questions_list_index(views, at as int);
            }
            return Some(node);
        }
        if node.has_tag(TagName::Heading1) && node.is_question_header() {
            armed = true;
        }
        at += 1;
    }
    assert(forall|any: int| !follows_marker(views, any));
    None
}

} // verus!

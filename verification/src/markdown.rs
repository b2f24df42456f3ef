//! The lab note: a header with the assignment and its author, then the
//! questions of the assignment.

use vstd::prelude::*;
use vstd::string::StringExecFns;
use crate::dom::{lemma_children_view, DomNode, DomTree, TagName};
use crate::list::{ListContext, ListType};
use crate::error::MarkdownError;
use crate::html::parse_document;
use crate::render::{
    child_context, has_next, node_fits, node_within_limits, parse_list_line, rendered_node,
};
use crate::section::{locate_questions_list, questions_list};

verus! {

/// The list in which the first question is rendered: the outermost ordered
/// list, which starts to count at 1.
pub open spec fn first_question() -> ListContext {
    ListContext::Ordered { indent: 0, number: 1 }
}

/// The header of a lab note.
pub open spec fn header_text(assignment_name: Seq<char>, user_name: Seq<char>) -> Seq<char> {
    "# "@ + assignment_name + "\n#### _By "@ + user_name + "_\n\n"@
}

/// The Markdown of the first `k` children of the list of questions. Each list
/// item among them is rendered as a question, followed by an empty line;
/// whatever else stands in the list is left out.
pub open spec fn question_items(children: Seq<DomTree>, k: int) -> Seq<char>
    decreases k,
{
    if 0 < k <= children.len() {
        let item = if children[k - 1].has_tag(TagName::ListItem) {
            rendered_node(children[k - 1], child_context(children, first_question(), k - 1))
                + "\n\n"@
        } else {
            Seq::empty()
        };
        question_items(children, k - 1) + item
    } else {
        Seq::empty()
    }
}

/// The section of a lab note that holds the questions of `list`.
pub open spec fn questions_section(list: DomTree) -> Seq<char> {
    "## Questions"@ + question_items(list.children(), list.children().len() as int)
}

/// Whether every list that is reached while the questions of `list` are
/// rendered has a depth and a number that a `ListType` can hold.
pub open spec fn questions_within_limits(list: DomTree) -> bool {
    forall|k: int|
        #![trigger child_context(list.children(), first_question(), k)]
        0 <= k < list.children().len() && list.children()[k].has_tag(TagName::ListItem) ==> {
            &&& node_within_limits(
                list.children()[k],
                child_context(list.children(), first_question(), k),
            )
            &&& child_context(list.children(), first_question(), k).next().in_range()
        }
}

/// The lab note for a document: the header, and the section of questions
/// where the document has a list of questions.
pub open spec fn document_markdown(
    document: Seq<DomTree>,
    user_name: Seq<char>,
    assignment_name: Seq<char>,
) -> Seq<char> {
    match questions_list(document) {
        Some(list) => header_text(assignment_name, user_name) + questions_section(list),
        None => header_text(assignment_name, user_name),
    }
}

/// Whether the questions of a document, if it has any, can be rendered.
pub open spec fn document_within_limits(document: Seq<DomTree>) -> bool {
    match questions_list(document) {
        Some(list) => questions_within_limits(list),
        None => true,
    }
}

/// The header of a lab note: the assignment as a title, and its author.
pub fn create_markdown_header(assignment_name: &str, user_name: &str) -> (header: String)
    ensures
        header@ == header_text(assignment_name@, user_name@),
{
    let mut header = String::new();
    header.append("# ");
    header.append(assignment_name);
    header.append("\n#### _By ");
    header.append(user_name);
    header.append("_\n\n");
    assert(header@ =~= header_text(assignment_name@, user_name@));
    header
}

/// Appends to `markdown_str` the section of questions: its heading, then
/// each list item of `question_head` as a question, numbered from 1.
pub fn parse_questions(markdown_str: &mut String, question_head: &DomNode)
    requires
        questions_within_limits(question_head.deep_view()),
    ensures
        final(markdown_str)@ == old(markdown_str)@ + questions_section(question_head.deep_view()),
{
    markdown_str.append("## Questions");
    match question_head {
        DomNode::Text(_) => {
            assert(markdown_str@ =~= old(markdown_str)@ + questions_section(
                question_head.deep_view(),
            ));
        },
        DomNode::Element { name: _, children } => {
            proof {
                lemma_children_view(*question_head);
            }
            let ghost views = children.deep_view();
            let ghost start = markdown_str@;
            let mut ordered_list = ListType::outermost();
            let mut at: usize = 0;
            assert(markdown_str@ =~= start + question_items(views, 0));
            while at < children.len()
                invariant
                    at <= children.len(),
                    views == children.deep_view(),
                    views == question_head.deep_view().children(),
                    questions_within_limits(question_head.deep_view()),
                    ordered_list@ == child_context(views, first_question(), at as int),
                    markdown_str@ == start + question_items(views, at as int),
                decreases children.len() - at,
            {
                let child = &children[at];
                let ghost before = markdown_str@;
                let ghost context = child_context(views, first_question(), at as int);
                assert(views.len() == children.len());
                assert(views[at as int] == child.deep_view());
                if child.has_tag(TagName::ListItem) {
                    assert(node_within_limits(views[at as int], context));
                    parse_list_line(markdown_str, child, ordered_list);
                    markdown_str.append("\n\n");
                    ordered_list.increment_list_num();
                    assert(markdown_str@ == before + (rendered_node(views[at as int], context)
                        + "\n\n"@)) by {
                        assert(markdown_str@ =~= before + (rendered_node(views[at as int], context)
                            + "\n\n"@));
                    }
                }
                at += 1;
                assert(question_items(views, at as int) == question_items(views, at - 1) + (
                if views[at - 1].has_tag(TagName::ListItem) {
                    rendered_node(views[at - 1], context) + "\n\n"@
                } else {
                    Seq::empty()
                }));
                assert(markdown_str@ =~= start + question_items(views, at as int));
            }
            assert(markdown_str@ =~= old(markdown_str)@ + questions_section(
                question_head.deep_view(),
            ));
        },
    }
}

/// Writes the lab note for a document.
pub fn create_markdown(
    document: &Vec<DomNode>,
    user_name: &str,
    assignment_name: String,
) -> (markdown: String)
    requires
        document_within_limits(document.deep_view()),
    ensures
        markdown@ == document_markdown(document.deep_view(), user_name@, assignment_name@),
{
    let mut markdown = create_markdown_header(assignment_name.as_str(), user_name);
    match locate_questions_list(document) {
        Some(list) => {
            parse_questions(&mut markdown, list);
        },
        None => {},
    }
    markdown
}

/// Whether the questions of `question_head` can be rendered.
pub fn questions_fit(question_head: &DomNode) -> (fits: bool)
    ensures
        fits == questions_within_limits(question_head.deep_view()),
{
    match question_head {
        DomNode::Text(_) => true,
        DomNode::Element { name: _, children } => {
            proof {
                lemma_children_view(*question_head);
            }
            let ghost views = children.deep_view();
            let mut ordered_list = ListType::outermost();
            let mut at: usize = 0;
            while at < children.len()
                invariant
                    at <= children.len(),
                    views == children.deep_view(),
                    views == question_head.deep_view().children(),
                    ordered_list@ == child_context(views, first_question(), at as int),
                    forall|k: int|
                        #![trigger child_context(views, first_question(), k)]
                        0 <= k < at && views[k].has_tag(TagName::ListItem) ==> {
                            &&& node_within_limits(
                                views[k],
                                child_context(views, first_question(), k),
                            )
                            &&& child_context(views, first_question(), k).next().in_range()
                        },
                decreases children.len() - at,
            {
                let child = &children[at];
                assert(views.len() == children.len());
                assert(views[at as int] == child.deep_view());
                if child.has_tag(TagName::ListItem) {
                    if !node_fits(child, ordered_list) || !has_next(ordered_list) {
                        return false;
                    }
                    ordered_list.increment_list_num();
                }
                at += 1;
            }
            assert(views.len() == children.len());
            true
        },
    }
}

/// Whether the questions of `document`, if it has any, can be rendered.
pub fn document_fits(document: &Vec<DomNode>) -> (fits: bool)
    ensures
        fits == document_within_limits(document.deep_view()),
{
    match locate_questions_list(document) {
        Some(list) => questions_fit(list),
        None => true,
    }
}

/// What `create_markdown_from_html` returns for a document that was read.
pub open spec fn markdown_outcome(
    document: Seq<DomTree>,
    user_name: Seq<char>,
    assignment_name: Seq<char>,
    outcome: Result<String, MarkdownError>,
) -> bool {
    if document_within_limits(document) {
        outcome matches Ok(markdown) && markdown@ == document_markdown(
            document,
            user_name,
            assignment_name,
        )
    } else {
        outcome == Err::<String, MarkdownError>(MarkdownError::LimitExceeded)
    }
}

/// Writes the lab note for a document that was read.
pub fn create_markdown_checked(
    document: &Vec<DomNode>,
    user_name: &str,
    assignment_name: String,
) -> (outcome: Result<String, MarkdownError>)
    ensures
        markdown_outcome(document.deep_view(), user_name@, assignment_name@, outcome),
{
    if document_fits(document) {
        Ok(create_markdown(document, user_name, assignment_name))
    } else {
        Err(MarkdownError::LimitExceeded)
    }
}

/// Writes the lab note for the description of an assignment, which is HTML.
/// The description is read with `parse_document`, and the note is written
/// for the document that comes back, as `create_markdown_checked` does. What
/// is returned is the note of a document whose questions can be rendered, or
/// one of the two errors.
pub fn create_markdown_from_html(
    doc: &str,
    user_name: &str,
    assignment_name: String,
) -> (outcome: Result<String, MarkdownError>)
    ensures
        match outcome {
            Ok(markdown) => exists|document: Seq<DomTree>|
                #[trigger] document_within_limits(document) && markdown@ == document_markdown(
                    document,
                    user_name@,
                    assignment_name@,
                ),
            Err(error) => error is InvalidHtml || error is LimitExceeded,
        },
{
    match parse_document(doc) {
        Ok(document) => create_markdown_checked(&document, user_name, assignment_name),
        Err(error) => Err(error),
    }
}

} // verus!

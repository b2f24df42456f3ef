//! Rendering of a list and of what its items hold as Markdown.

use vstd::prelude::*;
use vstd::string::StringExecFns;
use crate::dom::{tag_of, DomNode, DomTree, TagName, lemma_children_view};
use crate::list::{ListContext, ListKind, ListType};

verus! {

impl TagName {
    /// Whether an element with this tag is rendered. An element with any
    /// other tag is passed over, with all that it holds.
    pub open spec fn is_rendered(self) -> bool {
        self != TagName::Heading1 && self != TagName::Other
    }

    /// The text that is written before the children of an element with this
    /// tag, in a list `ctx`.
    pub open spec fn opening(self, ctx: ListContext) -> Seq<char> {
        match self {
            TagName::ListItem => ctx.prefix(),
            TagName::Code => seq![' ', '`'],
            TagName::Emphasis => seq![' ', '_'],
            _ => Seq::empty(),
        }
    }

    /// The text that is written after the children of an element with this
    /// tag.
    pub open spec fn closing(self) -> Seq<char> {
        match self {
            TagName::Code => seq!['`', ' '],
            TagName::Emphasis => seq!['_', ' '],
            _ => Seq::empty(),
        }
    }

    /// The list in which the children of an element with this tag are
    /// rendered, where the element itself stands in a list `ctx`: a list
    /// element opens a new list one level deeper, every other element leaves
    /// the list as it is.
    pub open spec fn inner_context(self, ctx: ListContext) -> ListContext {
        match self {
            TagName::OrderedList => ctx.nested(ListKind::Ordered),
            TagName::UnorderedList => ctx.nested(ListKind::Unordered),
            _ => ctx,
        }
    }
}

/// The number of list items among the first `k` of `children`.
pub open spec fn items_before(children: Seq<DomTree>, k: int) -> nat
    decreases k,
{
    if k <= 0 {
        0
    } else {
        let counted: nat = if k <= children.len() && children[k - 1].has_tag(TagName::ListItem) {
            1
        } else {
            0
        };
        items_before(children, k - 1) + counted
    }
}

/// The list in which child `k` of `children` is rendered, where the first
/// child is rendered in `ctx`: each list item before it has moved the list
/// on by one.
pub open spec fn child_context(children: Seq<DomTree>, ctx: ListContext, k: int) -> ListContext {
    ctx.advanced(items_before(children, k))
}

/// The Markdown of one node in a list `ctx`. A text leaf is written as it is.
/// A rendered element is written as its opening, its children and its
/// closing; any other element is left out.
pub open spec fn rendered_node(node: DomTree, ctx: ListContext) -> Seq<char>
    decreases node, 0int,
{
    match node {
        DomTree::Text(text) => text,
        DomTree::Element { name, children } => {
            let tag = tag_of(name);
            if tag.is_rendered() {
                tag.opening(ctx) + rendered_children(
                    children,
                    tag.inner_context(ctx),
                    children.len() as int,
                ) + tag.closing()
            } else {
                Seq::empty()
            }
        },
    }
}

/// The Markdown of the first `k` of `children`, one after the other, where
/// the first child is rendered in `ctx`.
pub open spec fn rendered_children(children: Seq<DomTree>, ctx: ListContext, k: int) -> Seq<char>
    decreases children, k,
{
    if 0 < k <= children.len() {
        rendered_children(children, ctx, k - 1) + rendered_node(
            children[k - 1],
            child_context(children, ctx, k - 1),
        )
    } else {
        Seq::empty()
    }
}

/// Whether every list that is reached while `node` is rendered in `ctx` has
/// a depth and a number that a `ListType` can hold.
pub open spec fn node_within_limits(node: DomTree, ctx: ListContext) -> bool
    decreases node, 0int,
{
    match node {
        DomTree::Text(_) => true,
        DomTree::Element { name, children } => {
            let tag = tag_of(name);
            tag.is_rendered() ==> {
                &&& tag.inner_context(ctx).in_range()
                &&& children_within_limits(children, tag.inner_context(ctx))
            }
        },
    }
}

/// Whether every list that is reached while `children` are rendered, the
/// first of them in `ctx`, has a depth and a number that a `ListType` can
/// hold.
pub open spec fn children_within_limits(children: Seq<DomTree>, ctx: ListContext) -> bool
    decreases children, 1int,
{
    forall|k: int|
        #![trigger child_context(children, ctx, k)]
        0 <= k < children.len() ==> {
            &&& node_within_limits(children[k], child_context(children, ctx, k))
            &&& children[k].has_tag(TagName::ListItem) ==> child_context(
                children,
                ctx,
                k,
            ).next().in_range()
        }
}

/// Appends to `markdown_str` the Markdown of `line_head` in the list
/// `list_type`.
pub fn parse_list_line(markdown_str: &mut String, line_head: &DomNode, list_type: ListType)
    requires
        node_within_limits(line_head.deep_view(), list_type@),
    ensures
        final(markdown_str)@ == old(markdown_str)@ + rendered_node(
            line_head.deep_view(),
            list_type@,
        ),
    decreases line_head, 0int,
{
    match line_head {
        DomNode::Text(text) => {
            markdown_str.append(text.as_str());
        },
        DomNode::Element { name, children } => {
            proof {
                lemma_children_view(*line_head);
                reveal_strlit(" `");
                reveal_strlit("` ");
                reveal_strlit(" _");
                reveal_strlit("_ ");
            }
            let ghost views = children.deep_view();
            let tag = TagName::from_name(name.as_str());
            match tag {
                TagName::ListItem => {
                    ListType::append_list_string(markdown_str, list_type);
                    parse_children(markdown_str, children, list_type);
                },
                TagName::Paragraph => {
                    parse_children(markdown_str, children, list_type);
                },
                TagName::Code => {
                    markdown_str.append(" `");
                    parse_children(markdown_str, children, list_type);
                    markdown_str.append("` ");
                },
                TagName::Emphasis => {
                    markdown_str.append(" _");
                    parse_children(markdown_str, children, list_type);
                    markdown_str.append("_ ");
                },
                TagName::UnorderedList => {
                    parse_children(markdown_str, children, list_type.nested(ListKind::Unordered));
                },
                TagName::OrderedList => {
                    parse_children(markdown_str, children, list_type.nested(ListKind::Ordered));
                },
                TagName::Heading1 | TagName::Other => {},
            }
            assert(markdown_str@ =~= old(markdown_str)@ + rendered_node(
                line_head.deep_view(),
                list_type@,
            ));
        },
    }
}

/// Appends to `markdown_str` the Markdown of `children`, one after the other,
/// the first of them in the list `list_type`. Each list item among them moves
/// the list on by one for the children after it.
pub fn parse_children(markdown_str: &mut String, children: &Vec<DomNode>, list_type: ListType)
    requires
        children_within_limits(children.deep_view(), list_type@),
    ensures
        final(markdown_str)@ == old(markdown_str)@ + rendered_children(
            children.deep_view(),
            list_type@,
            children.len() as int,
        ),
    decreases children, 1int,
{
    let ghost views = children.deep_view();
    let mut current = list_type;
    let mut at: usize = 0;
    assert(markdown_str@ =~= old(markdown_str)@ + rendered_children(views, list_type@, 0));
    while at < children.len()
        invariant
            at <= children.len(),
            views == children.deep_view(),
            children_within_limits(views, list_type@),
            current@ == child_context(views, list_type@, at as int),
            markdown_str@ == old(markdown_str)@ + rendered_children(views, list_type@, at as int),
        decreases children.len() - at,
    {
        let child = &children[at];
        assert(views.len() == children.len());
        assert(views[at as int] == child.deep_view());
        assert(node_within_limits(views[at as int], child_context(views, list_type@, at as int)));
        parse_list_line(markdown_str, child, current);
        if is_list_item(child) {
            current.increment_list_num();
        }
        at += 1;
        assert(markdown_str@ =~= old(markdown_str)@ + rendered_children(
            views,
            list_type@,
            at as int,
        ));
    }
}

/// Whether `node` can be rendered in the list `list_type`.
pub fn node_fits(node: &DomNode, list_type: ListType) -> (fits: bool)
    ensures
        fits == node_within_limits(node.deep_view(), list_type@),
    decreases node, 0int,
{
    match node {
        DomNode::Text(_) => true,
        DomNode::Element { name, children } => {
            proof {
                lemma_children_view(*node);
            }
            match TagName::from_name(name.as_str()) {
                TagName::ListItem | TagName::Paragraph | TagName::Code | TagName::Emphasis => {
                    children_fit(children, list_type)
                },
                TagName::UnorderedList => {
                    list_type.get_indent() < usize::MAX && children_fit(
                        children,
                        list_type.nested(ListKind::Unordered),
                    )
                },
                TagName::OrderedList => {
                    list_type.get_indent() < usize::MAX && children_fit(
                        children,
                        list_type.nested(ListKind::Ordered),
                    )
                },
                TagName::Heading1 | TagName::Other => true,
            }
        },
    }
}

/// Whether `list_type` can be moved on by one item.
pub fn has_next(list_type: ListType) -> (has: bool)
    ensures
        has == list_type@.next().in_range(),
{
    match list_type {
        ListType::Ordered { indent: _, num } => num < i32::MAX,
        ListType::Unordered { .. } => true,
    }
}

/// Whether `children` can be rendered, the first of them in the list
/// `list_type`.
pub fn children_fit(children: &Vec<DomNode>, list_type: ListType) -> (fits: bool)
    ensures
        fits == children_within_limits(children.deep_view(), list_type@),
    decreases children, 1int,
{
    let ghost views = children.deep_view();
    let mut current = list_type;
    let mut at: usize = 0;
    while at < children.len()
        invariant
            at <= children.len(),
            views == children.deep_view(),
            current@ == child_context(views, list_type@, at as int),
            forall|k: int|
                #![trigger child_context(views, list_type@, k)]
                0 <= k < at ==> {
                    &&& node_within_limits(views[k], child_context(views, list_type@, k))
                    &&& views[k].has_tag(TagName::ListItem) ==> child_context(
                        views,
                        list_type@,
                        k,
                    ).next().in_range()
                },
        decreases children.len() - at,
    {
        let child = &children[at];
        assert(views.len() == children.len());
        assert(views[at as int] == child.deep_view());
        if !node_fits(child, current) {
            return false;
        }
        if is_list_item(child) {
            if !has_next(current) {
                return false;
            }
            current.increment_list_num();
        }
        at += 1;
    }
    assert(views.len() == children.len());
    true
}

/// Whether `node` is a list item.
pub fn is_list_item(node: &DomNode) -> (item: bool)
    ensures
        item == node.deep_view().has_tag(TagName::ListItem),
{
    match node {
        DomNode::Text(_) => false,
        DomNode::Element { name, .. } => {
            match TagName::from_name(name.as_str()) {
                TagName::ListItem => true,
                _ => false,
            }
        },
    }
}

} // verus!

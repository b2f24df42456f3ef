//! How the items of a list are numbered and indented, whatever they hold.

use vstd::prelude::*;
use crate::dom::{tag_of, DomTree, TagName};
use crate::list::{ListContext, ListKind};
use crate::markdown::{document_markdown, first_question, question_items, questions_section};
use crate::render::{child_context, items_before, rendered_children, rendered_node};
use crate::text::is_digit;

verus! {

/// The list in which the node at `path` is rendered, where the first of
/// `children` is rendered in `ctx`. A path names a node by the position of
/// each of its ancestors among the children of the one before, and then its
/// own; the empty path stands for the place where `children` start.
pub open spec fn context_at(children: Seq<DomTree>, ctx: ListContext, path: Seq<int>) -> ListContext
    decreases path.len(),
{
    if path.len() == 0 {
        ctx
    } else {
        let own = child_context(children, ctx, path[0]);
        if path.len() == 1 {
            own
        } else {
            match children[path[0]] {
                DomTree::Text(_) => own,
                DomTree::Element { name, children: below } => context_at(
                    below,
                    tag_of(name).inner_context(own),
                    path.drop_first(),
                ),
            }
        }
    }
}

/// Whether `path` leads to a node that is rendered when `children` are: each
/// step stays among the children, and each node on the way is an element
/// that is rendered.
pub open spec fn reaches(children: Seq<DomTree>, path: Seq<int>) -> bool
    decreases path.len(),
{
    &&& path.len() > 0
    &&& 0 <= path[0] < children.len()
    &&& path.len() > 1 ==> {
        &&& children[path[0]] matches DomTree::Element { name, children: below }
        &&& tag_of(name).is_rendered()
        &&& reaches(below, path.drop_first())
    }
}

/// The node at `path`.
pub open spec fn node_at(children: Seq<DomTree>, path: Seq<int>) -> DomTree
    decreases path.len(),
{
    if path.len() <= 1 {
        children[path[0]]
    } else {
        node_at(children[path[0]].children(), path.drop_first())
    }
}

/// Whether `part` stands somewhere in `whole`, in one piece.
pub open spec fn occurs_in(part: Seq<char>, whole: Seq<char>) -> bool {
    exists|from: int|
        0 <= from && from + part.len() <= whole.len() && #[trigger] whole.subrange(
            from,
            from + part.len(),
        ) == part
}

/// What stands in a text stands in every text around it.
pub proof fn lemma_occurs_in_middle(
    part: Seq<char>,
    before: Seq<char>,
    middle: Seq<char>,
    after: Seq<char>,
)
    requires
        occurs_in(part, middle),
    ensures
        occurs_in(part, before + middle + after),
{
    let from = choose|from: int|
        0 <= from && from + part.len() <= middle.len() && #[trigger] middle.subrange(
            from,
            from + part.len(),
        ) == part;
    let whole = before + middle + after;
    let start = before.len() + from;
    assert(whole.subrange(start, start + part.len()) =~= part);
}

/// Every node that is reached while `children` are rendered is written as
/// `rendered_node` says for the list that `context_at` gives it, and what is
/// written for it stands in one piece in what is written for `children`.
pub proof fn lemma_rendered_at_path(children: Seq<DomTree>, ctx: ListContext, path: Seq<int>)
    requires
        reaches(children, path),
    ensures
        occurs_in(
            rendered_node(node_at(children, path), context_at(children, ctx, path)),
            rendered_children(children, ctx, children.len() as int),
        ),
    decreases path.len(),
{
    let k = path[0];
    let own = child_context(children, ctx, k);
    let whole = rendered_children(children, ctx, children.len() as int);
    let before = rendered_children(children, ctx, k);
    let middle = rendered_node(children[k], own);
    lemma_rendered_children_grow(children, ctx, k + 1, children.len() as int);
    let after = whole.subrange((before.len() + middle.len()) as int, whole.len() as int);
    assert(rendered_children(children, ctx, k + 1) == before + middle);
    assert(whole =~= before + middle + after);
    if path.len() == 1 {
        assert(middle.subrange(0, 0 + middle.len() as int) =~= middle);
        lemma_occurs_in_middle(middle, before, middle, after);
    } else {
        match children[k] {
            DomTree::Text(_) => {},
            DomTree::Element { name, children: below } => {
                let tag = tag_of(name);
                let inner = tag.inner_context(own);
                let part = rendered_node(node_at(children, path), context_at(children, ctx, path));
                lemma_rendered_at_path(below, inner, path.drop_first());
                lemma_occurs_in_middle(
                    part,
                    tag.opening(own),
                    rendered_children(below, inner, below.len() as int),
                    tag.closing(),
                );
                lemma_occurs_in_middle(part, before, middle, after);
            },
        }
    }
}

/// Among children that are all list items, the number of items before the
/// child at `k` is `k`.
pub proof fn lemma_items_before_items(children: Seq<DomTree>, k: int)
    requires
        0 <= k <= children.len(),
        forall|i: int| 0 <= i < k ==> (#[trigger] children[i]).has_tag(TagName::ListItem),
    ensures
        items_before(children, k) == k,
    decreases k,
{
    if k > 0 {
        lemma_items_before_items(children, k - 1);
    }
}

/// What is rendered for the first children of a node stays in front when
/// more of them are rendered.
pub proof fn lemma_rendered_children_grow(
    children: Seq<DomTree>,
    ctx: ListContext,
    shorter: int,
    longer: int,
)
    requires
        0 <= shorter <= longer <= children.len(),
    ensures
        rendered_children(children, ctx, shorter).is_prefix_of(
            rendered_children(children, ctx, longer),
        ),
    decreases longer - shorter,
{
    if shorter < longer {
        lemma_rendered_children_grow(children, ctx, shorter, longer - 1);
    }
}

/// The item at position `at` of a list that is rendered in `ctx` opens with
/// the prefix of a list of the same kind, one level deeper than `ctx`; in an
/// ordered list its number is one more than the number of items before it,
/// so that the first item has the number 1, the second the number 2, and so
/// on. This holds whatever the items hold, and whatever else stands between
/// them.
pub proof fn lemma_list_item(list: DomTree, ctx: ListContext, at: int)
    requires
        list.has_tag(TagName::OrderedList) || list.has_tag(TagName::UnorderedList),
        0 <= at < list.children().len(),
        list.children()[at].has_tag(TagName::ListItem),
    ensures
        ({
            let items = list.children();
            let kind = if list.has_tag(TagName::OrderedList) {
                ListKind::Ordered
            } else {
                ListKind::Unordered
            };
            let own = child_context(items, ctx.nested(kind), at);
            &&& own == if list.has_tag(TagName::OrderedList) {
                ListContext::Ordered {
                    indent: ctx.indent() + 1,
                    number: items_before(items, at) as int + 1,
                }
            } else {
                ListContext::Unordered { indent: ctx.indent() + 1 }
            }
            &&& rendered_children(items, ctx.nested(kind), at + 1) == rendered_children(
                items,
                ctx.nested(kind),
                at,
            ) + own.prefix() + rendered_children(
                items[at].children(),
                own,
                items[at].children().len() as int,
            )
            &&& rendered_children(items, ctx.nested(kind), at + 1).is_prefix_of(
                rendered_node(list, ctx),
            )
            &&& (forall|i: int| 0 <= i < at ==> (#[trigger] items[i]).has_tag(TagName::ListItem))
                ==> items_before(items, at) == at
        }),
{
    let items = list.children();
    if forall|i: int| 0 <= i < at ==> (#[trigger] items[i]).has_tag(TagName::ListItem) {
        lemma_items_before_items(items, at);
    }
    let kind = if list.has_tag(TagName::OrderedList) {
        ListKind::Ordered
    } else {
        ListKind::Unordered
    };
    let first = ctx.nested(kind);
    let own = child_context(items, first, at);
    lemma_rendered_children_grow(items, first, at + 1, items.len() as int);
    assert(rendered_node(list, ctx) =~= rendered_children(items, first, items.len() as int));
    assert(rendered_node(items[at], own) =~= own.prefix() + rendered_children(
        items[at].children(),
        own,
        items[at].children().len() as int,
    ));
    assert(rendered_children(items, first, at + 1) =~= rendered_children(items, first, at)
        + own.prefix() + rendered_children(
        items[at].children(),
        own,
        items[at].children().len() as int,
    ));
}

/// What is rendered for the first questions stays in front when more of them
/// are rendered.
pub proof fn lemma_question_items_grow(children: Seq<DomTree>, shorter: int, longer: int)
    requires
        0 <= shorter <= longer <= children.len(),
    ensures
        question_items(children, shorter).is_prefix_of(question_items(children, longer)),
    decreases longer - shorter,
{
    if shorter < longer {
        lemma_question_items_grow(children, shorter, longer - 1);
    }
}

/// The question at position `at` of the list of questions opens with the
/// prefix of the outermost ordered list, and its number is one more than the
/// number of questions before it.
pub proof fn lemma_question_number(list: DomTree, at: int)
    requires
        0 <= at < list.children().len(),
        list.children()[at].has_tag(TagName::ListItem),
    ensures
        ({
            let items = list.children();
            let number = items_before(items, at) as int + 1;
            let own = ListContext::Ordered { indent: 0, number };
            &&& child_context(items, first_question(), at) == own
            &&& question_items(items, at + 1) == question_items(items, at) + own.prefix()
                + rendered_children(items[at].children(), own, items[at].children().len() as int)
                + "\n\n"@
            &&& ("## Questions"@ + question_items(items, at + 1)).is_prefix_of(
                questions_section(list),
            )
        }),
{
    let items = list.children();
    let own = child_context(items, first_question(), at);
    lemma_question_items_grow(items, at + 1, items.len() as int);
    assert(rendered_node(items[at], own) =~= own.prefix() + rendered_children(
        items[at].children(),
        own,
        items[at].children().len() as int,
    ));
    assert(question_items(items, at + 1) =~= question_items(items, at) + own.prefix()
        + rendered_children(items[at].children(), own, items[at].children().len() as int)
        + "\n\n"@);
}

/// A list element opens a list one level deeper than the one it stands in;
/// every other element leaves the depth as it is, and so does every item
/// that has gone before.
pub proof fn lemma_indent_steps(tag: TagName, ctx: ListContext, children: Seq<DomTree>, k: int)
    ensures
        tag == TagName::OrderedList || tag == TagName::UnorderedList ==> tag.inner_context(
            ctx,
        ).indent() == ctx.indent() + 1,
        tag != TagName::OrderedList && tag != TagName::UnorderedList ==> tag.inner_context(ctx)
            == ctx,
        child_context(children, ctx, k).indent() == ctx.indent(),
{
}

/// A list that stands in an item of another list is one level deeper than
/// that list: each of its items is rendered one level deeper than the item
/// that holds it.
pub proof fn lemma_nested_list_indent(
    items: Seq<DomTree>,
    ctx: ListContext,
    item: int,
    list: int,
    inner: int,
)
    requires
        0 <= item < items.len(),
        items[item].has_tag(TagName::ListItem),
        0 <= list < items[item].children().len(),
        ({
            let nested = items[item].children()[list];
            nested.has_tag(TagName::OrderedList) || nested.has_tag(TagName::UnorderedList)
        }),
    ensures
        context_at(items, ctx, seq![item, list, inner]).indent() == context_at(
            items,
            ctx,
            seq![item],
        ).indent() + 1,
{
    let path = seq![item, list, inner];
    assert(path.drop_first() =~= seq![list, inner]);
    assert(path.drop_first().drop_first() =~= seq![inner]);
    reveal_with_fuel(context_at, 3);
}

/// While a subtree is rendered, no node of it is rendered in a list that is
/// less deep than the one in which the rendering started, nor less deep than
/// the list of any of its ancestors.
pub proof fn lemma_indent_never_decreases(
    children: Seq<DomTree>,
    ctx: ListContext,
    path: Seq<int>,
    upto: int,
)
    requires
        0 <= upto <= path.len(),
    ensures
        ctx.indent() <= context_at(children, ctx, path.take(upto)).indent() <= context_at(
            children,
            ctx,
            path,
        ).indent(),
    decreases path.len(),
{
    if upto == 0 {
        assert(path.take(0).len() == 0);
        lemma_indent_from_start(children, ctx, path);
    } else if upto == path.len() {
        assert(path.take(upto) =~= path);
        lemma_indent_from_start(children, ctx, path);
    } else {
        let own = child_context(children, ctx, path[0]);
        let shorter = path.take(upto);
        assert(shorter[0] == path[0]);
        lemma_indent_from_start(children, ctx, shorter);
        match children[path[0]] {
            DomTree::Text(_) => {},
            DomTree::Element { name, children: below } => {
                let inner = tag_of(name).inner_context(own);
                if upto == 1 {
                    lemma_indent_from_start(below, inner, path.drop_first());
                } else {
                    assert(shorter.drop_first() =~= path.drop_first().take(upto - 1));
                    lemma_indent_never_decreases(below, inner, path.drop_first(), upto - 1);
                }
            },
        }
    }
}

/// No node is rendered in a list that is less deep than the one in which the
/// rendering started.
pub proof fn lemma_indent_from_start(children: Seq<DomTree>, ctx: ListContext, path: Seq<int>)
    ensures
        ctx.indent() <= context_at(children, ctx, path).indent(),
    decreases path.len(),
{
    if path.len() > 1 {
        let own = child_context(children, ctx, path[0]);
        match children[path[0]] {
            DomTree::Text(_) => {},
            DomTree::Element { name, children: below } => {
                lemma_indent_from_start(below, tag_of(name).inner_context(own), path.drop_first());
            },
        }
    }
}

/// The prefix of an item of an unordered list holds no digit, and a list
/// that is opened as an unordered one is unordered whatever list it stands
/// in; no item moves it on.
pub proof fn lemma_unordered_has_no_number(ctx: ListContext, items: nat)
    ensures
        ctx.nested(ListKind::Unordered) == (ListContext::Unordered { indent: ctx.indent() + 1 }),
        ctx.nested(ListKind::Unordered).advanced(items) == ctx.nested(ListKind::Unordered),
        forall|i: int|
            0 <= i < ctx.nested(ListKind::Unordered).prefix().len() ==> !is_digit(
                #[trigger] ctx.nested(ListKind::Unordered).prefix()[i],
            ),
{
}

/// The prefix of an item of any unordered list holds no digit.
pub proof fn lemma_unordered_prefix(indent: nat)
    ensures
        forall|i: int|
            0 <= i < (ListContext::Unordered { indent }).prefix().len() ==> !is_digit(
                #[trigger] (ListContext::Unordered { indent }).prefix()[i],
            ),
{
}

/// Two lab notes for the same document, author and assignment are the same
/// text: nothing but these three decides what is written.
pub proof fn lemma_same_input_same_markdown(
    document: Seq<DomTree>,
    user_name: Seq<char>,
    assignment_name: Seq<char>,
    first: Seq<char>,
    second: Seq<char>,
)
    requires
        first == document_markdown(document, user_name, assignment_name),
        second == document_markdown(document, user_name, assignment_name),
    ensures
        first == second,
{
}

} // verus!

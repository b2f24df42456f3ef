//! The state that a list carries while it is rendered: whether it is
//! numbered, how deeply it is nested, and the number of its next item.

use vstd::prelude::*;
use vstd::string::StringExecFns;
use crate::text::{decimal, indentation, push_decimal, push_indentation};

verus! {

/// The two kinds of list.
#[derive(Clone, Copy, Debug, PartialEq, Eq, Structural)]
pub enum ListKind {
    Ordered,
    Unordered,
}

/// The list that is being rendered. `indent` is its nesting depth, 0 for the
/// outermost list; `num` is the number of the next item of an ordered list.
#[derive(Clone, Copy, Debug, PartialEq, Eq, Structural)]
pub enum ListType {
    Ordered { indent: usize, num: i32 },
    Unordered { indent: usize },
}

/// What a `ListType` stands for, over unbounded integers.
pub enum ListContext {
    Ordered { indent: nat, number: int },
    Unordered { indent: nat },
}

impl ListContext {
    /// The nesting depth of the list.
    pub open spec fn indent(self) -> nat {
        match self {
            ListContext::Ordered { indent, .. } => indent,
            ListContext::Unordered { indent } => indent,
        }
    }

    /// The kind of the list.
    pub open spec fn kind(self) -> ListKind {
        match self {
            ListContext::Ordered { .. } => ListKind::Ordered,
            ListContext::Unordered { .. } => ListKind::Unordered,
        }
    }

    /// The text that opens an item of the list. An item of an ordered list
    /// starts with the indentation, the item's number, a full stop and a
    /// space, after a line break where the list is the outermost one. An item
    /// of an unordered list starts on a new line, with the indentation, a
    /// hyphen and a space.
    pub open spec fn prefix(self) -> Seq<char> {
        match self {
            ListContext::Ordered { indent, number } => {
                let lead = if indent == 0 {
                    seq!['\n']
                } else {
                    Seq::<char>::empty()
                };
                lead + indentation(indent) + decimal(number) + seq!['.', ' ']
            },
            ListContext::Unordered { indent } => seq!['\n'] + indentation(indent) + seq!['-', ' '],
        }
    }

    /// The list after `items` more of its items: an ordered list counts them,
    /// an unordered list stays as it is.
    pub open spec fn advanced(self, items: nat) -> ListContext {
        match self {
            ListContext::Ordered { indent, number } => ListContext::Ordered {
                indent,
                number: number + items,
            },
            ListContext::Unordered { indent } => self,
        }
    }

    /// The list after one more item.
    pub open spec fn next(self) -> ListContext {
        self.advanced(1)
    }

    /// A new list of the given kind, one level deeper than this one. An
    /// ordered list starts to count at 1.
    pub open spec fn nested(self, kind: ListKind) -> ListContext {
        match kind {
            ListKind::Ordered => ListContext::Ordered { indent: self.indent() + 1, number: 1 },
            ListKind::Unordered => ListContext::Unordered { indent: self.indent() + 1 },
        }
    }

    /// Whether a `ListType` can hold this context.
    pub open spec fn in_range(self) -> bool {
        match self {
            ListContext::Ordered { indent, number } => indent <= usize::MAX && i32::MIN <= number
                <= i32::MAX,
            ListContext::Unordered { indent } => indent <= usize::MAX,
        }
    }
}

impl View for ListType {
    type V = ListContext;

    open spec fn view(&self) -> ListContext {
        match *self {
            ListType::Ordered { indent, num } => ListContext::Ordered {
                indent: indent as nat,
                number: num as int,
            },
            ListType::Unordered { indent } => ListContext::Unordered { indent: indent as nat },
        }
    }
}

impl ListType {
    /// The outermost ordered list, before its first item.
    pub fn outermost() -> (list: ListType)
        ensures
            list@ == (ListContext::Ordered { indent: 0, number: 1 }),
    {
        ListType::Ordered { indent: 0, num: 1 }
    }

    /// Appends to `markdown_str` the text that opens an item of `list_type`.
    pub fn append_list_string(markdown_str: &mut String, list_type: ListType)
        ensures
            final(markdown_str)@ == old(markdown_str)@ + list_type@.prefix(),
    {
        match list_type {
            ListType::Ordered { indent, num } => {
                if indent == 0 {
                    proof {
                        reveal_strlit("\n");
                    }
                    markdown_str.append("\n");
                }
                push_indentation(markdown_str, indent);
                push_decimal(markdown_str, num);
                proof {
                    reveal_strlit(". ");
                }
                markdown_str.append(". ");
                assert(markdown_str@ =~= old(markdown_str)@ + list_type@.prefix());
            },
            ListType::Unordered { indent } => {
                proof {
                    reveal_strlit("\n");
                    reveal_strlit("- ");
                }
                markdown_str.append("\n");
                push_indentation(markdown_str, indent);
                markdown_str.append("- ");
                assert(markdown_str@ =~= old(markdown_str)@ + list_type@.prefix());
            },
        }
    }

    /// The text that opens an item of the list.
    pub fn render_prefix(&self) -> (prefix: String)
        ensures
            prefix@ == self@.prefix(),
    {
        let mut prefix = String::new();
        ListType::append_list_string(&mut prefix, *self);
        assert(prefix@ =~= self@.prefix());
        prefix
    }

    /// The nesting depth of the list.
    pub fn get_indent(&self) -> (indent: usize)
        ensures
            indent == self@.indent(),
    {
        match *self {
            ListType::Ordered { indent, num: _ } => indent,
            ListType::Unordered { indent } => indent,
        }
    }

    /// The kind of the list.
    pub fn kind(&self) -> (kind: ListKind)
        ensures
            kind == self@.kind(),
    {
        match *self {
            ListType::Ordered { .. } => ListKind::Ordered,
            ListType::Unordered { .. } => ListKind::Unordered,
        }
    }

    /// The list after one more item.
    pub fn next(self) -> (list: ListType)
        requires
            self@.next().in_range(),
        ensures
            list@ == self@.next(),
    {
        match self {
            ListType::Ordered { indent, num } => ListType::Ordered { indent, num: num + 1 },
            ListType::Unordered { indent: _ } => self,
        }
    }

    /// Moves the list on by one item.
    pub fn increment_list_num(&mut self)
        requires
            old(self)@.next().in_range(),
        ensures
            final(self)@ == old(self)@.next(),
    {
        *self = self.next();
    }

    /// A new list of the given kind, one level deeper than this one.
    pub fn nested(self, kind: ListKind) -> (list: ListType)
        requires
            self@.nested(kind).in_range(),
        ensures
            list@ == self@.nested(kind),
    {
        let indent = self.get_indent();
        match kind {
            ListKind::Ordered => ListType::Ordered { indent: indent + 1, num: 1 },
            ListKind::Unordered => ListType::Unordered { indent: indent + 1 },
        }
    }
}

} // verus!

//! A parsed document: a tree of text leaves and named elements.

use vstd::prelude::*;
use crate::text::same_text;

verus! {

/// The tags that rendering tells apart. Every other tag is `Other`.
#[derive(Clone, Copy, Debug, PartialEq, Eq, Structural)]
pub enum TagName {
    Heading1,
    OrderedList,
    UnorderedList,
    ListItem,
    Paragraph,
    Emphasis,
    Code,
    Other,
}

/// The tag that an element's name stands for. Names are compared as they are
/// written: `LI` is not a list item.
pub open spec fn tag_of(name: Seq<char>) -> TagName {
    if name == "h1"@ {
        TagName::Heading1
    } else if name == "ol"@ {
        TagName::OrderedList
    } else if name == "ul"@ {
        TagName::UnorderedList
    } else if name == "li"@ {
        TagName::ListItem
    } else if name == "p"@ {
        TagName::Paragraph
    } else if name == "em"@ {
        TagName::Emphasis
    } else if name == "code"@ {
        TagName::Code
    } else {
        TagName::Other
    }
}

impl TagName {
    /// The tag that `name` stands for.
    pub fn from_name(name: &str) -> (tag: TagName)
        ensures
            tag == tag_of(name@),
    {
        if same_text(name, "h1") {
            TagName::Heading1
        } else if same_text(name, "ol") {
            TagName::OrderedList
        } else if same_text(name, "ul") {
            TagName::UnorderedList
        } else if same_text(name, "li") {
            TagName::ListItem
        } else if same_text(name, "p") {
            TagName::Paragraph
        } else if same_text(name, "em") {
            TagName::Emphasis
        } else if same_text(name, "code") {
            TagName::Code
        } else {
            TagName::Other
        }
    }
}

/// A node of a parsed document. The children of an element are in document
/// order.
#[derive(Debug, PartialEq, Eq)]
pub enum DomNode {
    Text(String),
    Element { name: String, children: Vec<DomNode> },
}

/// What a `DomNode` stands for: the same tree over sequences.
pub enum DomTree {
    Text(Seq<char>),
    Element { name: Seq<char>, children: Seq<DomTree> },
}

/// The tree that a node stands for.
pub open spec fn tree_of(node: DomNode) -> DomTree
    decreases node,
{
    match node {
        DomNode::Text(text) => DomTree::Text(text@),
        DomNode::Element { name, children } => DomTree::Element {
            name: name@,
            children: Seq::new(
                children@.len(),
                |i: int|
                    if 0 <= i < children@.len() {
                        tree_of(children@[i])
                    } else {
                        arbitrary()
                    },
            ),
        },
    }
}

impl DeepView for DomNode {
    type V = DomTree;

    open spec fn deep_view(&self) -> DomTree {
        tree_of(*self)
    }
}

impl DomTree {
    /// The tag of an element; a text leaf has none.
    pub open spec fn tag(self) -> Option<TagName> {
        match self {
            DomTree::Text(_) => None,
            DomTree::Element { name, .. } => Some(tag_of(name)),
        }
    }

    /// Whether the node is an element with the given tag.
    pub open spec fn has_tag(self, tag: TagName) -> bool {
        self.tag() == Some(tag)
    }

    /// The children of an element; a text leaf has none.
    pub open spec fn children(self) -> Seq<DomTree> {
        match self {
            DomTree::Text(_) => Seq::empty(),
            DomTree::Element { children, .. } => children,
        }
    }

    /// The content of a text leaf; an element has none.
    pub open spec fn text(self) -> Option<Seq<char>> {
        match self {
            DomTree::Text(text) => Some(text),
            DomTree::Element { .. } => None,
        }
    }

    /// Whether the node is a text leaf that reads exactly `Turn In` or
    /// `Questions`.
    pub open spec fn is_marker_text(self) -> bool {
        self matches DomTree::Text(text) && (text == "Turn In"@ || text == "Questions"@)
    }

    /// Whether one of the node's own children is such a text leaf.
    pub open spec fn is_question_header(self) -> bool {
        exists|k: int|
            0 <= k < self.children().len() && #[trigger] self.children()[k].is_marker_text()
    }

    /// Whether the node is a first-level heading that opens the questions.
    pub open spec fn is_marker_heading(self) -> bool {
        self.has_tag(TagName::Heading1) && self.is_question_header()
    }
}

impl DomNode {
    /// The tag of an element; a text leaf has none.
    pub fn tag(&self) -> (tag: Option<TagName>)
        ensures
            tag == self.deep_view().tag(),
    {
        match self {
            DomNode::Text(_) => None,
            DomNode::Element { name, .. } => Some(TagName::from_name(name.as_str())),
        }
    }

    /// The content of a text leaf; an element has none.
    pub fn text(&self) -> (text: Option<&str>)
        ensures
            match text {
                Some(content) => self.deep_view().text() == Some(content@),
                None => self.deep_view().text() is None,
            },
    {
        match self {
            DomNode::Text(text) => Some(text.as_str()),
            DomNode::Element { .. } => None,
        }
    }

    /// The children of an element, in document order; a text leaf has none.
    pub fn children(&self) -> (children: &[DomNode])
        ensures
            children@.len() == self.deep_view().children().len(),
            forall|k: int|
                0 <= k < children@.len() ==> (#[trigger] children@[k]).deep_view()
                    == self.deep_view().children()[k],
    {
        match self {
            DomNode::Text(_) => {
                let none: &[DomNode] = &[];
                none
            },
            DomNode::Element { name: _, children } => {
                proof {
                    lemma_children_view(*self);
                }
                children.as_slice()
            },
        }
    }

    /// Whether the node is an element with the given tag.
    pub fn has_tag(&self, tag: TagName) -> (has: bool)
        ensures
            has == self.deep_view().has_tag(tag),
    {
        match self.tag() {
            Some(own) => own == tag,
            None => false,
        }
    }

    /// Whether one of the node's own children is a text leaf that reads
    /// exactly `Turn In` or `Questions`.
    pub fn is_question_header(&self) -> (marker: bool)
        ensures
            marker == self.deep_view().is_question_header(),
    {
        match self {
            DomNode::Text(_) => false,
            DomNode::Element { name: _, children } => {
                proof {
                    lemma_children_view(*self);
                }
                let ghost views = children.deep_view();
                let mut at: usize = 0;
                while at < children.len()
                    invariant
                        at <= children.len(),
                        views == children.deep_view(),
                        views == self.deep_view().children(),
                        forall|k: int| 0 <= k < at ==> !(#[trigger] views[k]).is_marker_text(),
                    decreases children.len() - at,
                {
                    assert(views[at as int] == children[at as int].deep_view());
                    match &children[at] {
                        DomNode::Text(text) => {
                            if same_text(text.as_str(), "Turn In") || same_text(
                                text.as_str(),
                                "Questions",
                            ) {
                                assert(views[at as int].is_marker_text());
                                return true;
                            }
                        },
                        DomNode::Element { .. } => {},
                    }
                    at += 1;
                }
                false
            },
        }
    }
}

/// The view of an element's children is the sequence of their views.
pub proof fn lemma_children_view(node: DomNode)
    requires
        node is Element,
    ensures
        node.deep_view() is Element,
        node.deep_view()->name == node->name@,
        node.deep_view()->children == node->children.deep_view(),
{
    assert(node.deep_view()->children =~= node->children.deep_view());
}

} // verus!

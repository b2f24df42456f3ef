use lab_notes::dom::{DomNode, TagName};

fn text(content: &str) -> DomNode {
    DomNode::Text(content.to_string())
}

fn element(name: &str, children: Vec<DomNode>) -> DomNode {
    DomNode::Element { name: name.to_string(), children }
}

#[test]
fn names_of_the_known_tags() {
    assert_eq!(TagName::from_name("h1"), TagName::Heading1);
    assert_eq!(TagName::from_name("ol"), TagName::OrderedList);
    assert_eq!(TagName::from_name("ul"), TagName::UnorderedList);
    assert_eq!(TagName::from_name("li"), TagName::ListItem);
    assert_eq!(TagName::from_name("p"), TagName::Paragraph);
    assert_eq!(TagName::from_name("em"), TagName::Emphasis);
    assert_eq!(TagName::from_name("code"), TagName::Code);
}

#[test]
fn every_other_name_is_other() {
    assert_eq!(TagName::from_name("div"), TagName::Other);
    assert_eq!(TagName::from_name("h2"), TagName::Other);
    assert_eq!(TagName::from_name(""), TagName::Other);
    assert_eq!(TagName::from_name("LI"), TagName::Other);
    assert_eq!(TagName::from_name("li "), TagName::Other);
    assert_eq!(TagName::from_name("strong"), TagName::Other);
}

#[test]
fn an_element_exposes_its_tag_and_children() {
    let node = element("ol", vec![text("a"), element("li", vec![])]);
    assert_eq!(node.tag(), Some(TagName::OrderedList));
    assert!(node.has_tag(TagName::OrderedList));
    assert!(!node.has_tag(TagName::UnorderedList));
    assert_eq!(node.text(), None);
    assert_eq!(node.children().len(), 2);
    assert_eq!(node.children()[0], text("a"));
    assert_eq!(node.children()[1], element("li", vec![]));
}

#[test]
fn a_text_leaf_exposes_its_content() {
    let node = text("What is 2+2?");
    assert_eq!(node.text(), Some("What is 2+2?"));
    assert_eq!(node.tag(), None);
    assert!(!node.has_tag(TagName::Other));
    assert!(node.children().is_empty());
}

#[test]
fn question_header_needs_the_exact_text() {
    assert!(element("h1", vec![text("Questions")]).is_question_header());
    assert!(element("h1", vec![text("Turn In")]).is_question_header());
    assert!(element("h1", vec![element("em", vec![]), text("intro"), text("Turn In")])
        .is_question_header());
    assert!(!element("h1", vec![text("questions")]).is_question_header());
    assert!(!element("h1", vec![text(" Questions")]).is_question_header());
    assert!(!element("h1", vec![text("Questions ")]).is_question_header());
    assert!(!element("h1", vec![text("Turn in")]).is_question_header());
    assert!(!element("h1", vec![]).is_question_header());
    assert!(!text("Questions").is_question_header());
}

#[test]
fn question_header_looks_at_direct_children_only() {
    let nested = element("h1", vec![element("em", vec![text("Questions")])]);
    assert!(!nested.is_question_header());
}

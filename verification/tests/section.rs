use lab_notes::dom::DomNode;
use lab_notes::section::locate_questions_list;

fn text(content: &str) -> DomNode {
    DomNode::Text(content.to_string())
}

fn element(name: &str, children: Vec<DomNode>) -> DomNode {
    DomNode::Element { name: name.to_string(), children }
}

fn marker(title: &str) -> DomNode {
    element("h1", vec![text(title)])
}

fn list(label: &str) -> DomNode {
    element("ol", vec![element("li", vec![text(label)])])
}

#[test]
fn list_right_after_the_marker() {
    let document = vec![marker("Questions"), list("q")];
    assert_eq!(locate_questions_list(&document), Some(&document[1]));
}

#[test]
fn siblings_between_marker_and_list_are_skipped() {
    let document = vec![
        list("before"),
        marker("Turn In"),
        element("p", vec![text("Answer these.")]),
        text("loose text"),
        element("ul", vec![]),
        list("q"),
        list("later"),
    ];
    assert_eq!(locate_questions_list(&document), Some(&document[5]));
}

#[test]
fn a_list_before_the_marker_does_not_count() {
    let document = vec![list("before"), marker("Questions")];
    assert_eq!(locate_questions_list(&document), None);
}

#[test]
fn no_marker_no_list() {
    let document = vec![marker("Overview"), list("a"), element("h2", vec![text("Questions")])];
    assert_eq!(locate_questions_list(&document), None);
    assert_eq!(locate_questions_list(&Vec::new()), None);
}

#[test]
fn first_list_after_the_first_marker_wins() {
    let document = vec![
        marker("Questions"),
        marker("Turn In"),
        list("first"),
        marker("Questions"),
        list("second"),
    ];
    assert_eq!(locate_questions_list(&document), Some(&document[2]));
}

#[test]
fn marker_without_a_list_does_not_end_the_search() {
    let document = vec![marker("Questions"), element("p", vec![]), marker("Turn In")];
    assert_eq!(locate_questions_list(&document), None);
}

#[test]
fn only_top_level_nodes_are_looked_at() {
    let document = vec![
        element("div", vec![marker("Questions"), list("inside")]),
        element("div", vec![list("inside")]),
    ];
    assert_eq!(locate_questions_list(&document), None);
}

#[test]
fn an_unordered_list_is_not_the_list_of_questions() {
    let document = vec![marker("Questions"), element("ul", vec![])];
    assert_eq!(locate_questions_list(&document), None);
}

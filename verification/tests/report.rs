use lab_notes::dom::DomNode;
use lab_notes::report::{collect_unhandled, collect_unhandled_children, unhandled_elements};

fn text(content: &str) -> DomNode {
    DomNode::Text(content.to_string())
}

fn element(name: &str, children: Vec<DomNode>) -> DomNode {
    DomNode::Element { name: name.to_string(), children }
}

#[test]
fn rendered_elements_are_not_reported() {
    let line = element(
        "li",
        vec![text("a"), element("p", vec![element("em", vec![element("code", vec![text("b")])])])],
    );
    let mut found = Vec::new();
    collect_unhandled(&mut found, &line);
    assert!(found.is_empty());
}

#[test]
fn elements_that_are_passed_over_are_reported_in_order() {
    let table = element("table", vec![element("span", vec![])]);
    let heading = element("h1", vec![text("Questions")]);
    let span = element("span", vec![text("s")]);
    let line = element(
        "li",
        vec![
            table,
            text("a"),
            element("ul", vec![element("li", vec![heading])]),
            span,
        ],
    );
    let mut found = Vec::new();
    collect_unhandled(&mut found, &line);
    assert_eq!(
        found,
        vec![
            &element("table", vec![element("span", vec![])]),
            &element("h1", vec![text("Questions")]),
            &element("span", vec![text("s")]),
        ]
    );
}

#[test]
fn children_are_reported_after_what_was_found() {
    let div = element("div", vec![]);
    let children = vec![text("t"), element("p", vec![element("b", vec![])])];
    let mut found = vec![&div];
    collect_unhandled_children(&mut found, &children);
    assert_eq!(found, vec![&element("div", vec![]), &element("b", vec![])]);
}

#[test]
fn only_the_questions_are_reported_on() {
    let document = vec![
        element("div", vec![]),
        element("h1", vec![text("Questions")]),
        element("span", vec![]),
        element(
            "ol",
            vec![
                element("li", vec![element("strong", vec![text("x")])]),
                element("div", vec![element("li", vec![])]),
                element("li", vec![element("p", vec![element("a", vec![])])]),
            ],
        ),
        element("ol", vec![element("li", vec![element("i", vec![])])]),
    ];
    assert_eq!(
        unhandled_elements(&document),
        vec![&element("strong", vec![text("x")]), &element("a", vec![])]
    );
}

#[test]
fn nothing_is_reported_without_questions() {
    let document = vec![element("ol", vec![element("li", vec![element("div", vec![])])])];
    assert!(unhandled_elements(&document).is_empty());
}

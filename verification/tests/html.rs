use lab_notes::dom::DomNode;
use lab_notes::error::MarkdownError;
use lab_notes::html::{assemble, parse_document, OutlineEntry};

fn text(content: &str) -> DomNode {
    DomNode::Text(content.to_string())
}

fn element(name: &str, children: Vec<DomNode>) -> DomNode {
    DomNode::Element { name: name.to_string(), children }
}

fn leaf(content: &str) -> OutlineEntry {
    OutlineEntry::Text(content.to_string())
}

fn entry(name: &str, descendants: usize) -> OutlineEntry {
    OutlineEntry::Element { name: name.to_string(), descendants }
}

#[test]
fn empty_outline_is_an_empty_document() {
    assert_eq!(assemble(&Vec::new()), Vec::<DomNode>::new());
}

#[test]
fn flat_outline_is_a_row_of_nodes() {
    let outline = vec![leaf("a"), entry("br", 0), leaf("b")];
    assert_eq!(assemble(&outline), vec![text("a"), element("br", vec![]), text("b")]);
}

#[test]
fn descendants_become_children() {
    let outline = vec![
        entry("ol", 5),
        entry("li", 1),
        leaf("one"),
        entry("li", 2),
        entry("em", 1),
        leaf("two"),
        entry("p", 0),
        leaf("tail"),
    ];
    assert_eq!(
        assemble(&outline),
        vec![
            element(
                "ol",
                vec![
                    element("li", vec![text("one")]),
                    element("li", vec![element("em", vec![text("two")])]),
                ],
            ),
            element("p", vec![]),
            text("tail"),
        ]
    );
}

#[test]
fn a_count_past_the_end_stops_at_the_end() {
    let outline = vec![entry("div", 9), entry("p", usize::MAX), leaf("x")];
    assert_eq!(
        assemble(&outline),
        vec![element("div", vec![element("p", vec![text("x")])])]
    );
}

#[test]
fn html_becomes_a_tree() {
    let html = "<h1>Questions</h1><ol><li>a <em>b</em></li><li><code>c</code></li></ol>tail";
    assert_eq!(
        parse_document(html),
        Ok(vec![
            element("h1", vec![text("Questions")]),
            element(
                "ol",
                vec![
                    element("li", vec![text("a "), element("em", vec![text("b")])]),
                    element("li", vec![element("code", vec![text("c")])]),
                ],
            ),
            text("tail"),
        ])
    );
}

#[test]
fn names_are_kept_as_written() {
    assert_eq!(
        parse_document("<OL><Li>x</Li></OL><br>"),
        Ok(vec![
            element("OL", vec![element("Li", vec![text("x")])]),
            element("br", vec![]),
        ])
    );
}

#[test]
fn a_comment_is_read_as_text() {
    assert_eq!(
        parse_document("<p>a<!-- note -->b</p>"),
        Ok(vec![element("p", vec![text("a"), text("note"), text("b")])])
    );
}

#[test]
fn empty_html_is_an_empty_document() {
    assert_eq!(parse_document(""), Ok(Vec::new()));
}

#[test]
fn refused_html_is_an_error_with_a_message() {
    match parse_document("<div></div><head></head>") {
        Err(MarkdownError::InvalidHtml(message)) => assert!(!message.is_empty()),
        other => panic!("unexpected outcome: {:?}", other),
    }
}

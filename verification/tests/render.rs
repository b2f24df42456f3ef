use lab_notes::dom::DomNode;
use lab_notes::list::ListType;
use lab_notes::render::{children_fit, has_next, is_list_item, node_fits, parse_children};
use lab_notes::render::parse_list_line as render_line;

fn text(content: &str) -> DomNode {
    DomNode::Text(content.to_string())
}

fn element(name: &str, children: Vec<DomNode>) -> DomNode {
    DomNode::Element { name: name.to_string(), children }
}

fn item(content: &str) -> DomNode {
    element("li", vec![text(content)])
}

fn rendered(node: &DomNode, list: ListType) -> String {
    let mut out = String::new();
    render_line(&mut out, node, list);
    out
}

const TOP: ListType = ListType::Ordered { indent: 0, num: 1 };

#[test]
fn text_is_written_as_it_is() {
    assert_eq!(rendered(&text("a  b\n c_`"), TOP), "a  b\n c_`");
    assert_eq!(rendered(&text(""), ListType::Unordered { indent: 3 }), "");
}

#[test]
fn item_gets_the_prefix_of_its_list() {
    assert_eq!(rendered(&item("A"), TOP), "\n1. A");
    assert_eq!(rendered(&item("A"), ListType::Ordered { indent: 2, num: 4 }), "        4. A");
    assert_eq!(rendered(&item("A"), ListType::Unordered { indent: 1 }), "\n    - A");
    assert_eq!(rendered(&element("li", vec![]), TOP), "\n1. ");
}

#[test]
fn paragraph_is_inlined() {
    let line = element("li", vec![element("p", vec![text("one")]), element("p", vec![text("two")])]);
    assert_eq!(rendered(&line, TOP), "\n1. onetwo");
}

#[test]
fn emphasis_is_wrapped_in_underscores() {
    let line = element("li", vec![text("very"), element("em", vec![text("important")]), text("!")]);
    assert_eq!(rendered(&line, TOP), "\n1. very _important_ !");
    assert_eq!(rendered(&element("em", vec![]), TOP), " __ ");
}

#[test]
fn code_is_wrapped_in_backticks() {
    assert_eq!(rendered(&element("code", vec![text("x=1")]), TOP), " `x=1` ");
    assert_eq!(rendered(&element("code", vec![]), TOP), " `` ");
}

#[test]
fn counter_is_not_touched_by_inline_wrappers() {
    let wrapped = |content: &str| {
        element(
            "li",
            vec![element(
                "p",
                vec![element("em", vec![element("code", vec![element("p", vec![text(content)])])])],
            )],
        )
    };
    let list = vec![wrapped("a"), item("b"), wrapped("c"), wrapped("d")];
    let mut out = String::new();
    parse_children(&mut out, &list, TOP);
    assert_eq!(out, "\n1.  _ `a` _ \n2. b\n3.  _ `c` _ \n4.  _ `d` _ ");
}

#[test]
fn nested_ordered_list_starts_again_at_one() {
    let inner = element("ol", vec![item("x"), item("y")]);
    let list = vec![item("a"), element("li", vec![text("b"), inner]), item("c")];
    let mut out = String::new();
    parse_children(&mut out, &list, ListType::Ordered { indent: 0, num: 5 });
    assert_eq!(out, "\n5. a\n6. b    1. x    2. y\n7. c");
}

#[test]
fn each_nested_list_is_one_level_deeper() {
    let third = element("ul", vec![item("deep")]);
    let second = element("ol", vec![element("li", vec![text("mid"), third])]);
    let first = element("ul", vec![element("li", vec![text("top"), second])]);
    assert_eq!(
        rendered(&first, TOP),
        "\n    - top        1. mid\n            - deep"
    );
}

#[test]
fn unordered_items_carry_no_number() {
    let bullets = element("ul", vec![item("a"), item("b"), item("c")]);
    let out = rendered(&bullets, ListType::Ordered { indent: 0, num: 8 });
    assert_eq!(out, "\n    - a\n    - b\n    - c");
    assert!(!out.chars().any(|c| c.is_ascii_digit()));
}

#[test]
fn list_after_a_nested_list_goes_on_counting() {
    let list = vec![
        item("a"),
        element("ul", vec![item("x")]),
        item("b"),
        text(" between "),
        item("c"),
    ];
    let mut out = String::new();
    parse_children(&mut out, &list, TOP);
    assert_eq!(out, "\n1. a\n    - x\n2. b between \n3. c");
}

#[test]
fn unknown_elements_are_left_out() {
    let line = element(
        "li",
        vec![
            text("a"),
            element("div", vec![text("hidden"), item("hidden too")]),
            element("h1", vec![text("Questions")]),
            element("strong", vec![]),
            text("b"),
        ],
    );
    assert_eq!(rendered(&line, TOP), "\n1. ab");
    assert_eq!(rendered(&element("table", vec![item("x")]), TOP), "");
}

#[test]
fn items_in_a_wrapper_count_from_the_wrapper_on() {
    let list = vec![
        item("a"),
        element("p", vec![item("x"), item("y")]),
        item("b"),
    ];
    let mut out = String::new();
    parse_children(&mut out, &list, TOP);
    assert_eq!(out, "\n1. a\n2. x\n3. y\n2. b");
}

#[test]
fn rendering_appends_to_the_buffer() {
    let mut out = String::from("kept ");
    render_line(&mut out, &item("A"), ListType::Ordered { indent: 1, num: 1 });
    assert_eq!(out, "kept     1. A");
}

#[test]
fn is_list_item_tells_items_apart() {
    assert!(is_list_item(&item("a")));
    assert!(!is_list_item(&element("ol", vec![])));
    assert!(!is_list_item(&text("li")));
}

#[test]
fn has_next_stops_at_the_largest_number() {
    assert!(has_next(ListType::Ordered { indent: 0, num: i32::MAX - 1 }));
    assert!(!has_next(ListType::Ordered { indent: 0, num: i32::MAX }));
    assert!(has_next(ListType::Unordered { indent: usize::MAX }));
}

#[test]
fn a_list_at_the_deepest_level_does_not_fit() {
    let list = element("ul", vec![]);
    assert!(node_fits(&list, ListType::Ordered { indent: usize::MAX - 1, num: 1 }));
    assert!(!node_fits(&list, ListType::Ordered { indent: usize::MAX, num: 1 }));
    assert!(!node_fits(&element("ol", vec![]), ListType::Unordered { indent: usize::MAX }));
    let wrapped = element("li", vec![element("p", vec![element("ol", vec![])])]);
    assert!(!node_fits(&wrapped, ListType::Unordered { indent: usize::MAX }));
    let passed_over = element("div", vec![element("ol", vec![])]);
    assert!(node_fits(&passed_over, ListType::Unordered { indent: usize::MAX }));
    assert!(node_fits(&text("t"), ListType::Unordered { indent: usize::MAX }));
}

#[test]
fn an_item_past_the_largest_number_does_not_fit() {
    let two = vec![item("a"), item("b")];
    assert!(children_fit(&two, ListType::Ordered { indent: 0, num: i32::MAX - 2 }));
    assert!(!children_fit(&two, ListType::Ordered { indent: 0, num: i32::MAX - 1 }));
    assert!(children_fit(&two, ListType::Unordered { indent: 0 }));
    let none = vec![text("a"), element("p", vec![])];
    assert!(children_fit(&none, ListType::Ordered { indent: 0, num: i32::MAX }));
    let nested = vec![element("ol", vec![item("x")])];
    assert!(children_fit(&nested, ListType::Ordered { indent: 0, num: i32::MAX }));
}

use toy_browser::html::debugger::{dom_list_to_recursive_json, DisplayNode, NodeItem};

fn element(tag: &str) -> NodeItem {
    NodeItem::Element { tag: tag.to_string(), attributes: vec![] }
}

fn node(item: NodeItem, children: Vec<DisplayNode>) -> DisplayNode {
    DisplayNode { item: Some(item), children }
}

#[test]
fn depth_list_nests_under_last_children() {
    let list = vec![
        (0, NodeItem::Document),
        (1, element("html")),
        (2, element("head")),
        (2, element("body")),
        (3, NodeItem::Text { data: "hi".to_string() }),
        (3, element("p")),
    ];
    let expected = node(
        NodeItem::Document,
        vec![node(
            element("html"),
            vec![
                node(element("head"), vec![]),
                node(
                    element("body"),
                    vec![node(NodeItem::Text { data: "hi".to_string() }, vec![]), node(element("p"), vec![])],
                ),
            ],
        )],
    );
    assert_eq!(dom_list_to_recursive_json(list), expected);
}

#[test]
fn list_from_below_the_root_hangs_under_an_empty_root() {
    let list = vec![(1, element("p")), (2, NodeItem::Text { data: "x".to_string() }), (1, element("div"))];
    let expected = DisplayNode {
        item: None,
        children: vec![
            node(element("p"), vec![node(NodeItem::Text { data: "x".to_string() }, vec![])]),
            node(element("div"), vec![]),
        ],
    };
    assert_eq!(dom_list_to_recursive_json(list), expected);
}

#[test]
fn depth_zero_starts_the_tree_over() {
    let list = vec![(1, element("p")), (0, element("body")), (1, element("div"))];
    assert_eq!(dom_list_to_recursive_json(list), node(element("body"), vec![node(element("div"), vec![])]));
    assert_eq!(dom_list_to_recursive_json(vec![]), DisplayNode { item: None, children: vec![] });
}

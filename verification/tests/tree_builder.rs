use ecow::EcoVec;
use toy_browser::fast_html::tree_builder::element_types::is_special_element;
use toy_browser::fast_html::tree_builder::list_of_active_formatting_elements::{
    Entry, ListOfActiveFormattingElements,
};
use toy_browser::fast_html::tree_builder::node::NodePtr;
use toy_browser::fast_html::tree_builder::stack_of_open_elements::StackOfOpenElements;

fn node(id: usize, name: &str) -> NodePtr {
    NodePtr::new(id, name.as_bytes())
}

fn names(stack: &StackOfOpenElements) -> Vec<String> {
    (0..stack.len()).map(|i| String::from_utf8(stack.get(i).tag_name.clone()).unwrap()).collect()
}

fn stack_of(items: &[(usize, &str)]) -> StackOfOpenElements {
    let mut stack = StackOfOpenElements::new();
    for (id, name) in items {
        stack.push(node(*id, name));
    }
    stack
}

#[test]
fn special_elements() {
    assert!(is_special_element(b"div"));
    assert!(is_special_element(b"xmp"));
    assert!(is_special_element(b"address"));
    assert!(!is_special_element(b"span"));
    assert!(!is_special_element(b"DIV"));
}

#[test]
fn stack_getters() {
    let mut stack = stack_of(&[(1, "html"), (2, "body"), (3, "p")]);
    assert_eq!(stack.len(), 3);
    assert_eq!(stack.get(1).id, 2);
    assert_eq!(stack.current_node().unwrap().id, 3);
    assert_eq!(stack.pop().unwrap().id, 3);
    assert_eq!(stack.current_node().unwrap().id, 2);
    assert!(StackOfOpenElements::new().current_node().is_none());
}

#[test]
fn stack_predicates() {
    let stack = stack_of(&[(1, "html"), (2, "body"), (3, "p")]);
    assert!(stack.contains(b"body"));
    assert!(!stack.contains(b"div"));
    assert!(stack.contains_in(&[b"div", b"p"]));
    assert!(!stack.contains_in(&[b"div"]));
    assert!(stack.contains_not_in(&[b"html", b"body"]));
    assert!(!stack.contains_not_in(&[b"html", b"body", b"p"]));
    assert!(stack.contains_node(&node(2, "other")));
    assert!(!stack.contains_node(&node(9, "p")));
    assert!(stack.any(|n| n.id == 3));
    assert!(!stack.any(|n| n.id == 4));
}

#[test]
fn scopes() {
    let mut stack = stack_of(&[(1, "html"), (2, "body"), (3, "p"), (4, "button"), (5, "span")]);
    assert!(stack.has_element_name_in_scope(b"p"));
    assert!(!stack.has_element_name_in_button_scope(b"p"));
    assert!(stack.has_element_name_in_list_item_scope(b"p"));
    assert!(stack.has_element_in_scope(&node(3, "p")));
    assert!(stack.has_not_all_element_names_in_scope(&[b"div", b"li"]));
    assert!(!stack.has_not_all_element_names_in_scope(&[b"div", b"p"]));
    stack.push(node(6, "table"));
    assert!(!stack.has_element_name_in_scope(b"p"));
    assert!(!stack.has_element_name_in_table_scope(b"p"));
    assert!(stack.has_element_name_in_table_scope(b"table"));
    assert!(stack.has_oneof_element_names_in_table_scope(&[b"td", b"table"]));
    stack.push(node(7, "ul"));
    assert!(!stack.has_element_name_in_list_item_scope(b"table"));
    assert!(stack.has_element_name_in_scope(b"table"));
    let mut list = EcoVec::new();
    list.push("ul".as_bytes());
    assert!(!stack.has_element_name_in_specific_scope(b"table", list.clone()));
    assert!(stack.has_oneof_element_names_in_specific_scope(&[b"ul"], list));
}

#[test]
fn pops() {
    let mut stack = stack_of(&[(1, "html"), (2, "body"), (3, "div"), (4, "p"), (5, "b")]);
    stack.pop_until(b"p");
    assert_eq!(names(&stack), vec!["html", "body", "div"]);
    stack.pop_until(b"nothing");
    assert_eq!(stack.len(), 0);

    let mut stack = stack_of(&[(1, "html"), (2, "body"), (3, "div"), (4, "p")]);
    stack.pop_until_some_in(&[b"body", b"div"]);
    assert_eq!(names(&stack), vec!["html", "body"]);

    let mut stack = stack_of(&[(1, "html"), (2, "body"), (3, "div"), (4, "p")]);
    stack.pop_before_index(2);
    assert_eq!(names(&stack), vec!["html", "body"]);
    stack.pop_before_index(5);
    assert_eq!(stack.len(), 2);

    let mut stack = stack_of(&[(1, "html"), (2, "table"), (3, "tbody"), (4, "tr"), (5, "td")]);
    stack.clear_back_to_table_row_context();
    assert_eq!(names(&stack), vec!["html", "table", "tbody", "tr"]);
    stack.clear_back_to_table_body_context();
    assert_eq!(names(&stack), vec!["html", "table", "tbody"]);
    stack.pop();
    stack.push(node(6, "caption"));
    stack.clear_back_to_table_context();
    assert_eq!(names(&stack), vec!["html", "table"]);
    stack.pop_while_not_in(&[b"html"]);
    assert_eq!(names(&stack), vec!["html"]);
}

#[test]
fn remove_first_matching_node_counts_from_the_top_and_removes_from_the_bottom() {
    let mut stack = stack_of(&[(1, "html"), (2, "body"), (3, "p")]);
    stack.remove_first_matching_node(|n| n.tag_name == b"p".to_vec());
    assert_eq!(names(&stack), vec!["body", "p"]);
    let mut stack = stack_of(&[(1, "html"), (2, "body"), (3, "p")]);
    stack.remove_first_matching_node(|n| n.id == 9);
    assert_eq!(stack.len(), 3);
}

#[test]
fn active_formatting_elements() {
    let mut list = ListOfActiveFormattingElements::new();
    list.push(Entry::Element(node(1, "b")));
    list.add_marker();
    list.push(Entry::Element(node(2, "i")));
    list.push(Entry::Element(node(3, "b")));
    assert_eq!(list.len(), 4);
    assert_eq!(list.get_element_after_last_marker("b").unwrap().id, 3);
    assert_eq!(list.get_element_after_last_marker("i").unwrap().id, 2);
    assert!(list.get_element_after_last_marker("u").is_none());
    assert_eq!(list.get_index_of_node(&node(1, "b")), Some(0));
    assert_eq!(list.get_index_of_node(&node(3, "b")), Some(3));
    assert_eq!(list.get_index_of_node(&node(7, "b")), None);
    assert!(list.contains_node(&node(2, "i")));
    list.remove_element(&node(2, "i"));
    assert!(!list.contains_node(&node(2, "i")));
    assert_eq!(list.len(), 3);
    assert_eq!(list.get_index_of_node(&node(3, "b")), Some(2));
}

#[test]
fn marker_separates_nothing_for_lookup_by_name() {
    let mut list = ListOfActiveFormattingElements::new();
    list.push(Entry::Element(node(1, "b")));
    list.add_marker();
    assert_eq!(list.get_element_after_last_marker("b").unwrap().id, 1);
}

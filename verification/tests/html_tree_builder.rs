use toy_browser::html::tree_builder::insert_mode::InsertMode;
use toy_browser::html::tree_builder::list_of_active_formatting_elements::{
    Entry, ListOfActiveFormattingElements,
};
use toy_browser::html::tree_builder::node::NodePtr;
use toy_browser::html::tree_builder::stack_of_open_elements::StackOfOpenElements;

fn open(items: &[(usize, &str)]) -> StackOfOpenElements {
    let mut stack = StackOfOpenElements::new();
    for (id, name) in items {
        stack.push(NodePtr::new(*id, name));
    }
    stack
}

fn tag_names(stack: &StackOfOpenElements) -> Vec<String> {
    (0..stack.len()).map(|i| stack.get(i).tag_name).collect()
}

#[test]
fn char_stack_queries() {
    let stack = open(&[(1, "html"), (2, "body"), (3, "p")]);
    assert_eq!(stack.len(), 3);
    assert_eq!(stack.current_node().unwrap().tag_name(), "p");
    assert!(stack.contains("body"));
    assert!(!stack.contains("div"));
    assert!(stack.contains_in(&["div", "p"]));
    assert!(stack.contains_not_in(&["html"]));
    assert!(!stack.contains_not_in(&["html", "body", "p"]));
    assert!(stack.contains_node(&NodePtr::new(1, "x")));
    assert!(stack.any(|n| n.id == 2));
    assert!(!stack.any(|n| n.id == 5));
}

#[test]
fn char_stack_scopes() {
    let mut stack = open(&[(1, "html"), (2, "body"), (3, "p"), (4, "button"), (5, "span")]);
    assert!(stack.has_element_in_scope("p"));
    assert!(!stack.has_element_in_button_scope("p"));
    assert!(stack.has_element_in_button_scope("span"));
    assert!(!stack.has_element_in_specific_scope("p", vec!["span"]));
    stack.push(NodePtr::new(6, "td"));
    assert!(!stack.has_element_in_scope("p"));
    assert!(stack.has_element_in_scope("td"));
}

#[test]
fn char_stack_pops_and_removal() {
    let mut stack = open(&[(1, "html"), (2, "body"), (3, "ul"), (4, "li"), (5, "b")]);
    stack.pop_until("li");
    assert_eq!(tag_names(&stack), vec!["html", "body", "ul"]);
    assert_eq!(stack.pop().unwrap().tag_name(), "ul");
    stack.remove_first_matching_node(|n| n.tag_name == "body");
    assert_eq!(tag_names(&stack), vec!["body"]);
    stack.pop_until("nothing");
    assert!(stack.current_node().is_none());
}

#[test]
fn char_active_formatting_list() {
    let mut list = ListOfActiveFormattingElements::new();
    list.push(Entry::Element(NodePtr::new(1, "b")));
    list.push(Entry::Marker);
    assert_eq!(list.len(), 2);
    assert!(matches!(InsertMode::InBody.clone(), InsertMode::InBody));
}

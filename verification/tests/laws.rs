use toy_browser::fast_html::tree_builder::node::NodePtr;
use toy_browser::fast_html::tree_builder::stack_of_open_elements::StackOfOpenElements;
use toy_browser::html::tokenizer::{Tokenizer as CharTokenizer, Tokenizing};
use toy_browser::fast_html::tokenizer::Tokenizer;

fn stack_of(names: &[&str]) -> StackOfOpenElements {
    let mut stack = StackOfOpenElements::new();
    for (i, name) in names.iter().enumerate() {
        stack.push(NodePtr::new(i, name.as_bytes()));
    }
    stack
}

#[test]
fn same_input_same_tokens() {
    let input = "<div class=\"a\">x<br/></div>";
    let mut a = Tokenizer::new(input.as_bytes());
    let mut b = Tokenizer::new(input.as_bytes());
    for _ in 0..8 {
        assert_eq!(a.next_token(), b.next_token());
    }
    let mut c = CharTokenizer::new(input.chars().collect());
    let mut d = CharTokenizer::new(input.chars().collect());
    for _ in 0..10 {
        assert_eq!(format!("{:?}", c.next_token()), format!("{:?}", d.next_token()));
    }
}

#[test]
fn element_in_scope_is_open() {
    let stack = stack_of(&["html", "body", "div", "p", "span"]);
    for name in ["html", "body", "div", "p", "span", "li"] {
        if stack.has_element_name_in_scope(name.as_bytes()) {
            assert!(stack.contains(name.as_bytes()));
        }
    }
    assert!(stack.has_element_name_in_scope(b"div"));
}

#[test]
fn narrower_scopes_lie_within_scope() {
    let stacks = [
        stack_of(&["html", "body", "p", "button", "span"]),
        stack_of(&["html", "body", "ol", "li", "p"]),
        stack_of(&["html", "table", "tr", "td", "p"]),
    ];
    for stack in stacks.iter() {
        for name in ["p", "li", "body", "span", "td", "table", "html"] {
            let n = name.as_bytes();
            if stack.has_element_name_in_button_scope(n) || stack.has_element_name_in_list_item_scope(n) {
                assert!(stack.has_element_name_in_scope(n));
            }
            assert_eq!(stack.has_element_name_in_table_scope(n), stack.has_element_name_in_scope(n));
        }
    }
}

#[test]
fn popping_keeps_a_prefix() {
    let mut stack = stack_of(&["html", "body", "p", "b", "p", "i"]);
    stack.pop_until(b"p");
    assert_eq!(stack.len(), 4);
    assert_eq!(stack.current_node().unwrap().tag_name, b"b".to_vec());
    let mut stack = stack_of(&["html", "body", "div"]);
    stack.pop_while_not_in(&[b"table"]);
    assert_eq!(stack.len(), 0);
}

#[test]
fn one_duplicate_attribute_leaves_distinct_names() {
    let mut t = CharTokenizer::new("<p a=1 b=2 a=3 c=4>".chars().collect());
    let tag = t.next_token();
    let names: Vec<&str> = tag.attributes().iter().map(|a| a.name.as_str()).collect();
    assert_eq!(names, vec!["a", "b", "c"]);
}

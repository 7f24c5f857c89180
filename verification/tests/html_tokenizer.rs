use toy_browser::html::tokenizer::token::{Attribute, Token};
use toy_browser::html::tokenizer::{Tokenizer, Tokenizing};

fn tokenizer(s: &str) -> Tokenizer {
    Tokenizer::new(s.chars().collect())
}

fn character(t: &Token) -> Option<char> {
    match t {
        Token::Character(c) => Some(*c),
        _ => None,
    }
}

fn text_until_tag(t: &mut Tokenizer) -> (String, Token) {
    let mut out = String::new();
    loop {
        let token = t.next_token();
        match character(&token) {
            Some(c) => out.push(c),
            None => return (out, token),
        }
    }
}

#[test]
fn paragraph_characters() {
    let mut t = tokenizer("<p>hi</p>");
    let start = t.next_token();
    assert!(start.is_start_tag());
    assert_eq!(start.tag_name(), "p");
    let (text, end) = text_until_tag(&mut t);
    assert_eq!(text, "hi");
    assert!(end.is_end_tag());
    assert_eq!(end.tag_name(), "p");
    assert!(t.next_token().is_eof());
}

#[test]
fn tag_names_are_lowered() {
    let mut t = tokenizer("<DiV></DIV>");
    assert_eq!(t.next_token().tag_name(), "div");
    assert_eq!(t.next_token().tag_name(), "div");
}

#[test]
fn attribute_value_forms() {
    let mut t = tokenizer(r#"<a HREF="x" id='y' class=z disabled>"#);
    let tag = t.next_token();
    let attrs: Vec<(String, String)> =
        tag.attributes().iter().map(|a| (a.name.clone(), a.value.clone())).collect();
    assert_eq!(
        attrs,
        vec![
            ("href".to_string(), "x".to_string()),
            ("id".to_string(), "y".to_string()),
            ("class".to_string(), "z".to_string()),
            ("disabled".to_string(), "".to_string()),
        ]
    );
}

#[test]
fn char_tokenizer_drops_duplicate_attribute() {
    let mut t = tokenizer("<a x=1 x=2 y=3>");
    let tag = t.next_token();
    let names: Vec<String> = tag.attributes().iter().map(|a| a.name.clone()).collect();
    assert_eq!(names, vec!["x", "y"]);
    assert_eq!(tag.attributes()[0].value, "1");
}

#[test]
fn self_closing_tag() {
    let mut t = tokenizer("<br/>");
    match t.next_token() {
        Token::Tag { tag_name, self_closing, is_end_tag, .. } => {
            assert_eq!(tag_name, "br");
            assert!(self_closing);
            assert!(!is_end_tag);
        }
        _ => panic!("expected a tag"),
    }
}

#[test]
fn doctype() {
    let mut t = tokenizer("<!DOCTYPE html>");
    match t.next_token() {
        Token::DOCTYPE { name, force_quirks } => {
            assert_eq!(name.as_deref(), Some("html"));
            assert!(!force_quirks);
        }
        _ => panic!("expected a DOCTYPE"),
    }
    let mut t = tokenizer("<!doctype HTML>");
    match t.next_token() {
        Token::DOCTYPE { name, .. } => assert_eq!(name.as_deref(), Some("html")),
        _ => panic!("expected a DOCTYPE"),
    }
}

#[test]
fn doctype_without_name_forces_quirks() {
    let mut t = tokenizer("<!DOCTYPE>");
    match t.next_token() {
        Token::DOCTYPE { name, force_quirks } => {
            assert_eq!(name, None);
            assert!(force_quirks);
        }
        _ => panic!("expected a DOCTYPE"),
    }
}

#[test]
fn ampersand_that_starts_no_reference_is_text() {
    let mut t = tokenizer("a & b");
    let (text, end) = text_until_tag(&mut t);
    assert_eq!(text, "a & b");
    assert!(end.is_eof());
}

#[test]
fn lone_less_than_sign_at_end() {
    let mut t = tokenizer("<");
    assert_eq!(character(&t.next_token()), Some('<'));
    assert!(t.next_token().is_eof());
}

#[test]
fn null_character_in_tag_name() {
    let mut t = tokenizer("<a\0>");
    assert_eq!(t.next_token().tag_name(), "a\u{FFFD}");
}

#[test]
fn bogus_comment() {
    let mut t = tokenizer("<?x>");
    match t.next_token() {
        Token::Comment(data) => assert_eq!(data, "?x"),
        _ => panic!("expected a comment"),
    }
}

#[test]
fn switch_to_rcdata_then_end_tag() {
    let mut t = tokenizer("<title>a<b</title>");
    assert_eq!(t.next_token().tag_name(), "title");
    t.switch_to(toy_browser::html::tokenizer::state::State::RCDATA);
    let (text, end) = text_until_tag(&mut t);
    assert_eq!(text, "a<b");
    assert!(end.is_end_tag());
    assert_eq!(end.tag_name(), "title");
}

#[test]
fn char_token_helpers() {
    let mut doctype = Token::new_doctype();
    doctype.set_doctype_name_from_char('h');
    doctype.set_force_quirks(true);
    match &doctype {
        Token::DOCTYPE { name, force_quirks } => {
            assert_eq!(name.as_deref(), Some("h"));
            assert!(*force_quirks);
        }
        _ => panic!("expected a DOCTYPE"),
    }
    let tag = Token::new_end_tag();
    assert!(tag.is_end_tag());
    assert!(!tag.match_tag_name_in(&["p"]));
    assert!(Token::new_start_tag().match_tag_name_in(&[""]));
    let mut comment = Token::new_comment("c");
    comment.acknowledge_self_closing_if_set();
    assert!(!comment.is_start_tag());
    assert!(Token::EOF.is_eof());
    let a = Attribute::new();
    assert_eq!(a.name, "");
    assert_eq!(a.value, "");
}

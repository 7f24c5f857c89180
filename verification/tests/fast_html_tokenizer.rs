use ecow::{EcoString, EcoVec};
use toy_browser::fast_html::tokenizer::byte_string::{bytes_to_string, is_whitespace};
use toy_browser::fast_html::tokenizer::token::{Attribute, Token};
use toy_browser::fast_html::tokenizer::Tokenizer;

fn end_tag(name: &str) -> Token {
    Token::Tag {
        tag_name: EcoString::from(name),
        attributes: EcoVec::new(),
        self_closing: false,
        self_closing_acknowledged: false,
        is_end_tag: true,
    }
}

fn attribute(name: &str, value: &str) -> Attribute {
    Attribute { name: EcoString::from(name), value: EcoString::from(value) }
}

#[test]
fn paragraph_tokens() {
    let mut t = Tokenizer::new("<p>hi</p>".as_bytes());
    assert_eq!(t.next_token(), Token::new_start_tag_of("p"));
    assert_eq!(t.next_token(), Token::new_text("hi"));
    assert_eq!(t.next_token(), end_tag("p"));
    assert_eq!(t.next_token(), Token::EOF);
    assert_eq!(t.next_token(), Token::EOF);
}

#[test]
fn empty_input_is_eof() {
    let mut t = Tokenizer::new("".as_bytes());
    assert!(t.next_token().is_eof());
}

#[test]
fn double_quoted_attributes() {
    let mut t = Tokenizer::new(r#"<a href="https://example.com" target="_blank">link</a>"#.as_bytes());
    let tag = t.next_token();
    assert!(tag.is_start_tag());
    assert_eq!(tag.tag_name().as_str(), "a");
    let attrs = tag.attributes();
    assert_eq!(attrs.len(), 2);
    assert_eq!(attrs[0], attribute("href", "https://example.com"));
    assert_eq!(attrs[1], attribute("target", "_blank"));
    assert_eq!(t.next_token(), Token::new_text("link"));
    assert!(t.next_token().is_end_tag());
}

#[test]
fn duplicate_attribute_is_dropped() {
    let mut t = Tokenizer::new(r#"<a x="1" x="2">"#.as_bytes());
    let tag = t.next_token();
    let attrs = tag.attributes();
    assert_eq!(attrs.len(), 1);
    assert_eq!(attrs[0], attribute("x", "1"));
}

#[test]
fn doctype_keyword_in_any_case_keeps_name_case() {
    let mut t = Tokenizer::new("<!doctype HTML>".as_bytes());
    assert_eq!(t.next_token(), Token::DOCTYPE { name: Some(EcoString::from("HTML")), force_quirks: false });
}

#[test]
fn token_helpers() {
    let mut tag = Token::new_start_tag_of("div");
    assert!(tag.match_tag_name_in(&["span", "div"]));
    assert!(!tag.match_tag_name_in(&["span"]));
    assert!(!tag.is_end_tag());
    tag.acknowledge_self_closing_if_set();
    assert_eq!(tag, Token::new_start_tag_of("div"));
    let mut doctype = Token::new_doctype_char_of('h');
    doctype.set_force_quirks(true);
    assert_eq!(doctype, Token::DOCTYPE { name: Some(EcoString::from("h")), force_quirks: true });
    assert_eq!(Token::new_doctype_with_force_quirks(), Token::DOCTYPE { name: None, force_quirks: true });
    assert_eq!(Attribute::new_name_of("id"), attribute("id", ""));
    assert_eq!(Attribute::new(), attribute("", ""));
}

#[test]
fn byte_helpers() {
    assert_eq!(bytes_to_string("héllo".as_bytes()).as_str(), "héllo");
    assert!(is_whitespace(b' '));
    assert!(is_whitespace(b'\n'));
    assert!(!is_whitespace(b'a'));
}

use ecow::EcoString;
use toy_browser::fast_html::tokenizer::token::Token;
use toy_browser::fast_html::tokenizer::Tokenizer;

#[test]
fn html5_doctype() {
    let mut tokenizer = Tokenizer::new("<!DOCTYPE html>".as_bytes());
    assert_eq!(
        tokenizer.next_token(),
        Token::DOCTYPE { name: Some(EcoString::from("html")), force_quirks: false }
    );
}

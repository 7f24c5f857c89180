use toy_browser::re_css::shorthand_property::margin::expand_margin;
use toy_browser::re_css::shorthand_property::utils::expand_four_box_values;
use toy_browser::re_css::shorthand_property::{get_expander_shorthand_property, Shorthand};
use toy_browser::re_css::token::at_keyword::at_keyword_str;
use toy_browser::re_css::token::escape::escape_str;
use toy_browser::re_css::token::function::function_token_str;
use toy_browser::re_css::token::hash::hash_str;
use toy_browser::re_css::token::ident::ident_token_str;
use toy_browser::re_css::token::number::{dimension_pair, number_str, percentage_pair};
use toy_browser::re_css::token::string::string_token;
use toy_browser::re_css::token::unicode::unicode_range_token;
use toy_browser::re_css::token::url::url_token;
use toy_browser::re_css::token::utils::{is_not_newline_or_hex_digit, non_ascii};
use toy_browser::re_css::value::display::{Display, DisplayBox, DisplayInside, DisplayOutside};
use toy_browser::re_css::value::length::LengthUnit;
use toy_browser::re_css::value::property::Property;

#[test]
fn character_classes() {
    assert!(non_ascii('é'));
    assert!(!non_ascii('e'));
    assert!(is_not_newline_or_hex_digit('g'));
    assert!(!is_not_newline_or_hex_digit('a'));
    assert!(!is_not_newline_or_hex_digit('F'));
    assert!(!is_not_newline_or_hex_digit('\n'));
}

#[test]
fn escapes() {
    assert_eq!(escape_str("\\n rest"), Some((" rest", "\\n")));
    assert_eq!(escape_str("\\41 x"), Some(("x", "\\41 ")));
    assert_eq!(escape_str("\\1234567"), Some(("7", "\\123456")));
    assert_eq!(escape_str("\\\n"), None);
    assert_eq!(escape_str("\\"), None);
    assert_eq!(escape_str("a"), None);
}

#[test]
fn identifiers() {
    assert_eq!(ident_token_str("foo bar"), Some((" bar", "foo")));
    assert_eq!(ident_token_str("-webkit-box;"), Some((";", "-webkit-box")));
    assert_eq!(ident_token_str("_a\\31 b c"), Some((" c", "_a\\31 b")));
    assert_eq!(ident_token_str("héllo!"), Some(("!", "héllo")));
    assert_eq!(ident_token_str("1a"), None);
    assert_eq!(ident_token_str(""), None);
}

#[test]
fn at_keywords_functions_and_hashes() {
    assert_eq!(at_keyword_str("@media screen"), Some((" screen", "media")));
    assert_eq!(at_keyword_str("@1"), None);
    assert_eq!(at_keyword_str("media"), None);
    assert_eq!(function_token_str("rgb(1, 2, 3)"), Some(("1, 2, 3)", "rgb")));
    assert_eq!(function_token_str("rgb (1)"), None);
    assert_eq!(hash_str("#fff;"), Some((";", "fff")));
    assert_eq!(hash_str("#"), Some(("", "")));
    assert_eq!(hash_str("#1a2"), Some(("", "1a2")));
    assert_eq!(hash_str("fff"), None);
}

#[test]
fn numbers() {
    assert_eq!(number_str("12.5px"), Some(("px", "12.5")));
    assert_eq!(number_str("-3e2;"), Some((";", "-3e2")));
    assert_eq!(number_str("+7"), Some(("", "+7")));
    assert_eq!(number_str(".5"), Some(("", ".5")));
    assert_eq!(number_str("12."), Some((".", "12")));
    assert_eq!(number_str("1e"), Some(("e", "1")));
    assert_eq!(number_str("+.5"), None);
    assert_eq!(number_str("px"), None);
    assert_eq!(dimension_pair("10px;"), Some((";", ("10", "px"))));
    assert_eq!(dimension_pair("10 px"), None);
    assert_eq!(percentage_pair("50%;"), Some((";", ("50", '%'))));
    assert_eq!(percentage_pair("50"), None);
}

#[test]
fn unicode_ranges() {
    assert_eq!(unicode_range_token("U+0-7F,"), Some((",", "U+0-7F")));
    assert_eq!(unicode_range_token("u+4??"), Some(("", "u+4??")));
    assert_eq!(unicode_range_token("U+1F600x"), Some(("x", "U+1F600")));
    assert_eq!(unicode_range_token("U+"), None);
    assert_eq!(unicode_range_token("V+1"), None);
}

#[test]
fn strings_and_urls_are_never_recognized() {
    assert_eq!(string_token("\"abc\""), None);
    assert_eq!(string_token("'abc'"), None);
    assert_eq!(url_token("url(a.png)"), None);
    assert_eq!(url_token("url( a.png )"), None);
}

#[test]
fn display_values() {
    assert_eq!(Display::from_str("block"), Ok(Display::new_block()));
    assert_eq!(Display::from_str("inline"), Ok(Display::new_inline()));
    assert_eq!(Display::from_str("inline-block"), Ok(Display::Full(DisplayOutside::Inline, DisplayInside::FlowRoot)));
    assert_eq!(Display::from_str("none"), Ok(Display::Box(DisplayBox::NoBox)));
    assert_eq!(Display::from_str("contents"), Ok(Display::Box(DisplayBox::Contents)));
    assert_eq!(Display::from_str("flex"), Err("Invalid display value"));
    assert_eq!("block".parse::<Display>(), Ok(Display::new_block()));
    assert_eq!(Display::new_block(), Display::Full(DisplayOutside::Block, DisplayInside::Flow));
}

#[test]
fn length_units_and_properties() {
    assert_eq!(LengthUnit::from_str("px"), Ok(LengthUnit::Px));
    assert_eq!(LengthUnit::from_str("em"), Ok(LengthUnit::Em));
    assert_eq!(LengthUnit::from_str("rem"), Ok(LengthUnit::Rem));
    assert_eq!(LengthUnit::from_str("pt"), Err("Invalid length unit"));
    assert_eq!(Property::from_str("margin-top"), Ok(Property::MarginTop));
    assert_eq!(Property::from_str("margin-left"), Ok(Property::MarginLeft));
    assert_eq!(Property::from_str("font-size"), Ok(Property::FontSize));
    assert_eq!(Property::from_str("display"), Err("Invalid property"));
    assert!(!Property::Display.inheritable());
    assert!(!Property::FontSize.inheritable());
}

#[test]
fn shorthand_lookup() {
    assert_eq!(get_expander_shorthand_property("margin"), Some(Shorthand::Margin));
    assert_eq!(get_expander_shorthand_property("padding"), None);
}

#[test]
fn four_box_values() {
    let trbl = (Property::MarginTop, Property::MarginRight, Property::MarginBottom, Property::MarginLeft);
    let one = expand_four_box_values(vec![Some(1)], trbl).unwrap();
    assert_eq!(
        one,
        vec![
            (Property::MarginTop, Some(1)),
            (Property::MarginRight, Some(1)),
            (Property::MarginBottom, Some(1)),
            (Property::MarginLeft, Some(1)),
        ]
    );
    let two = expand_four_box_values(vec![Some(1), Some(2)], trbl).unwrap();
    assert_eq!(two.iter().map(|p| p.1.unwrap()).collect::<Vec<_>>(), vec![1, 2, 1, 2]);
    let three = expand_four_box_values(vec![Some(1), Some(2), Some(3)], trbl).unwrap();
    assert_eq!(three.iter().map(|p| p.1.unwrap()).collect::<Vec<_>>(), vec![1, 2, 3, 2]);
    let four = expand_four_box_values(vec![Some(1), Some(2), Some(3), Some(4)], trbl).unwrap();
    assert_eq!(four.iter().map(|p| p.1.unwrap()).collect::<Vec<_>>(), vec![1, 2, 3, 4]);
    assert_eq!(expand_four_box_values(vec![Some(1), None], trbl), None);
    assert_eq!(expand_four_box_values(Vec::<Option<i32>>::new(), trbl), None);
    assert_eq!(expand_four_box_values(vec![Some(1); 5], trbl), None);
    let margin = expand_margin(vec![Some("a"), Some("b")]).unwrap();
    assert_eq!(margin[3], (Property::MarginLeft, Some("b")));
}

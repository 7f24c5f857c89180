use toy_browser::re_css::parser::parse::{
    at_rule, component_value, component_values, declaration, declaration_list,
    declaration_rule_list, function,
    nested_at_rule, preserved_token, qualified_rule, regular_at_rule, simple_block,
    simple_curly_block, simple_round_block, simple_square_block, skip_ws_str,
    some_component_values,
};
use toy_browser::re_css::parser::structure::{
    AtRule, BlockContent, ComponentValue, Declaration, Function, PreservedToken, QualifiedRule,
    SimpleBlock,
};
use toy_browser::re_css::token::Bracket;

fn ident(s: &str) -> ComponentValue {
    ComponentValue::PreservedToken(PreservedToken::Ident(s))
}

fn number(s: &str) -> ComponentValue {
    ComponentValue::PreservedToken(PreservedToken::Number(s))
}

#[test]
fn skips_leading_white_space() {
    assert_eq!(skip_ws_str(" \t\r\n red "), "red ");
    assert_eq!(skip_ws_str("red"), "red");
    assert_eq!(skip_ws_str("   "), "");
}

#[test]
fn preserved_tokens_in_order() {
    assert_eq!(preserved_token("10px;"), Some((";", PreservedToken::Dimension("10", "px"))));
    assert_eq!(preserved_token("50%)"), Some((")", PreservedToken::Percentage("50"))));
    assert_eq!(preserved_token("@media x"), Some((" x", PreservedToken::AtKeyword("media"))));
    assert_eq!(preserved_token("\\26 B"), Some(("B", PreservedToken::Escape("\\26 "))));
    assert_eq!(preserved_token("#fff;"), Some((";", PreservedToken::Hash("fff"))));
    assert_eq!(preserved_token("red;"), Some((";", PreservedToken::Ident("red"))));
    assert_eq!(preserved_token("+1.5e3,"), Some((",", PreservedToken::Number("+1.5e3"))));
    // `-` starts an identifier, which is tried before a number
    assert_eq!(preserved_token("-1.5"), Some((".5", PreservedToken::Ident("-1"))));
    // `U` starts an identifier, which is tried before a unicode range
    assert_eq!(preserved_token("U+0025"), Some(("+0025", PreservedToken::Ident("U"))));
    assert_eq!(preserved_token("\"text\""), None);
    assert_eq!(preserved_token(":"), None);
    assert_eq!(preserved_token(""), None);
}

#[test]
fn component_value_trims_tokens() {
    assert_eq!(component_value("  red  blue"), Some(("blue", ident("red"))));
    assert_eq!(component_value(": red"), None);
    assert_eq!(component_value(""), None);
}

#[test]
fn component_values_stop_at_what_is_no_value() {
    assert_eq!(component_values(" 1 2 ; x"), Some(("; x", vec![number("1"), number("2")])));
    assert_eq!(component_values(";"), Some((";", vec![])));
    assert_eq!(some_component_values(";"), None);
    assert_eq!(some_component_values("a b"), Some(("", vec![ident("a"), ident("b")])));
}

#[test]
fn simple_blocks_of_each_bracket() {
    let square = SimpleBlock { associated: Bracket::Square, value: vec![ident("a"), ident("b")] };
    assert_eq!(simple_square_block("[a b] c"), Some((" c", square)));
    let curly = SimpleBlock { associated: Bracket::Curly, value: vec![ident("p")] };
    assert_eq!(simple_curly_block("{ p }"), Some(("", curly)));
    let round = SimpleBlock { associated: Bracket::Round, value: vec![] };
    assert_eq!(simple_round_block("()x"), Some(("x", round)));
    assert_eq!(simple_curly_block("[a]"), None);
    assert_eq!(simple_block("[a"), None);
    let nested = SimpleBlock {
        associated: Bracket::Round,
        value: vec![ComponentValue::SimpleBlock(SimpleBlock {
            associated: Bracket::Square,
            value: vec![number("1")],
        })],
    };
    assert_eq!(simple_block("([1])"), Some(("", nested)));
}

#[test]
fn function_with_arguments() {
    let f = Function { name: "rgb", value: vec![number("1"), number("2"), number("3")] };
    assert_eq!(function("rgb(1, 2, 3);"), Some((";", f)));
    assert_eq!(
        component_value("calc(1)"),
        Some(("", ComponentValue::Function(Function { name: "calc", value: vec![number("1")] })))
    );
    // a function takes at least one argument
    assert_eq!(function("f()"), None);
    assert_eq!(function("f(1,)"), None);
    assert_eq!(function("f (1)"), None);
}

#[test]
fn declarations_with_and_without_importance() {
    let plain = Declaration { name: "color", value: vec![ident("red")], important: false };
    assert_eq!(declaration("color: red;"), Some((";", plain)));
    let important =
        Declaration { name: "margin", value: vec![number("0"), ident("auto")], important: true };
    assert_eq!(declaration("margin : 0 auto ! important ;"), Some((";", important)));
    assert_eq!(declaration("color red"), None);
    assert_eq!(declaration("color:"), None);
}

#[test]
fn declaration_list_reads_each_declaration() {
    let (rest, list) = declaration_list(" color: red; width: 10px ;}").unwrap();
    assert_eq!(rest, "}");
    assert_eq!(
        list,
        vec![
            Declaration { name: "color", value: vec![ident("red")], important: false },
            Declaration {
                name: "width",
                value: vec![ComponentValue::PreservedToken(PreservedToken::Dimension("10", "px"))],
                important: false,
            },
        ]
    );
    assert_eq!(declaration_list("}"), Some(("}", vec![])));
    // a declaration without `;` is not read
    assert_eq!(declaration_list("color: red"), Some(("color: red", vec![])));
}

#[test]
fn at_rules_regular_and_nested() {
    let charset = AtRule { name: "charset", prelude: vec![ident("utf")], block: None };
    assert_eq!(regular_at_rule("@charset utf;x"), Some(("x", charset)));
    // the prelude reads a block as a component value, so a rule ending in a
    // block is only read where `;` follows it
    assert_eq!(nested_at_rule("@media screen { p }"), None);
    assert_eq!(at_rule("@media screen { p }"), None);
    let media = AtRule {
        name: "media",
        prelude: vec![
            ident("screen"),
            ComponentValue::SimpleBlock(SimpleBlock {
                associated: Bracket::Curly,
                value: vec![ident("p")],
            }),
        ],
        block: None,
    };
    assert_eq!(at_rule("@media screen { p };"), Some(("", media)));
    assert_eq!(at_rule("media;"), None);
}

#[test]
fn at_rule_block_is_read_by_the_prelude() {
    assert_eq!(nested_at_rule("@page :first {}"), None);
    assert_eq!(at_rule("@x{}"), None);
    let x = AtRule {
        name: "x",
        prelude: vec![ComponentValue::SimpleBlock(SimpleBlock {
            associated: Bracket::Curly,
            value: vec![],
        })],
        block: None,
    };
    assert_eq!(at_rule("@x{};"), Some(("", x)));
}

#[test]
fn qualified_rule_with_declarations() {
    let rule = QualifiedRule {
        prelude: vec![ident("h1")],
        block: vec![BlockContent::Declaration(Declaration {
            name: "color",
            value: vec![ident("red")],
            important: false,
        })],
    };
    assert_eq!(qualified_rule("h1 { color: red; } p"), Some(("p", rule)));
    assert_eq!(qualified_rule("{ color: red; }"), None);
    assert_eq!(qualified_rule("h1 { color: red }"), None);
}

#[test]
fn qualified_rule_with_nested_rules() {
    let inner = QualifiedRule {
        prelude: vec![ident("a")],
        block: vec![BlockContent::Declaration(Declaration {
            name: "x",
            value: vec![number("1")],
            important: true,
        })],
    };
    let outer = QualifiedRule {
        prelude: vec![ident("div")],
        block: vec![
            BlockContent::AtRule(AtRule { name: "y", prelude: vec![], block: None }),
            BlockContent::QualifiedRule(inner),
        ],
    };
    assert_eq!(qualified_rule("div { @y; a { x: 1 !important; } }"), Some(("", outer)));
}

#[test]
fn declaration_rule_list_reads_rules_and_declarations() {
    let (rest, items) = declaration_rule_list("@charset x;color: red;a").unwrap();
    assert_eq!(rest, "a");
    assert_eq!(
        items,
        vec![
            BlockContent::AtRule(AtRule { name: "charset", prelude: vec![ident("x")], block: None }),
            BlockContent::Declaration(Declaration {
                name: "color",
                value: vec![ident("red")],
                important: false,
            }),
        ]
    );
    // no white space is skipped between the items
    assert_eq!(declaration_rule_list(" color: red;"), Some((" color: red;", vec![])));
}

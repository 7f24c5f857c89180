//! The grammar of CSS syntax over characters. Each parser takes the input
//! and, where its production starts there, hands back the rest of the input
//! and what it read; alternatives are tried in order, and a repetition stops
//! at the first item that does not parse, or fails where an item reads
//! nothing.

use vstd::prelude::*;
use super::structure::{
    PreservedToken, token_view, ComponentValue, value_view, Function, SimpleBlock, block_view,
    values_view, lemma_values_view_push, lemma_values_view_prepend, Declaration, declaration_view,
    declarations_view, AtRule, at_rule_view, QualifiedRule, qualified_rule_view, BlockContent,
    content_view, contents_view, lemma_contents_view_push, TokenView, ComponentValueView, FunctionView, SimpleBlockView, DeclarationView, AtRuleView,
    QualifiedRuleView, BlockContentView,
};
use crate::re_css::token::Bracket;
use crate::re_css::token::escape::{escape_at, multispace_run, lemma_multispace_run_bounds};
use crate::re_css::token::ident::{ident_at, ident_chars_end};
use crate::re_css::token::function::function_at;
use crate::re_css::token::number::{number_at, dimension_at, percentage_at};
use crate::re_css::token::unicode::{
    unicode_range_at, hex_digits, qmark_run, lemma_hex_digits_bounds, lemma_qmark_run_bounds,
    unicode_range_token,
};
use crate::re_css::token::escape::{escape_str, lemma_escape_bounds, multispace_run_exec};
use crate::re_css::token::ident::{ident_token_str, lemma_ident_bounds, lemma_ident_chars_end_bounds};
use crate::re_css::token::at_keyword::at_keyword_str;
use crate::re_css::token::hash::hash_str;
use crate::re_css::token::function::function_token_str;
use crate::re_css::token::number::{number_str, dimension_pair, percentage_pair, lemma_number_bounds};
use crate::re_css::token::string::string_token;
use crate::re_css::token::url::url_token;
use crate::re_css::token::utils::{chars_of, substring};

verus! {

/* the grammar ------------------------------------------------------------- */

/// The input after its leading white space.
pub open spec fn skip_ws(s: Seq<char>) -> Seq<char> {
    s.subrange(multispace_run(s, 0) as int, s.len() as int)
}

/// The input after `c`, where it starts with `c`.
pub open spec fn after_char(s: Seq<char>, c: char) -> Option<Seq<char>> {
    if s.len() > 0 && s[0] == c {
        Some(s.subrange(1, s.len() as int))
    } else {
        None
    }
}

pub open spec fn opening(b: Bracket) -> char {
    match b {
        Bracket::Curly => '{',
        Bracket::Square => '[',
        Bracket::Round => '(',
    }
}

pub open spec fn closing(b: Bracket) -> char {
    match b {
        Bracket::Curly => '}',
        Bracket::Square => ']',
        Bracket::Round => ')',
    }
}

/// A preserved token at the start of the input, the alternatives tried in
/// this order: dimension, percentage, at-keyword, escape, hash, identifier,
/// number, unicode range. (Quoted strings and urls are never recognized:
/// see `string_token` and `url_token`.)
pub open spec fn preserved_token_spec(s: Seq<char>) -> Option<(Seq<char>, TokenView)> {
    let len = s.len() as int;
    if let Some((n, u)) = dimension_at(s) {
        Some(
            (
                s.subrange((n + u) as int, len),
                TokenView::Dimension(s.subrange(0, n as int), s.subrange(n as int, (n + u) as int)),
            ),
        )
    } else if let Some(n) = percentage_at(s) {
        Some((s.subrange(n + 1int, len), TokenView::Percentage(s.subrange(0, n as int))))
    } else if let Some(n) = (if s.len() > 0 && s[0] == '@' {
        ident_at(s, 1)
    } else {
        None
    }) {
        Some((s.subrange(1 + n as int, len), TokenView::AtKeyword(s.subrange(1, 1 + n as int))))
    } else if let Some(n) = escape_at(s, 0) {
        Some((s.subrange(n as int, len), TokenView::Escape(s.subrange(0, n as int))))
    } else if s.len() > 0 && s[0] == '#' {
        let e = ident_chars_end(s, 1);
        Some((s.subrange(e, len), TokenView::Hash(s.subrange(1, e))))
    } else if let Some(n) = ident_at(s, 0) {
        Some((s.subrange(n as int, len), TokenView::Ident(s.subrange(0, n as int))))
    } else if let Some(n) = number_at(s, 0) {
        Some((s.subrange(n as int, len), TokenView::Number(s.subrange(0, n as int))))
    } else if let Some(n) = unicode_range_at(s) {
        Some((s.subrange(n as int, len), TokenView::UnicodeRange(s.subrange(0, n as int))))
    } else {
        None
    }
}

/// A component value: a simple block, else a function, else a preserved
/// token with the white space around it.
pub open spec fn component_value_spec(s: Seq<char>) -> Option<(Seq<char>, ComponentValueView)>
    decreases s.len(), 3nat,
{
    if let Some((r, b)) = simple_block_spec(s) {
        Some((r, ComponentValueView::SimpleBlock(b)))
    } else if let Some((r, f)) = function_spec(s) {
        Some((r, ComponentValueView::Function(f)))
    } else if let Some((r, t)) = preserved_token_spec(skip_ws(s)) {
        Some((skip_ws(r), ComponentValueView::PreservedToken(t)))
    } else {
        None
    }
}

/// Component values in the brackets of `b`.
pub open spec fn bracket_block_spec(s: Seq<char>, b: Bracket) -> Option<(Seq<char>, SimpleBlockView)>
    decreases s.len(), 1nat,
{
    if let Some(t) = after_char(s, opening(b)) {
        if let Some((r, vs)) = component_values_spec(t) {
            if let Some(r2) = after_char(r, closing(b)) {
                Some((r2, SimpleBlockView { associated: b, value: vs }))
            } else {
                None
            }
        } else {
            None
        }
    } else {
        None
    }
}

/// Component values in `{}`, else in `[]`, else in `()`.
pub open spec fn simple_block_spec(s: Seq<char>) -> Option<(Seq<char>, SimpleBlockView)>
    decreases s.len(), 2nat,
{
    if bracket_block_spec(s, Bracket::Curly) is Some {
        bracket_block_spec(s, Bracket::Curly)
    } else if bracket_block_spec(s, Bracket::Square) is Some {
        bracket_block_spec(s, Bracket::Square)
    } else {
        bracket_block_spec(s, Bracket::Round)
    }
}

/// Any number of component values.
pub open spec fn component_values_spec(s: Seq<char>) -> Option<(Seq<char>, Seq<ComponentValueView>)>
    decreases s.len(), 4nat,
{
    if let Some((r, v)) = component_value_spec(s) {
        if r.len() < s.len() {
            if let Some((r2, vs)) = component_values_spec(r) {
                Some((r2, seq![v] + vs))
            } else {
                None
            }
        } else {
            None
        }
    } else {
        Some((s, Seq::empty()))
    }
}

/// A function: its name and `(`, its arguments separated by `,`, and `)`.
pub open spec fn function_spec(s: Seq<char>) -> Option<(Seq<char>, FunctionView)>
    decreases s.len(), 2nat,
{
    if let Some(n) = function_at(s) {
        if let Some((r, vs)) = argument_list_spec(s.subrange(n + 1int, s.len() as int)) {
            if let Some(r2) = after_char(r, ')') {
                Some((r2, FunctionView { name: s.subrange(0, n as int), value: vs }))
            } else {
                None
            }
        } else {
            None
        }
    } else {
        None
    }
}

/// One or more component values separated by `,`.
pub open spec fn argument_list_spec(s: Seq<char>) -> Option<(Seq<char>, Seq<ComponentValueView>)>
    decreases s.len(), 5nat,
{
    if let Some((r, v)) = component_value_spec(s) {
        // a rest is never longer than the input
        if r.len() <= s.len() {
            if let Some((r2, vs)) = more_arguments_spec(r) {
                Some((r2, seq![v] + vs))
            } else {
                None
            }
        } else {
            None
        }
    } else {
        None
    }
}

/// The arguments after the first: each a `,` and a component value.
pub open spec fn more_arguments_spec(s: Seq<char>) -> Option<(Seq<char>, Seq<ComponentValueView>)>
    decreases s.len(), 4nat,
{
    if let Some(t) = after_char(s, ',') {
        if let Some((r, v)) = component_value_spec(t) {
            if r.len() < s.len() {
                if let Some((r2, vs)) = more_arguments_spec(r) {
                    Some((r2, seq![v] + vs))
                } else {
                    None
                }
            } else {
                None
            }
        } else {
            Some((s, Seq::empty()))
        }
    } else {
        Some((s, Seq::empty()))
    }
}

/// One or more component values.
pub open spec fn some_component_values_spec(s: Seq<char>) -> Option<(Seq<char>, Seq<ComponentValueView>)> {
    if let Some((r, v)) = component_value_spec(s) {
        if let Some((r2, vs)) = component_values_spec(r) {
            Some((r2, seq![v] + vs))
        } else {
            None
        }
    } else {
        None
    }
}

/// `!`, white space, `important` and white space.
pub open spec fn important_spec(s: Seq<char>) -> Option<Seq<char>> {
    if let Some(t) = after_char(s, '!') {
        let u = skip_ws(t);
        if u.len() >= 9 && u.subrange(0, 9) == seq!['i', 'm', 'p', 'o', 'r', 't', 'a', 'n', 't'] {
            Some(skip_ws(u.subrange(9, u.len() as int)))
        } else {
            None
        }
    } else {
        None
    }
}

/// A declaration: a name, white space, `:`, one or more component values,
/// and `!important` where it follows.
pub open spec fn declaration_spec(s: Seq<char>) -> Option<(Seq<char>, DeclarationView)> {
    if let Some(n) = ident_at(s, 0) {
        if let Some(t) = after_char(skip_ws(s.subrange(n as int, s.len() as int)), ':') {
            if let Some((r, vs)) = some_component_values_spec(t) {
                let name = s.subrange(0, n as int);
                if let Some(r2) = important_spec(r) {
                    Some((r2, DeclarationView { name, value: vs, important: true }))
                } else {
                    Some((r, DeclarationView { name, value: vs, important: false }))
                }
            } else {
                None
            }
        } else {
            None
        }
    } else {
        None
    }
}

/// A declaration and `;`, with the white space around them.
pub open spec fn terminated_declaration_spec(s: Seq<char>) -> Option<(Seq<char>, DeclarationView)> {
    if let Some((r, d)) = declaration_spec(skip_ws(s)) {
        if let Some(r2) = after_char(r, ';') {
            Some((skip_ws(r2), d))
        } else {
            None
        }
    } else {
        None
    }
}

/// Any number of declarations, each ending in `;`.
pub open spec fn declaration_list_spec(s: Seq<char>) -> Option<(Seq<char>, Seq<DeclarationView>)>
    decreases s.len(),
{
    if let Some((r, d)) = terminated_declaration_spec(s) {
        if r.len() < s.len() {
            if let Some((r2, ds)) = declaration_list_spec(r) {
                Some((r2, seq![d] + ds))
            } else {
                None
            }
        } else {
            None
        }
    } else {
        Some((s, Seq::empty()))
    }
}

/// The name of an at-rule and its prelude: the rest and the two.
pub open spec fn at_rule_head_spec(s: Seq<char>) -> Option<(Seq<char>, (Seq<char>, Seq<ComponentValueView>))> {
    if let Some(n) = (if s.len() > 0 && s[0] == '@' {
        ident_at(s, 1)
    } else {
        None
    }) {
        if let Some((r, vs)) = component_values_spec(s.subrange(1 + n as int, s.len() as int)) {
            Some((r, (s.subrange(1, 1 + n as int), vs)))
        } else {
            None
        }
    } else {
        None
    }
}

/// An at-rule that ends in `;`.
pub open spec fn regular_at_rule_spec(s: Seq<char>) -> Option<(Seq<char>, AtRuleView)> {
    if let Some((r, (name, prelude))) = at_rule_head_spec(s) {
        if let Some(r2) = after_char(r, ';') {
            Some((r2, AtRuleView { name, prelude, block: None }))
        } else {
            None
        }
    } else {
        None
    }
}

/// An at-rule that ends in a block in `{}`.
pub open spec fn nested_at_rule_spec(s: Seq<char>) -> Option<(Seq<char>, AtRuleView)> {
    if let Some((r, (name, prelude))) = at_rule_head_spec(s) {
        if let Some((r2, b)) = bracket_block_spec(r, Bracket::Curly) {
            Some((r2, AtRuleView { name, prelude, block: Some(b) }))
        } else {
            None
        }
    } else {
        None
    }
}

/// An at-rule: one that ends in `;`, else one that ends in a block.
pub open spec fn at_rule_spec(s: Seq<char>) -> Option<(Seq<char>, AtRuleView)> {
    if regular_at_rule_spec(s) is Some {
        regular_at_rule_spec(s)
    } else {
        nested_at_rule_spec(s)
    }
}

/// A qualified rule: one or more component values, then a block of contents
/// in `{}` with the white space around it.
pub open spec fn qualified_rule_spec(s: Seq<char>) -> Option<(Seq<char>, QualifiedRuleView)>
    decreases s.len(), 1nat,
{
    if let Some((r, prelude)) = some_component_values_spec(s) {
        // a rest is never longer than the input
        if r.len() <= s.len() {
            proof {
                lemma_multispace_run_bounds(r, 0);
            }
            if let Some((r2, block)) = curly_block_content_spec(skip_ws(r)) {
                Some((skip_ws(r2), QualifiedRuleView { prelude, block }))
            } else {
                None
            }
        } else {
            None
        }
    } else {
        None
    }
}

/// `{`, block contents with the white space around them, and `}`.
pub open spec fn curly_block_content_spec(s: Seq<char>) -> Option<(Seq<char>, Seq<BlockContentView>)>
    decreases s.len(), 0nat,
{
    if let Some(t) = after_char(s, '{') {
        proof {
            lemma_multispace_run_bounds(t, 0);
        }
        if let Some((r, cs)) = block_contents_spec(skip_ws(t)) {
            if let Some(r2) = after_char(skip_ws(r), '}') {
                Some((r2, cs))
            } else {
                None
            }
        } else {
            None
        }
    } else {
        None
    }
}

/// One item of a block: a declaration ending in `;`, else an at-rule, else
/// a qualified rule.
pub open spec fn block_content_spec(s: Seq<char>) -> Option<(Seq<char>, BlockContentView)>
    decreases s.len(), 2nat,
{
    if let Some((r, d)) = terminated_declaration_spec(s) {
        Some((r, BlockContentView::Declaration(d)))
    } else if let Some((r, a)) = at_rule_spec(s) {
        Some((r, BlockContentView::AtRule(a)))
    } else if let Some((r, q)) = qualified_rule_spec(s) {
        Some((r, BlockContentView::QualifiedRule(q)))
    } else {
        None
    }
}

/// Any number of block items.
pub open spec fn block_contents_spec(s: Seq<char>) -> Option<(Seq<char>, Seq<BlockContentView>)>
    decreases s.len(), 3nat,
{
    if let Some((r, c)) = block_content_spec(s) {
        if r.len() < s.len() {
            if let Some((r2, cs)) = block_contents_spec(r) {
                Some((r2, seq![c] + cs))
            } else {
                None
            }
        } else {
            None
        }
    } else {
        Some((s, Seq::empty()))
    }
}

/// An at-rule, else a declaration and `;`.
pub open spec fn declaration_rule_spec(s: Seq<char>) -> Option<(Seq<char>, BlockContentView)> {
    if let Some((r, a)) = at_rule_spec(s) {
        Some((r, BlockContentView::AtRule(a)))
    } else if let Some((r, d)) = declaration_spec(s) {
        if let Some(r2) = after_char(r, ';') {
            Some((r2, BlockContentView::Declaration(d)))
        } else {
            None
        }
    } else {
        None
    }
}

/// Any number of at-rules and declarations ending in `;`.
pub open spec fn declaration_rule_list_spec(s: Seq<char>) -> Option<(Seq<char>, Seq<BlockContentView>)>
    decreases s.len(),
{
    if let Some((r, c)) = declaration_rule_spec(s) {
        if r.len() < s.len() {
            if let Some((r2, cs)) = declaration_rule_list_spec(r) {
                Some((r2, seq![c] + cs))
            } else {
                None
            }
        } else {
            None
        }
    } else {
        Some((s, Seq::empty()))
    }
}

/* what the grammar guarantees --------------------------------------------- */

/// `r` is what is left of `s` after a prefix of it.
pub open spec fn is_rest_of(r: Seq<char>, s: Seq<char>) -> bool {
    r.len() <= s.len() && r == s.subrange(s.len() - r.len(), s.len() as int)
}

pub proof fn lemma_rest_of_rest(a: Seq<char>, b: Seq<char>, c: Seq<char>)
    requires
        is_rest_of(a, b),
        is_rest_of(b, c),
    ensures
        is_rest_of(a, c),
{
    assert(a =~= c.subrange(c.len() - a.len(), c.len() as int));
}

pub proof fn lemma_rest_of_itself(s: Seq<char>)
    ensures
        is_rest_of(s, s),
{
    assert(s.subrange(0, s.len() as int) =~= s);
}

pub proof fn lemma_suffix_is_rest(s: Seq<char>, k: int)
    requires
        0 <= k <= s.len(),
    ensures
        is_rest_of(s.subrange(k, s.len() as int), s),
{
}

pub proof fn lemma_skip_ws_is_rest(s: Seq<char>)
    ensures
        is_rest_of(skip_ws(s), s),
{
    lemma_multispace_run_bounds(s, 0);
}

pub proof fn lemma_after_char_is_rest(s: Seq<char>, c: char)
    ensures
        after_char(s, c) matches Some(t) ==> is_rest_of(t, s) && t.len() < s.len(),
{
}

/// A preserved token reads at least one character.
pub proof fn lemma_preserved_token_shortens(s: Seq<char>)
    ensures
        preserved_token_spec(s) matches Some((r, _)) ==> is_rest_of(r, s) && r.len() < s.len(),
{
    lemma_number_bounds(s, 0);
    if let Some(n) = number_at(s, 0) {
        lemma_ident_bounds(s, n as int);
    }
    if s.len() > 0 {
        lemma_ident_bounds(s, 1);
        lemma_ident_chars_end_bounds(s, 1);
    }
    lemma_escape_bounds(s, 0);
    lemma_ident_bounds(s, 0);
    if s.len() >= 2 {
        lemma_hex_digits_bounds(s, 2);
        let h = hex_digits(s, 2) as int;
        if 2 + h < s.len() {
            lemma_hex_digits_bounds(s, 3 + h);
        }
        lemma_qmark_run_bounds(s, 2 + h, 6);
    }
}

/// A run of component values stops only where no component value starts.
pub proof fn law_component_values_stop_at_no_value(s: Seq<char>)
    ensures
        component_values_spec(s) matches Some((r, _)) ==> component_value_spec(r) is None,
    decreases s.len(),
{
    if let Some((r, _)) = component_value_spec(s) {
        if r.len() < s.len() {
            law_component_values_stop_at_no_value(r);
        }
    }
}

/// The prelude of an at-rule reads any block in `{}` that follows it, so no
/// at-rule ends in a block: an at-rule that is read at all ends in `;`.
pub proof fn law_prelude_reads_every_block(s: Seq<char>)
    ensures
        nested_at_rule_spec(s) is None,
        at_rule_spec(s) == regular_at_rule_spec(s),
{
    if let Some(n) = (if s.len() > 0 && s[0] == '@' {
        ident_at(s, 1)
    } else {
        None
    }) {
        law_component_values_stop_at_no_value(s.subrange(1 + n as int, s.len() as int));
    }
}

/* the parsers ------------------------------------------------------------- */

/// The input after its leading white space.
pub fn skip_ws_str(input: &str) -> (rest: &str)
    ensures
        rest@ == skip_ws(input@),
{
    let cs = chars_of(input);
    let k = multispace_run_exec(cs.as_slice(), 0);
    substring(input, k, cs.len())
}

/// The input after `c`, where it starts with `c`.
fn after_char_str(input: &str, c: char) -> (res: Option<&str>)
    ensures
        match after_char(input@, c) {
            Some(t) => res matches Some(r) && r@ == t,
            None => res is None,
        },
{
    let n = input.unicode_len();
    if n > 0 && input.get_char(0) == c {
        Some(substring(input, 1, n))
    } else {
        None
    }
}

/// A preserved token at the start of the input, with its text.
pub fn preserved_token(input: &str) -> (res: Option<(&str, PreservedToken)>)
    ensures
        match preserved_token_spec(input@) {
            Some((r, t)) => res matches Some((rest, tok)) && rest@ == r && token_view(tok) == t,
            None => res is None,
        },
{
    if let Some((rest, (num, unit))) = dimension_pair(input) {
        return Some((rest, PreservedToken::Dimension(num, unit)));
    }
    if let Some((rest, (num, _))) = percentage_pair(input) {
        return Some((rest, PreservedToken::Percentage(num)));
    }
    if let Some((rest, url)) = url_token(input) {
        return Some((rest, PreservedToken::Url(url)));
    }
    if let Some((rest, name)) = at_keyword_str(input) {
        return Some((rest, PreservedToken::AtKeyword(name)));
    }
    if let Some((rest, esc)) = escape_str(input) {
        return Some((rest, PreservedToken::Escape(esc)));
    }
    if let Some((rest, name)) = hash_str(input) {
        return Some((rest, PreservedToken::Hash(name)));
    }
    if let Some((rest, ident)) = ident_token_str(input) {
        return Some((rest, PreservedToken::Ident(ident)));
    }
    if let Some((rest, num)) = number_str(input) {
        return Some((rest, PreservedToken::Number(num)));
    }
    if let Some((rest, text)) = string_token(input) {
        return Some((rest, PreservedToken::String(text)));
    }
    if let Some((rest, range)) = unicode_range_token(input) {
        return Some((rest, PreservedToken::UnicodeRange(range)));
    }
    None
}

/// A component value at the start of the input: a simple block, else a
/// function, else a preserved token with the white space around it.
pub fn component_value(input: &str) -> (res: Option<(&str, ComponentValue)>)
    ensures
        match component_value_spec(input@) {
            Some((r, v)) => res matches Some((rest, c)) && rest@ == r && value_view(c) == v,
            None => res is None,
        },
        res matches Some((rest, _)) ==> is_rest_of(rest@, input@) && rest@.len() < input@.len(),
    decreases input@.len(), 3nat,
{
    if let Some((rest, block)) = simple_block(input) {
        return Some((rest, ComponentValue::SimpleBlock(block)));
    }
    if let Some((rest, f)) = function(input) {
        return Some((rest, ComponentValue::Function(f)));
    }
    let t = skip_ws_str(input);
    proof {
        lemma_skip_ws_is_rest(input@);
    }
    if let Some((rest, tok)) = preserved_token(t) {
        proof {
            lemma_preserved_token_shortens(t@);
            lemma_skip_ws_is_rest(rest@);
            lemma_rest_of_rest(rest@, t@, input@);
            lemma_rest_of_rest(skip_ws(rest@), rest@, input@);
        }
        return Some((skip_ws_str(rest), ComponentValue::PreservedToken(tok)));
    }
    None
}

/// A simple block at the start of the input: in `{}`, else `[]`, else `()`.
pub fn simple_block(input: &str) -> (res: Option<(&str, SimpleBlock)>)
    ensures
        match simple_block_spec(input@) {
            Some((r, b)) => res matches Some((rest, blk)) && rest@ == r && block_view(blk) == b,
            None => res is None,
        },
        res matches Some((rest, _)) ==> is_rest_of(rest@, input@) && rest@.len() < input@.len(),
    decreases input@.len(), 2nat,
{
    if let Some(found) = simple_curly_block(input) {
        return Some(found);
    }
    if let Some(found) = simple_square_block(input) {
        return Some(found);
    }
    simple_round_block(input)
}

/// Component values in `{}`.
pub fn simple_curly_block(input: &str) -> (res: Option<(&str, SimpleBlock)>)
    ensures
        match bracket_block_spec(input@, Bracket::Curly) {
            Some((r, b)) => res matches Some((rest, blk)) && rest@ == r && block_view(blk) == b,
            None => res is None,
        },
        res matches Some((rest, _)) ==> is_rest_of(rest@, input@) && rest@.len() < input@.len(),
    decreases input@.len(), 1nat,
{
    bracket_block(input, Bracket::Curly)
}

/// Component values in `[]`.
pub fn simple_square_block(input: &str) -> (res: Option<(&str, SimpleBlock)>)
    ensures
        match bracket_block_spec(input@, Bracket::Square) {
            Some((r, b)) => res matches Some((rest, blk)) && rest@ == r && block_view(blk) == b,
            None => res is None,
        },
        res matches Some((rest, _)) ==> is_rest_of(rest@, input@) && rest@.len() < input@.len(),
    decreases input@.len(), 1nat,
{
    bracket_block(input, Bracket::Square)
}

/// Component values in `()`.
pub fn simple_round_block(input: &str) -> (res: Option<(&str, SimpleBlock)>)
    ensures
        match bracket_block_spec(input@, Bracket::Round) {
            Some((r, b)) => res matches Some((rest, blk)) && rest@ == r && block_view(blk) == b,
            None => res is None,
        },
        res matches Some((rest, _)) ==> is_rest_of(rest@, input@) && rest@.len() < input@.len(),
    decreases input@.len(), 1nat,
{
    bracket_block(input, Bracket::Round)
}

fn bracket_block(input: &str, associated: Bracket) -> (res: Option<(&str, SimpleBlock)>)
    ensures
        match bracket_block_spec(input@, associated) {
            Some((r, b)) => res matches Some((rest, blk)) && rest@ == r && block_view(blk) == b,
            None => res is None,
        },
        res matches Some((rest, _)) ==> is_rest_of(rest@, input@) && rest@.len() < input@.len(),
    decreases input@.len(), 0nat,
{
    let (open, close) = match associated {
        Bracket::Curly => ('{', '}'),
        Bracket::Square => ('[', ']'),
        Bracket::Round => ('(', ')'),
    };
    let t = match after_char_str(input, open) {
        Some(t) => t,
        None => return None,
    };
    let (rest, value) = match component_values(t) {
        Some(found) => found,
        None => return None,
    };
    proof {
        lemma_after_char_is_rest(input@, open);
        lemma_after_char_is_rest(rest@, close);
        lemma_rest_of_rest(rest@, t@, input@);
        if let Some(r2) = after_char(rest@, close) {
            lemma_rest_of_rest(r2, rest@, input@);
        }
    }
    match after_char_str(rest, close) {
        Some(r2) => Some((r2, SimpleBlock { associated, value })),
        None => None,
    }
}

/// Any number of component values at the start of the input.
pub fn component_values(input: &str) -> (res: Option<(&str, Vec<ComponentValue>)>)
    ensures
        match component_values_spec(input@) {
            Some((r, vs)) => res matches Some((rest, v)) && rest@ == r && values_view(v@) == vs,
            None => res is None,
        },
        res matches Some((rest, _)) ==> is_rest_of(rest@, input@),
    decreases input@.len(), 4nat,
{
    let mut acc: Vec<ComponentValue> = Vec::new();
    let mut cur = input;
    assert(values_view(acc@) =~= Seq::empty());
    proof {
        lemma_rest_of_itself(input@);
    }
    loop
        invariant
            is_rest_of(cur@, input@),
            match component_values_spec(cur@) {
                Some((r, vs)) => component_values_spec(input@) == Some((r, values_view(acc@) + vs)),
                None => component_values_spec(input@) is None,
            },
        decreases cur@.len(),
    {
        match component_value(cur) {
            None => {
                assert(values_view(acc@) + Seq::empty() =~= values_view(acc@));
                return Some((cur, acc));
            },
            Some((rest, v)) => {
                if rest.unicode_len() == cur.unicode_len() {
                    return None;
                }
                proof {
                    lemma_rest_of_rest(rest@, cur@, input@);
                    lemma_values_view_push(acc@, v);
                    if let Some((r2, vs)) = component_values_spec(rest@) {
                        assert(values_view(acc@) + (seq![value_view(v)] + vs) =~= values_view(acc@).push(
                            value_view(v),
                        ) + vs);
                    }
                }
                acc.push(v);
                cur = rest;
            },
        }
    }
}

/// A function at the start of the input: its name and `(`, its arguments
/// separated by `,`, and `)`.
pub fn function(input: &str) -> (res: Option<(&str, Function)>)
    ensures
        match function_spec(input@) {
            Some((r, f)) => res matches Some((rest, func)) && rest@ == r && f == (FunctionView {
                name: func.name@,
                value: values_view(func.value@),
            }),
            None => res is None,
        },
        res matches Some((rest, _)) ==> is_rest_of(rest@, input@) && rest@.len() < input@.len(),
    decreases input@.len(), 2nat,
{
    let (rest, name) = match function_token_str(input) {
        Some(found) => found,
        None => return None,
    };
    let (r, value) = match argument_list(rest) {
        Some(found) => found,
        None => return None,
    };
    proof {
        if let Some(n) = function_at(input@) {
            lemma_suffix_is_rest(input@, n + 1int);
        }
        lemma_rest_of_rest(r@, rest@, input@);
        lemma_after_char_is_rest(r@, ')');
        if let Some(r2) = after_char(r@, ')') {
            lemma_rest_of_rest(r2, r@, input@);
        }
    }
    match after_char_str(r, ')') {
        Some(r2) => Some((r2, Function { name, value })),
        None => None,
    }
}

/// One or more component values separated by `,`.
fn argument_list(input: &str) -> (res: Option<(&str, Vec<ComponentValue>)>)
    ensures
        match argument_list_spec(input@) {
            Some((r, vs)) => res matches Some((rest, v)) && rest@ == r && values_view(v@) == vs,
            None => res is None,
        },
        res matches Some((rest, _)) ==> is_rest_of(rest@, input@),
    decreases input@.len(), 5nat,
{
    let (mut cur, first) = match component_value(input) {
        Some(found) => found,
        None => return None,
    };
    let mut acc: Vec<ComponentValue> = Vec::new();
    proof {
        lemma_values_view_push(acc@, first);
        assert(values_view(acc@) =~= Seq::empty());
        if let Some((r2, vs)) = more_arguments_spec(cur@) {
            assert(seq![value_view(first)] + vs =~= Seq::empty().push(value_view(first)) + vs);
        }
    }
    acc.push(first);
    loop
        invariant
            is_rest_of(cur@, input@),
            match more_arguments_spec(cur@) {
                Some((r, vs)) => argument_list_spec(input@) == Some((r, values_view(acc@) + vs)),
                None => argument_list_spec(input@) is None,
            },
        decreases cur@.len(),
    {
        let t = match after_char_str(cur, ',') {
            Some(t) => t,
            None => {
                assert(values_view(acc@) + Seq::empty() =~= values_view(acc@));
                return Some((cur, acc));
            },
        };
        match component_value(t) {
            None => {
                assert(values_view(acc@) + Seq::empty() =~= values_view(acc@));
                return Some((cur, acc));
            },
            Some((rest, v)) => {
                if rest.unicode_len() == cur.unicode_len() {
                    return None;
                }
                proof {
                    lemma_after_char_is_rest(cur@, ',');
                    lemma_rest_of_rest(rest@, t@, cur@);
                    lemma_rest_of_rest(rest@, cur@, input@);
                    lemma_values_view_push(acc@, v);
                    if let Some((r2, vs)) = more_arguments_spec(rest@) {
                        assert(values_view(acc@) + (seq![value_view(v)] + vs) =~= values_view(acc@).push(
                            value_view(v),
                        ) + vs);
                    }
                }
                acc.push(v);
                cur = rest;
            },
        }
    }
}

/// One or more component values at the start of the input.
pub fn some_component_values(input: &str) -> (res: Option<(&str, Vec<ComponentValue>)>)
    ensures
        match some_component_values_spec(input@) {
            Some((r, vs)) => res matches Some((rest, v)) && rest@ == r && values_view(v@) == vs,
            None => res is None,
        },
        res matches Some((rest, _)) ==> is_rest_of(rest@, input@) && rest@.len() < input@.len(),
{
    let (rest, first) = match component_value(input) {
        Some(found) => found,
        None => return None,
    };
    let (r2, mut value) = match component_values(rest) {
        Some(found) => found,
        None => return None,
    };
    let ghost tail = value@;
    proof {
        lemma_values_view_prepend(first, tail);
        lemma_rest_of_rest(r2@, rest@, input@);
    }
    value.insert(0, first);
    assert(value@ =~= seq![first] + tail);
    Some((r2, value))
}

/// `!important`, with the white space after `!` and after it.
fn important(input: &str) -> (res: Option<&str>)
    ensures
        match important_spec(input@) {
            Some(r) => res matches Some(rest) && rest@ == r,
            None => res is None,
        },
        res matches Some(rest) ==> is_rest_of(rest@, input@),
{
    let t = match after_char_str(input, '!') {
        Some(t) => t,
        None => return None,
    };
    let u = skip_ws_str(t);
    let word = ['i', 'm', 'p', 'o', 'r', 't', 'a', 'n', 't'];
    let n = u.unicode_len();
    if n < 9 {
        return None;
    }
    let mut i: usize = 0;
    while i < 9
        invariant
            i <= 9,
            n == u@.len(),
            n >= 9,
            u@ == skip_ws(t@),
            after_char(input@, '!') == Some(t@),
            word@ == seq!['i', 'm', 'p', 'o', 'r', 't', 'a', 'n', 't'],
            forall|j: int| 0 <= j < i ==> u@[j] == word@[j],
        decreases 9 - i,
    {
        if u.get_char(i) != word[i] {
            proof {
                if u@.subrange(0, 9) == word@ {
                    assert(u@.subrange(0, 9)[i as int] == u@[i as int]);
                }
            }
            return None;
        }
        i += 1;
    }
    assert(u@.subrange(0, 9) =~= word@);
    proof {
        lemma_after_char_is_rest(input@, '!');
        lemma_skip_ws_is_rest(t@);
        lemma_suffix_is_rest(u@, 9);
        lemma_skip_ws_is_rest(u@.subrange(9, n as int));
        lemma_rest_of_rest(u@, t@, input@);
        lemma_rest_of_rest(u@.subrange(9, n as int), u@, input@);
        lemma_rest_of_rest(skip_ws(u@.subrange(9, n as int)), u@.subrange(9, n as int), input@);
    }
    Some(skip_ws_str(substring(u, 9, n)))
}

/// A declaration at the start of the input: a name, white space, `:`, one or
/// more component values, and `!important` where it follows.
pub fn declaration(input: &str) -> (res: Option<(&str, Declaration)>)
    ensures
        match declaration_spec(input@) {
            Some((r, d)) => res matches Some((rest, decl)) && rest@ == r && declaration_view(decl) == d,
            None => res is None,
        },
        res matches Some((rest, _)) ==> is_rest_of(rest@, input@),
{
    let (rest, name) = match ident_token_str(input) {
        Some(found) => found,
        None => return None,
    };
    let t = match after_char_str(skip_ws_str(rest), ':') {
        Some(t) => t,
        None => return None,
    };
    let (r, value) = match some_component_values(t) {
        Some(found) => found,
        None => return None,
    };
    proof {
        lemma_ident_bounds(input@, 0);
        if let Some(n) = ident_at(input@, 0) {
            lemma_suffix_is_rest(input@, n as int);
        }
        lemma_skip_ws_is_rest(rest@);
        lemma_rest_of_rest(skip_ws(rest@), rest@, input@);
        lemma_after_char_is_rest(skip_ws(rest@), ':');
        lemma_rest_of_rest(t@, skip_ws(rest@), input@);
        lemma_rest_of_rest(r@, t@, input@);
    }
    match important(r) {
        Some(r2) => {
            proof {
                lemma_rest_of_rest(r2@, r@, input@);
            }
            Some((r2, Declaration { name, value, important: true }))
        },
        None => Some((r, Declaration { name, value, important: false })),
    }
}

/// A declaration and `;`, with the white space around them.
fn terminated_declaration(input: &str) -> (res: Option<(&str, Declaration)>)
    ensures
        match terminated_declaration_spec(input@) {
            Some((r, d)) => res matches Some((rest, decl)) && rest@ == r && declaration_view(decl) == d,
            None => res is None,
        },
        res matches Some((rest, _)) ==> is_rest_of(rest@, input@),
{
    let (r, decl) = match declaration(skip_ws_str(input)) {
        Some(found) => found,
        None => return None,
    };
    proof {
        lemma_skip_ws_is_rest(input@);
        lemma_rest_of_rest(r@, skip_ws(input@), input@);
        lemma_after_char_is_rest(r@, ';');
        if let Some(r2) = after_char(r@, ';') {
            lemma_rest_of_rest(r2, r@, input@);
            lemma_skip_ws_is_rest(r2);
            lemma_rest_of_rest(skip_ws(r2), r2, input@);
        }
    }
    match after_char_str(r, ';') {
        Some(r2) => Some((skip_ws_str(r2), decl)),
        None => None,
    }
}

/// Any number of declarations at the start of the input, each ending in `;`.
pub fn declaration_list(input: &str) -> (res: Option<(&str, Vec<Declaration>)>)
    ensures
        match declaration_list_spec(input@) {
            Some((r, ds)) => res matches Some((rest, v)) && rest@ == r && declarations_view(v@) == ds,
            None => res is None,
        },
        res matches Some((rest, _)) ==> is_rest_of(rest@, input@),
{
    let mut acc: Vec<Declaration> = Vec::new();
    let mut cur = input;
    assert(declarations_view(acc@) =~= Seq::empty());
    proof {
        lemma_rest_of_itself(input@);
    }
    loop
        invariant
            is_rest_of(cur@, input@),
            match declaration_list_spec(cur@) {
                Some((r, ds)) => declaration_list_spec(input@) == Some((r, declarations_view(acc@) + ds)),
                None => declaration_list_spec(input@) is None,
            },
        decreases cur@.len(),
    {
        match terminated_declaration(cur) {
            None => {
                assert(declarations_view(acc@) + Seq::empty() =~= declarations_view(acc@));
                return Some((cur, acc));
            },
            Some((rest, d)) => {
                if rest.unicode_len() == cur.unicode_len() {
                    return None;
                }
                proof {
                    lemma_rest_of_rest(rest@, cur@, input@);
                    assert(declarations_view(acc@.push(d)) =~= declarations_view(acc@).push(
                        declaration_view(d),
                    ));
                    if let Some((r2, ds)) = declaration_list_spec(rest@) {
                        assert(declarations_view(acc@) + (seq![declaration_view(d)] + ds)
                            =~= declarations_view(acc@).push(declaration_view(d)) + ds);
                    }
                }
                acc.push(d);
                cur = rest;
            },
        }
    }
}

/// The name of an at-rule and its prelude, at the start of the input.
fn at_rule_head(input: &str) -> (res: Option<(&str, (&str, Vec<ComponentValue>))>)
    ensures
        match at_rule_head_spec(input@) {
            Some((r, (name, vs))) => res matches Some((rest, (nm, v))) && rest@ == r && nm@ == name
                && values_view(v@) == vs,
            None => res is None,
        },
        res matches Some((rest, _)) ==> is_rest_of(rest@, input@),
{
    let (rest, name) = match at_keyword_str(input) {
        Some(found) => found,
        None => return None,
    };
    proof {
        lemma_ident_bounds(input@, 1);
        if let Some(n) = ident_at(input@, 1) {
            lemma_suffix_is_rest(input@, 1 + n as int);
        }
    }
    match component_values(rest) {
        Some((r, prelude)) => {
            proof {
                lemma_rest_of_rest(r@, rest@, input@);
            }
            Some((r, (name, prelude)))
        },
        None => None,
    }
}

/// An at-rule that ends in `;`, at the start of the input.
pub fn regular_at_rule(input: &str) -> (res: Option<(&str, AtRule)>)
    ensures
        match regular_at_rule_spec(input@) {
            Some((r, a)) => res matches Some((rest, rule)) && rest@ == r && at_rule_view(rule) == a,
            None => res is None,
        },
        res matches Some((rest, _)) ==> is_rest_of(rest@, input@),
{
    let (r, (name, prelude)) = match at_rule_head(input) {
        Some(found) => found,
        None => return None,
    };
    proof {
        lemma_after_char_is_rest(r@, ';');
        if let Some(r2) = after_char(r@, ';') {
            lemma_rest_of_rest(r2, r@, input@);
        }
    }
    match after_char_str(r, ';') {
        Some(r2) => Some((r2, AtRule { name, prelude, block: None })),
        None => None,
    }
}

/// An at-rule that ends in a block in `{}`, at the start of the input.
pub fn nested_at_rule(input: &str) -> (res: Option<(&str, AtRule)>)
    ensures
        match nested_at_rule_spec(input@) {
            Some((r, a)) => res matches Some((rest, rule)) && rest@ == r && at_rule_view(rule) == a,
            None => res is None,
        },
        res matches Some((rest, _)) ==> is_rest_of(rest@, input@),
{
    let (r, (name, prelude)) = match at_rule_head(input) {
        Some(found) => found,
        None => return None,
    };
    match simple_curly_block(r) {
        Some((r2, block)) => {
            proof {
                lemma_rest_of_rest(r2@, r@, input@);
            }
            Some((r2, AtRule { name, prelude, block: Some(block) }))
        },
        None => None,
    }
}

/// An at-rule at the start of the input: one that ends in `;`, else one that
/// ends in a block.
pub fn at_rule(input: &str) -> (res: Option<(&str, AtRule)>)
    ensures
        match at_rule_spec(input@) {
            Some((r, a)) => res matches Some((rest, rule)) && rest@ == r && at_rule_view(rule) == a,
            None => res is None,
        },
        res matches Some((rest, _)) ==> is_rest_of(rest@, input@),
{
    if let Some(found) = regular_at_rule(input) {
        return Some(found);
    }
    nested_at_rule(input)
}

/// A qualified rule at the start of the input: one or more component
/// values, then a block of contents in `{}` with the white space around it.
pub fn qualified_rule(input: &str) -> (res: Option<(&str, QualifiedRule)>)
    ensures
        match qualified_rule_spec(input@) {
            Some((r, q)) => res matches Some((rest, rule)) && rest@ == r && qualified_rule_view(rule) == q,
            None => res is None,
        },
        res matches Some((rest, _)) ==> is_rest_of(rest@, input@) && rest@.len() < input@.len(),
    decreases input@.len(), 1nat,
{
    let (r, prelude) = match some_component_values(input) {
        Some(found) => found,
        None => return None,
    };
    proof {
        lemma_skip_ws_is_rest(r@);
        lemma_rest_of_rest(skip_ws(r@), r@, input@);
    }
    let (r2, block) = match curly_block_content(skip_ws_str(r)) {
        Some(found) => found,
        None => return None,
    };
    proof {
        lemma_skip_ws_is_rest(r2@);
        lemma_rest_of_rest(r2@, skip_ws(r@), input@);
        lemma_rest_of_rest(skip_ws(r2@), r2@, input@);
    }
    Some((skip_ws_str(r2), QualifiedRule { prelude, block }))
}

/// `{`, block contents with the white space around them, and `}`.
fn curly_block_content(input: &str) -> (res: Option<(&str, Vec<BlockContent>)>)
    ensures
        match curly_block_content_spec(input@) {
            Some((r, cs)) => res matches Some((rest, v)) && rest@ == r && contents_view(v@) == cs,
            None => res is None,
        },
        res matches Some((rest, _)) ==> is_rest_of(rest@, input@) && rest@.len() < input@.len(),
    decreases input@.len(), 0nat,
{
    let t = match after_char_str(input, '{') {
        Some(t) => t,
        None => return None,
    };
    proof {
        lemma_after_char_is_rest(input@, '{');
        lemma_skip_ws_is_rest(t@);
        lemma_rest_of_rest(skip_ws(t@), t@, input@);
    }
    let (r, contents) = match block_contents(skip_ws_str(t)) {
        Some(found) => found,
        None => return None,
    };
    proof {
        lemma_skip_ws_is_rest(r@);
        lemma_rest_of_rest(r@, skip_ws(t@), input@);
        lemma_rest_of_rest(skip_ws(r@), r@, input@);
        lemma_after_char_is_rest(skip_ws(r@), '}');
        if let Some(r2) = after_char(skip_ws(r@), '}') {
            lemma_rest_of_rest(r2, skip_ws(r@), input@);
        }
    }
    match after_char_str(skip_ws_str(r), '}') {
        Some(r2) => Some((r2, contents)),
        None => None,
    }
}

/// One item of a block: a declaration ending in `;`, else an at-rule, else
/// a qualified rule.
fn block_content(input: &str) -> (res: Option<(&str, BlockContent)>)
    ensures
        match block_content_spec(input@) {
            Some((r, c)) => res matches Some((rest, content)) && rest@ == r && content_view(content) == c,
            None => res is None,
        },
        res matches Some((rest, _)) ==> is_rest_of(rest@, input@),
    decreases input@.len(), 2nat,
{
    if let Some((rest, decl)) = terminated_declaration(input) {
        return Some((rest, BlockContent::Declaration(decl)));
    }
    if let Some((rest, rule)) = at_rule(input) {
        return Some((rest, BlockContent::AtRule(rule)));
    }
    if let Some((rest, rule)) = qualified_rule(input) {
        return Some((rest, BlockContent::QualifiedRule(rule)));
    }
    None
}

/// Any number of block items.
fn block_contents(input: &str) -> (res: Option<(&str, Vec<BlockContent>)>)
    ensures
        match block_contents_spec(input@) {
            Some((r, cs)) => res matches Some((rest, v)) && rest@ == r && contents_view(v@) == cs,
            None => res is None,
        },
        res matches Some((rest, _)) ==> is_rest_of(rest@, input@),
    decreases input@.len(), 3nat,
{
    let mut acc: Vec<BlockContent> = Vec::new();
    let mut cur = input;
    assert(contents_view(acc@) =~= Seq::empty());
    proof {
        lemma_rest_of_itself(input@);
    }
    loop
        invariant
            is_rest_of(cur@, input@),
            match block_contents_spec(cur@) {
                Some((r, cs)) => block_contents_spec(input@) == Some((r, contents_view(acc@) + cs)),
                None => block_contents_spec(input@) is None,
            },
        decreases cur@.len(),
    {
        match block_content(cur) {
            None => {
                assert(contents_view(acc@) + Seq::empty() =~= contents_view(acc@));
                return Some((cur, acc));
            },
            Some((rest, c)) => {
                if rest.unicode_len() == cur.unicode_len() {
                    return None;
                }
                proof {
                    lemma_rest_of_rest(rest@, cur@, input@);
                    lemma_contents_view_push(acc@, c);
                    if let Some((r2, cs)) = block_contents_spec(rest@) {
                        assert(contents_view(acc@) + (seq![content_view(c)] + cs) =~= contents_view(
                            acc@,
                        ).push(content_view(c)) + cs);
                    }
                }
                acc.push(c);
                cur = rest;
            },
        }
    }
}

/// Any number of at-rules and declarations ending in `;`, at the start of
/// the input.
pub fn declaration_rule_list(input: &str) -> (res: Option<(&str, Vec<BlockContent>)>)
    ensures
        match declaration_rule_list_spec(input@) {
            Some((r, cs)) => res matches Some((rest, v)) && rest@ == r && contents_view(v@) == cs,
            None => res is None,
        },
        res matches Some((rest, _)) ==> is_rest_of(rest@, input@),
{
    let mut acc: Vec<BlockContent> = Vec::new();
    let mut cur = input;
    assert(contents_view(acc@) =~= Seq::empty());
    proof {
        lemma_rest_of_itself(input@);
    }
    loop
        invariant
            is_rest_of(cur@, input@),
            match declaration_rule_list_spec(cur@) {
                Some((r, cs)) => declaration_rule_list_spec(input@) == Some((r, contents_view(acc@) + cs)),
                None => declaration_rule_list_spec(input@) is None,
            },
        decreases cur@.len(),
    {
        let item = if let Some((rest, rule)) = at_rule(cur) {
            Some((rest, BlockContent::AtRule(rule)))
        } else if let Some((r, decl)) = declaration(cur) {
            if let Some(r2) = after_char_str(r, ';') {
                proof {
                    lemma_after_char_is_rest(r@, ';');
                    lemma_rest_of_rest(r2@, r@, cur@);
                }
                Some((r2, BlockContent::Declaration(decl)))
            } else {
                None
            }
        } else {
            None
        };
        match item {
            None => {
                assert(contents_view(acc@) + Seq::empty() =~= contents_view(acc@));
                return Some((cur, acc));
            },
            Some((rest, c)) => {
                if rest.unicode_len() == cur.unicode_len() {
                    return None;
                }
                proof {
                    lemma_rest_of_rest(rest@, cur@, input@);
                    lemma_contents_view_push(acc@, c);
                    if let Some((r2, cs)) = declaration_rule_list_spec(rest@) {
                        assert(contents_view(acc@) + (seq![content_view(c)] + cs) =~= contents_view(
                            acc@,
                        ).push(content_view(c)) + cs);
                    }
                }
                acc.push(c);
                cur = rest;
            },
        }
    }
}

} // verus!

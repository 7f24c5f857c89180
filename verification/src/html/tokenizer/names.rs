//! The names the character tokenizer builds are lower-case: tag names,
//! attribute names and DOCTYPE names take an ASCII upper-case letter as its
//! lower-case letter, so no token it hands out has an upper-case letter in a
//! name.

use vstd::prelude::*;
use super::state::State;
use super::token::{TokenView, start_tag_view, end_tag_view, doctype_view, char_tokens};
use super::transition::{
    REPLACEMENT_CHARACTER, Char, TokenizerView, Step, ascii_lower, is_ascii_upper, dedup, step, run,
    next, data_state, rcdata_state, tag_open_state, end_tag_open_state, tag_name_state,
    rcdata_less_than_sign_state, rcdata_end_tag_open_state, rcdata_invalid_end_tag,
    rcdata_end_tag_name_state, self_closing_start_tag_state, before_attribute_name_state,
    attribute_name_state, after_attribute_name_state, before_attribute_value_state,
    attribute_value_quoted_state, attribute_value_unquoted_state, after_attribute_value_quoted_state,
    bogus_comment_state, markup_declaration_open_state, doctype_state, before_doctype_name_state,
    doctype_name_state, after_doctype_name_state, bogus_doctype_state, character_reference_state,
};
use crate::fast_html::tokenizer::token::AttributeView;
use crate::fast_html::tokenizer::transition::remove_each;

verus! {

/// No ASCII upper-case letter occurs in the text.
pub open spec fn no_ascii_upper(s: Seq<char>) -> bool {
    forall|i: int| 0 <= i < s.len() ==> !is_ascii_upper(#[trigger] s[i])
}

/// The names of a token are lower-case: a tag's name and the names of its
/// attributes, and a DOCTYPE's name.
pub open spec fn lower_names(t: TokenView) -> bool {
    match t {
        TokenView::Tag { tag_name, attributes, .. } => no_ascii_upper(tag_name) && forall|j: int|
            0 <= j < attributes.len() ==> no_ascii_upper(#[trigger] attributes[j].name),
        TokenView::DOCTYPE { name: Some(n), .. } => no_ascii_upper(n),
        _ => true,
    }
}

/// The token under construction, the queued tokens and the last start tag
/// queued all have lower-case names.
pub open spec fn names_lower(s: TokenizerView) -> bool {
    &&& (s.current_token matches Some(t) ==> lower_names(t))
    &&& forall|k: int| 0 <= k < s.output.len() ==> lower_names(#[trigger] s.output[k])
    &&& (s.last_emitted_start_tag matches Some(t) ==> lower_names(t))
}

/// Whether a round keeps the names lower-case and hands out a token with
/// lower-case names, if any.
pub open spec fn keeps_names_lower(r: Step) -> bool {
    r matches Some((s2, t)) ==> names_lower(s2) && (t matches Some(tok) ==> lower_names(tok))
}

pub proof fn lemma_ascii_lower_is_not_upper(c: char)
    ensures
        !is_ascii_upper(ascii_lower(c)),
{
    if is_ascii_upper(c) {
        let u = c as u32;
        assert(65 <= u <= 90);
        assert((u + 32) as char as u32 == u + 32);
    }
}

proof fn lemma_push_lower(s: Seq<char>, c: char)
    requires
        no_ascii_upper(s),
        !is_ascii_upper(c),
    ensures
        no_ascii_upper(s.push(c)),
{
    assert forall|i: int| 0 <= i < s.push(c).len() implies !is_ascii_upper(#[trigger] s.push(c)[i]) by {
        if i < s.len() {
            assert(s.push(c)[i] == s[i]);
        }
    }
}

/// Removing attributes keeps the names of those that stay.
proof fn lemma_remove_each_lower(attrs: Seq<AttributeView>, idxs: Seq<usize>, n: int)
    requires
        forall|j: int| 0 <= j < attrs.len() ==> no_ascii_upper(#[trigger] attrs[j].name),
    ensures
        remove_each(attrs, idxs, n) matches Some(r) ==> forall|j: int|
            0 <= j < r.len() ==> no_ascii_upper(#[trigger] r[j].name),
    decreases n,
{
    if n > 0 {
        lemma_remove_each_lower(attrs, idxs, n - 1);
        if let Some(cur) = remove_each(attrs, idxs, n - 1) {
            if idxs[n - 1] < cur.len() {
                let k = idxs[n - 1] as int;
                let r = cur.remove(k);
                assert forall|j: int| 0 <= j < r.len() implies no_ascii_upper(#[trigger] r[j].name) by {
                    if j < k {
                        assert(r[j] == cur[j]);
                    } else {
                        assert(r[j] == cur[j + 1]);
                    }
                }
            }
        }
    }
}

proof fn lemma_dedup_lower(t: TokenView)
    requires
        lower_names(t),
    ensures
        dedup(t) matches Some(t2) ==> lower_names(t2),
{
    if let TokenView::Tag { attributes, .. } = t {
        let idxs = crate::fast_html::tokenizer::transition::dup_indices(attributes);
        lemma_remove_each_lower(attributes, idxs, idxs.len() as int);
    }
}

proof fn lemma_will_emit_lower(s: TokenizerView, t: TokenView)
    requires
        names_lower(s),
        lower_names(t),
    ensures
        s.will_emit(t) matches Some(s2) ==> names_lower(s2),
{
    lemma_dedup_lower(t);
    if let Some(t2) = dedup(t) {
        let s2 = s.will_emit(t).unwrap();
        assert forall|k: int| 0 <= k < s2.output.len() implies lower_names(#[trigger] s2.output[k]) by {
            if k < s.output.len() {
                assert(s2.output[k] == s.output[k]);
            }
        }
    }
}

proof fn lemma_pop_output_lower(s: TokenizerView)
    requires
        names_lower(s),
    ensures
        keeps_names_lower(s.pop_output()),
{
    if s.output.len() > 0 {
        let s2 = s.pop_output().unwrap().0;
        assert forall|k: int| 0 <= k < s2.output.len() implies lower_names(#[trigger] s2.output[k]) by {
            assert(s2.output[k] == s.output[k + 1]);
        }
        assert(lower_names(s.output[0]));
    }
}

proof fn lemma_emit_current_lower(s: TokenizerView)
    requires
        names_lower(s),
    ensures
        keeps_names_lower(s.emit_current_token()),
{
    if let Some(t) = s.current_token {
        lemma_will_emit_lower(s, t);
        if let Some(w) = s.will_emit(t) {
            lemma_pop_output_lower(w);
        }
    }
}

proof fn lemma_emit_tmp_buffer_lower(s: TokenizerView)
    requires
        names_lower(s),
    ensures
        names_lower(s.emit_tmp_buffer()),
{
    let s2 = s.emit_tmp_buffer();
    assert forall|k: int| 0 <= k < s2.output.len() implies lower_names(#[trigger] s2.output[k]) by {
        if k < s.output.len() {
            assert(s2.output[k] == s.output[k]);
        } else {
            assert(s2.output[k] == char_tokens(s.tmp_buffer)[k - s.output.len()]);
        }
    }
}

/// The token editing steps keep the names lower-case where what they add is
/// not an upper-case letter.
proof fn lemma_edits_lower(s: TokenizerView, c: char)
    requires
        names_lower(s),
    ensures
        !is_ascii_upper(c) ==> (s.append_char_to_tag_name(c) matches Some(s2) ==> names_lower(s2)),
        !is_ascii_upper(c) ==> (s.append_char_to_attribute_name(c) matches Some(s2) ==> names_lower(s2)),
        !is_ascii_upper(c) ==> (s.append_char_to_doctype_name(c) matches Some(s2) ==> names_lower(s2)),
        s.append_char_to_attribute_value(c) matches Some(s2) ==> names_lower(s2),
        s.append_char_to_token_data(c) matches Some(s2) ==> names_lower(s2),
        s.set_self_closing() matches Some(s2) ==> names_lower(s2),
        s.force_quirks_on_current() matches Some(s2) ==> names_lower(s2),
        !is_ascii_upper(c) ==> (s.new_attribute(AttributeView { name: seq![c], value: Seq::empty() }) matches Some(
            s2,
        ) ==> names_lower(s2)),
        s.new_attribute(AttributeView { name: Seq::empty(), value: Seq::empty() }) matches Some(s2)
            ==> names_lower(s2),
{
    match s.current_token {
        Some(TokenView::Tag { tag_name, attributes, .. }) => {
            if !is_ascii_upper(c) {
                lemma_push_lower(tag_name, c);
            }
            if attributes.len() > 0 {
                let last = attributes.last();
                let init = attributes.drop_last();
                assert(no_ascii_upper(last.name));
                if !is_ascii_upper(c) {
                    lemma_push_lower(last.name, c);
                }
                let named = init.push(AttributeView { name: last.name.push(c), value: last.value });
                let valued = init.push(AttributeView { name: last.name, value: last.value.push(c) });
                assert forall|j: int| 0 <= j < init.len() implies no_ascii_upper(#[trigger] init[j].name) by {
                    assert(init[j] == attributes[j]);
                }
                assert(!is_ascii_upper(c) ==> forall|j: int|
                    0 <= j < named.len() ==> no_ascii_upper(#[trigger] named[j].name));
                assert(forall|j: int| 0 <= j < valued.len() ==> no_ascii_upper(#[trigger] valued[j].name));
            }
            let one = AttributeView { name: seq![c], value: Seq::empty() };
            let none = AttributeView { name: Seq::empty(), value: Seq::empty() };
            assert(!is_ascii_upper(c) ==> no_ascii_upper(one.name));
            assert(no_ascii_upper(none.name));
            assert(!is_ascii_upper(c) ==> forall|j: int|
                0 <= j < attributes.push(one).len() ==> no_ascii_upper(#[trigger] attributes.push(one)[j].name));
            assert(forall|j: int|
                0 <= j < attributes.push(none).len() ==> no_ascii_upper(#[trigger] attributes.push(none)[j].name));
        },
        Some(TokenView::DOCTYPE { name: Some(n), .. }) => {
            if !is_ascii_upper(c) {
                lemma_push_lower(n, c);
            }
        },
        _ => {},
    }
}

/// Taking characters leaves the tokens alone.
proof fn lemma_consume_n_keeps_tokens(s: TokenizerView, n: nat)
    ensures
        s.consume_n(n).current_token == s.current_token,
        s.consume_n(n).output == s.output,
        s.consume_n(n).last_emitted_start_tag == s.last_emitted_start_tag,
    decreases n,
{
    if n > 0 {
        lemma_consume_n_keeps_tokens(s.consume_next().0, (n - 1) as nat);
    }
}

/// A fresh token with a name of at most one character that is not an
/// upper-case letter has lower-case names.
proof fn lemma_fresh_tokens_lower(c: char)
    ensures
        lower_names(start_tag_view()),
        lower_names(end_tag_view()),
        lower_names(doctype_view()),
        lower_names(doctype_view().with_force_quirks(true)),
        !is_ascii_upper(c) ==> lower_names(doctype_view().with_doctype_name_char(c)),
        lower_names(TokenView::Comment(Seq::empty())),
        lower_names(TokenView::Character(c)),
        lower_names(TokenView::EOF),
{
}

/// The names the tokenizer builds stay lower-case in every round, and every
/// token a round hands out has lower-case names.
#[verifier::rlimit(100)]
pub proof fn law_names_stay_lower_case(s: TokenizerView)
    requires
        names_lower(s),
    ensures
        keeps_names_lower(step(s)),
{
    let (s1, ch) = s.consume_next();
    let cur = s1.current_character;
    assert(names_lower(s1));
    assert(ch matches Char::ch(c) ==> c == cur);
    assert(!is_ascii_upper(REPLACEMENT_CHARACTER));
    lemma_ascii_lower_is_not_upper(cur);
    lemma_fresh_tokens_lower(cur);
    lemma_fresh_tokens_lower(ascii_lower(cur));
    lemma_fresh_tokens_lower(REPLACEMENT_CHARACTER);
    lemma_edits_lower(s1, cur);
    lemma_edits_lower(s1, ascii_lower(cur));
    lemma_edits_lower(s1, REPLACEMENT_CHARACTER);
    lemma_emit_current_lower(s1);
    lemma_emit_current_lower(s1.switch_to(State::Data));
    match s.state {
        State::Data => {
            lemma_emit_current_lower(s1.new_token(TokenView::EOF));
            lemma_emit_current_lower(s1.new_token(TokenView::Character(cur)));
            assert(keeps_names_lower(data_state(s)));
        },
        State::RCDATA => {
            lemma_emit_current_lower(s1.new_token(TokenView::EOF));
            lemma_emit_current_lower(s1.new_token(TokenView::Character(cur)));
            lemma_emit_current_lower(s1.new_token(TokenView::Character(REPLACEMENT_CHARACTER)));
            assert(keeps_names_lower(rcdata_state(s)));
        },
        State::TagOpen => {
            lemma_will_emit_lower(s1, TokenView::Character('<'));
            if let Some(w) = s1.will_emit(TokenView::Character('<')) {
                lemma_emit_current_lower(w.new_token(TokenView::EOF));
            }
            assert(keeps_names_lower(tag_open_state(s)));
        },
        State::EndTagOpen => {
            lemma_will_emit_lower(s1, TokenView::Character('<'));
            if let Some(w) = s1.will_emit(TokenView::Character('<')) {
                lemma_will_emit_lower(w, TokenView::Character('/'));
                if let Some(w2) = w.will_emit(TokenView::Character('/')) {
                    lemma_emit_current_lower(w2.new_token(TokenView::EOF));
                }
            }
            assert(keeps_names_lower(end_tag_open_state(s)));
        },
        State::TagName => {
            lemma_emit_current_lower(s1.new_token(TokenView::EOF));
            assert(keeps_names_lower(tag_name_state(s)));
        },
        State::RCDATALessThanSign => {
            lemma_will_emit_lower(s1, TokenView::Character('<'));
            assert(keeps_names_lower(rcdata_less_than_sign_state(s)));
        },
        State::RCDATAEndTagOpen => {
            lemma_will_emit_lower(s1, TokenView::Character('<'));
            if let Some(w) = s1.will_emit(TokenView::Character('<')) {
                lemma_will_emit_lower(w, TokenView::Character('/'));
            }
            assert(keeps_names_lower(rcdata_end_tag_open_state(s)));
        },
        State::RCDATAEndTagName => {
            lemma_will_emit_lower(s1, TokenView::Character('<'));
            if let Some(w) = s1.will_emit(TokenView::Character('<')) {
                lemma_will_emit_lower(w, TokenView::Character('/'));
                if let Some(w2) = w.will_emit(TokenView::Character('/')) {
                    lemma_emit_tmp_buffer_lower(w2);
                }
            }
            assert(keeps_names_lower(rcdata_invalid_end_tag(s1)));
            assert(keeps_names_lower(rcdata_end_tag_name_state(s)));
        },
        State::SelfClosingStartTag => {
            lemma_emit_current_lower(s1.new_token(TokenView::EOF));
            if let Some(w) = s1.set_self_closing() {
                lemma_emit_current_lower(w.switch_to(State::Data));
            }
            assert(keeps_names_lower(self_closing_start_tag_state(s)));
        },
        State::BeforeAttributeName => {
            assert(keeps_names_lower(before_attribute_name_state(s)));
        },
        State::AttributeName => {
            assert(keeps_names_lower(attribute_name_state(s)));
        },
        State::AfterAttributeName => {
            lemma_emit_current_lower(s1.new_token(TokenView::EOF));
            assert(keeps_names_lower(after_attribute_name_state(s)));
        },
        State::BeforeAttributeValue => {
            assert(keeps_names_lower(before_attribute_value_state(s)));
        },
        State::AttributeValueDoubleQuoted => {
            lemma_emit_current_lower(s1.new_token(TokenView::EOF));
            assert(keeps_names_lower(attribute_value_quoted_state(s, '"', State::AttributeValueDoubleQuoted)));
        },
        State::AttributeValueSingleQuoted => {
            lemma_emit_current_lower(s1.new_token(TokenView::EOF));
            assert(keeps_names_lower(
                attribute_value_quoted_state(s, '\'', State::AttributeValueSingleQuoted),
            ));
        },
        State::AttributeValueUnQuoted => {
            lemma_emit_current_lower(s1.new_token(TokenView::EOF));
            assert(keeps_names_lower(attribute_value_unquoted_state(s)));
        },
        State::AfterAttributeValueQuoted => {
            lemma_emit_current_lower(s1.new_token(TokenView::EOF));
            assert(keeps_names_lower(after_attribute_value_quoted_state(s)));
        },
        State::BogusComment => {
            if let Some(t) = s1.current_token {
                lemma_will_emit_lower(s1, t);
                if let Some(w) = s1.will_emit_current() {
                    lemma_emit_current_lower(w.new_token(TokenView::EOF));
                }
            }
            assert(keeps_names_lower(bogus_comment_state(s)));
        },
        State::MarkupDeclarationOpen => {
            lemma_consume_n_keeps_tokens(s, 2);
            lemma_consume_n_keeps_tokens(s, 7);
            assert(keeps_names_lower(markup_declaration_open_state(s)));
        },
        State::DOCTYPE => {
            let w0 = s1.new_token(doctype_view().with_force_quirks(true));
            lemma_will_emit_lower(w0, doctype_view().with_force_quirks(true));
            if let Some(w) = w0.will_emit_current() {
                lemma_emit_current_lower(w.new_token(TokenView::EOF));
            }
            assert(keeps_names_lower(doctype_state(s)));
        },
        State::BeforeDOCTYPEName => {
            let w0 = s1.new_token(doctype_view().with_force_quirks(true));
            lemma_will_emit_lower(w0, doctype_view().with_force_quirks(true));
            lemma_emit_current_lower(w0.switch_to(State::Data));
            if let Some(w) = w0.will_emit_current() {
                lemma_emit_current_lower(w.new_token(TokenView::EOF));
            }
            assert(keeps_names_lower(before_doctype_name_state(s)));
        },
        State::DOCTYPEName => {
            if let Some(q) = s1.force_quirks_on_current() {
                if let Some(t) = q.current_token {
                    lemma_will_emit_lower(q, t);
                    if let Some(w) = q.will_emit_current() {
                        lemma_emit_current_lower(w.new_token(TokenView::EOF));
                    }
                }
            }
            assert(keeps_names_lower(doctype_name_state(s)));
        },
        State::AfterDOCTYPEName => {
            if let Some(q) = s1.force_quirks_on_current() {
                if let Some(t) = q.current_token {
                    lemma_will_emit_lower(q, t);
                    if let Some(w) = q.will_emit_current() {
                        lemma_emit_current_lower(w.new_token(TokenView::EOF));
                    }
                }
            }
            assert(keeps_names_lower(after_doctype_name_state(s)));
        },
        State::BogusDOCTYPE => {
            if let Some(t) = s1.current_token {
                lemma_will_emit_lower(s1, t);
                if let Some(w) = s1.will_emit_current() {
                    lemma_emit_current_lower(w.new_token(TokenView::EOF));
                }
            }
            assert(keeps_names_lower(bogus_doctype_state(s)));
        },
        State::CharacterReference => {
            let t = s1.clear_tmp().push_tmp('&');
            lemma_emit_tmp_buffer_lower(t);
            assert(keeps_names_lower(character_reference_state(s)));
        },
        _ => {
            assert(step(s) is None);
        },
    }
}

/// Every token the tokenizer hands out has lower-case names, and the names
/// stay lower-case after it: for a tokenizer that starts with lower-case
/// names, as a new one does (it has no tokens yet).
pub proof fn law_next_token_names_lower_case(s: TokenizerView, fuel: nat)
    requires
        names_lower(s),
    ensures
        next(s, fuel) matches Some((s2, t)) ==> names_lower(s2) && lower_names(t),
{
    if s.output.len() > 0 {
        lemma_pop_output_lower(s);
    } else {
        lemma_run_lower(s, fuel);
    }
}

proof fn lemma_run_lower(s: TokenizerView, fuel: nat)
    requires
        names_lower(s),
    ensures
        run(s, fuel) matches Some((s2, t)) ==> names_lower(s2) && lower_names(t),
    decreases fuel,
{
    if fuel > 0 {
        law_names_stay_lower_case(s);
        if let Some((s2, None)) = step(s) {
            lemma_run_lower(s2, (fuel - 1) as nat);
        }
    }
}

} // verus!

//! The HTML tokenizer over characters: a state machine that reads the input one
//! character at a time and hands out tags, comments, characters and DOCTYPEs.

pub mod state;
pub mod token;
pub mod transition;
pub mod names;
mod states;

use vstd::prelude::*;
use vstd::string::StrSliceExecFns;
use std::collections::VecDeque;
use ecow::{EcoString, EcoVec};
use crate::eco::{
    eco_as_str, eco_chars, eco_clear, eco_new, eco_push, index_list, indices_get, indices_len,
    indices_new, indices_push, str_eq, string_push,
};
use crate::fast_html::tokenizer::lemma_remove_each_prefix;
use crate::fast_html::tokenizer::token::AttributeView;
use crate::fast_html::tokenizer::transition::{dup_indices, dup_indices_upto, remove_each};
use self::state::State;
use self::token::{attrs_view, char_tokens, lemma_char_tokens_prefix, Attribute, Token, TokenView};
use self::transition::{
    REPLACEMENT_CHARACTER, Char, TokenizerView, Step, ascii_lower, classify, is_ascii_alpha,
    is_ascii_lower, is_ascii_upper, is_unicode_ws, lower_seq, dash_dash, doctype_word, cdata_word,
    step, run, next, yields, lemma_run_deterministic, data_state, rcdata_state, tag_open_state,
    end_tag_open_state, tag_name_state, rcdata_less_than_sign_state, rcdata_end_tag_open_state,
    rcdata_invalid_end_tag, rcdata_end_tag_name_state, self_closing_start_tag_state,
    before_attribute_name_state, attribute_name_state, after_attribute_name_state,
    before_attribute_value_state, attribute_value_quoted_state, attribute_value_unquoted_state,
    after_attribute_value_quoted_state, bogus_comment_state, markup_declaration_open_state,
    doctype_state, before_doctype_name_state, doctype_name_state, after_doctype_name_state,
    bogus_doctype_state, character_reference_state,
};

verus! {

/// A token slot by its view.
pub open spec fn opt_view(t: Option<Token>) -> Option<TokenView> {
    match t {
        Some(t) => Some(t@),
        None => None,
    }
}

/// Queued tokens by their views.
pub open spec fn tokens_view(q: Seq<Token>) -> Seq<TokenView> {
    q.map_values(|t: Token| t@)
}

/// The tokenizer: the input and how much of it was taken, the queued tokens,
/// and the state of the state machine.
pub struct Tokenizer {
    input: Vec<char>,
    pos: usize,
    output: VecDeque<Token>,
    state: State,
    return_state: Option<State>,
    current_character: char,
    reconsume_char: bool,
    current_token: Option<Token>,
    last_emitted_start_tag: Option<Token>,
    tmp_buffer: EcoString,
}

impl View for Tokenizer {
    type V = TokenizerView;

    closed spec fn view(&self) -> TokenizerView {
        TokenizerView {
            input: self.input@,
            pos: self.pos as int,
            output: tokens_view(self.output@),
            state: self.state,
            return_state: self.return_state,
            current_character: self.current_character,
            reconsume_char: self.reconsume_char,
            current_token: opt_view(self.current_token),
            last_emitted_start_tag: opt_view(self.last_emitted_start_tag),
            tmp_buffer: eco_chars(self.tmp_buffer),
        }
    }
}

/// What the tree builder asks of a tokenizer.
pub trait Tokenizing {
    /// Whether asking for the next token gets one.
    spec fn can_yield(&self) -> bool;

    /// The next token.
    fn next_token(&mut self) -> Token
        requires
            old(self).can_yield(),
    ;

    /// Moves to another state.
    fn switch_to(&mut self, state: State);
}

/* characters --------------------------------- */

/// Whether `c` has the Unicode White_Space property.
pub(crate) fn is_whitespace_char(c: char) -> (res: bool)
    ensures
        res == is_unicode_ws(c),
{
    let u = c as u32;
    (0x09 <= u && u <= 0x0D) || u == 0x20 || u == 0x85 || u == 0xA0 || u == 0x1680 || (0x2000 <= u
        && u <= 0x200A) || u == 0x2028 || u == 0x2029 || u == 0x202F || u == 0x205F || u == 0x3000
}

fn is_ascii_uppercase(c: char) -> (res: bool)
    ensures
        res == is_ascii_upper(c),
{
    'A' <= c && c <= 'Z'
}

fn is_ascii_lowercase(c: char) -> (res: bool)
    ensures
        res == is_ascii_lower(c),
{
    'a' <= c && c <= 'z'
}

fn is_ascii_alphabetic(c: char) -> (res: bool)
    ensures
        res == is_ascii_alpha(c),
{
    is_ascii_uppercase(c) || is_ascii_lowercase(c)
}

/// The character with an ASCII upper-case letter made lower-case.
fn to_ascii_lowercase(c: char) -> (res: char)
    ensures
        res == ascii_lower(c),
{
    if is_ascii_uppercase(c) {
        let u = (c as u32) + 32;
        assert(u < 128);
        (u as u8) as char
    } else {
        c
    }
}

impl Tokenizer {
    /// A tokenizer at the start of `input`, in the data state.
    pub fn new(input: Vec<char>) -> (res: Self)
        ensures
            res@ == (TokenizerView {
                input: input@,
                pos: 0,
                output: Seq::empty(),
                state: State::Data,
                return_state: None,
                current_character: '\0',
                reconsume_char: false,
                current_token: None,
                last_emitted_start_tag: None,
                tmp_buffer: Seq::empty(),
            }),
    {
        let res = Self {
            input,
            pos: 0,
            output: VecDeque::new(),
            state: State::Data,
            return_state: None,
            current_character: '\0',
            reconsume_char: false,
            current_token: None,
            last_emitted_start_tag: None,
            tmp_buffer: eco_new(),
        };
        assert(tokens_view(res.output@) =~= Seq::<TokenView>::empty());
        res
    }

    /* consume char ------------------------------- */

    fn consume_next(&mut self) -> (res: Char)
        requires
            old(self)@.wf(),
        ensures
            (final(self)@, res) == old(self)@.consume_next(),
            final(self)@.wf(),
    {
        let ch = if self.reconsume_char {
            self.reconsume_char = false;
            Some(self.current_character)
        } else if self.pos < self.input.len() {
            let c = self.input[self.pos];
            self.pos = self.pos + 1;
            Some(c)
        } else {
            None
        };
        match ch {
            Some(ch) => {
                self.current_character = ch;
                if ch == '\0' {
                    Char::null
                } else if is_whitespace_char(ch) {
                    Char::whitespace
                } else {
                    Char::ch(ch)
                }
            },
            None => Char::eof,
        }
    }

    /// Whether the rest of the input starts with `pattern`, ignoring ASCII case
    /// when asked; if so its characters are taken.
    fn consume_if_match(&mut self, pattern: &str, case_insensitive: bool) -> (res: bool)
        requires
            old(self)@.wf(),
        ensures
            (final(self)@, res) == old(self)@.consume_if_match(pattern@, case_insensitive),
            final(self)@.wf(),
    {
        let ghost start = self@;
        let ghost rest = start.input.subrange(start.pos, start.input.len() as int);
        let n = pattern.unicode_len();
        if n > self.input.len() - self.pos {
            return false;
        }
        let mut i: usize = 0;
        while i < n
            invariant
                self@ == start,
                start.wf(),
                n == pattern@.len(),
                n <= rest.len(),
                rest == start.input.subrange(start.pos, start.input.len() as int),
                self.pos as int == start.pos,
                self.input@ == start.input,
                self.pos + n <= self.input.len(),
                i <= n,
                case_insensitive ==> forall|j: int| 0 <= j < i ==> ascii_lower(rest[j]) == ascii_lower(#[trigger] pattern@[j]),
                !case_insensitive ==> forall|j: int| 0 <= j < i ==> rest[j] == #[trigger] pattern@[j],
            decreases n - i,
        {
            let a = self.input[self.pos + i];
            let b = pattern.get_char(i);
            assert(a == rest[i as int]);
            let same = if case_insensitive {
                to_ascii_lowercase(a) == to_ascii_lowercase(b)
            } else {
                a == b
            };
            if !same {
                proof {
                    if case_insensitive {
                        assert(lower_seq(rest.subrange(0, n as int))[i as int] != lower_seq(pattern@)[i as int]);
                    } else {
                        assert(rest.subrange(0, n as int)[i as int] != pattern@[i as int]);
                    }
                }
                return false;
            }
            i += 1;
        }
        proof {
            if case_insensitive {
                assert(lower_seq(rest.subrange(0, n as int)) =~= lower_seq(pattern@));
            } else {
                assert(rest.subrange(0, n as int) =~= pattern@);
            }
        }
        let mut k: usize = 0;
        while k < n
            invariant
                start.wf(),
                self@.wf(),
                k <= n,
                self@ == start.consume_n(k as nat),
            decreases n - k,
        {
            proof {
                lemma_consume_n_step(start, k as nat);
            }
            self.consume_next();
            k += 1;
        }
        true
    }

    fn reconsume_in(&mut self, state: State)
        ensures
            final(self)@ == old(self)@.reconsume_in(state),
    {
        self.reconsume_char = true;
        self.switch_to(state);
    }

    fn reconsume_in_return_state(&mut self)
        requires
            old(self)@.return_state is Some,
        ensures
            final(self)@ == old(self)@.reconsume_in(old(self)@.return_state->0),
    {
        let st = self.return_state.unwrap();
        self.reconsume_in(st);
    }

    /* string utilities --------------------------- */

    fn append_char_to_tag_name(&mut self, ch: char)
        requires
            old(self)@.append_char_to_tag_name(ch) is Some,
        ensures
            old(self)@.append_char_to_tag_name(ch) == Some(final(self)@),
    {
        match &mut self.current_token {
            Some(Token::Tag { tag_name, .. }) => {
                string_push(tag_name, ch);
            },
            _ => vstd::pervasive::unreached(),
        }
    }

    fn append_char_to_token_data(&mut self, ch: char)
        requires
            old(self)@.append_char_to_token_data(ch) is Some,
        ensures
            old(self)@.append_char_to_token_data(ch) == Some(final(self)@),
    {
        match &mut self.current_token {
            Some(Token::Comment(data)) => {
                string_push(data, ch);
            },
            _ => vstd::pervasive::unreached(),
        }
    }

    fn append_char_to_attribute_name(&mut self, ch: char)
        requires
            old(self)@.append_char_to_attribute_name(ch) is Some,
        ensures
            old(self)@.append_char_to_attribute_name(ch) == Some(final(self)@),
    {
        match &mut self.current_token {
            Some(Token::Tag { attributes, .. }) => {
                let ghost before = attributes@;
                if let Some(mut attribute) = attributes.pop() {
                    string_push(&mut attribute.name, ch);
                    attributes.push(attribute);
                    assert(attrs_view(attributes@) =~= attrs_view(before).drop_last().push(
                        AttributeView { name: attrs_view(before).last().name.push(ch), value: attrs_view(before).last().value },
                    ));
                }
            },
            Some(_) => {},
            None => vstd::pervasive::unreached(),
        }
    }

    fn append_char_to_attribute_value(&mut self, ch: char)
        requires
            old(self)@.append_char_to_attribute_value(ch) is Some,
        ensures
            old(self)@.append_char_to_attribute_value(ch) == Some(final(self)@),
    {
        match &mut self.current_token {
            Some(Token::Tag { attributes, .. }) => {
                let ghost before = attributes@;
                if let Some(mut attribute) = attributes.pop() {
                    string_push(&mut attribute.value, ch);
                    attributes.push(attribute);
                    assert(attrs_view(attributes@) =~= attrs_view(before).drop_last().push(
                        AttributeView { name: attrs_view(before).last().name, value: attrs_view(before).last().value.push(ch) },
                    ));
                }
            },
            Some(_) => {},
            None => vstd::pervasive::unreached(),
        }
    }

    fn append_char_to_doctype_name(&mut self, ch: char)
        requires
            old(self)@.append_char_to_doctype_name(ch) is Some,
        ensures
            old(self)@.append_char_to_doctype_name(ch) == Some(final(self)@),
    {
        match &mut self.current_token {
            Some(Token::DOCTYPE { name: Some(n), .. }) => {
                string_push(n, ch);
            },
            Some(Token::DOCTYPE { name: None, .. }) => vstd::pervasive::unreached(),
            Some(_) => {},
            None => vstd::pervasive::unreached(),
        }
    }

    /* checker ------------------------------------ */

    fn is_appropriate_end_tag(&mut self) -> (res: bool)
        requires
            old(self)@.is_appropriate_end_tag() is Some,
        ensures
            final(self)@ == old(self)@,
            old(self)@.is_appropriate_end_tag() == Some(res),
    {
        if self.last_emitted_start_tag.is_none() {
            return false;
        }
        let current_tag = self.current_token.as_ref().unwrap();
        let last_start_tag = self.last_emitted_start_tag.as_ref().unwrap();
        if let Token::Tag { tag_name, .. } = current_tag {
            let current_tag_name = tag_name;
            if let Token::Tag { tag_name, .. } = last_start_tag {
                let last_tag_name = tag_name;
                return str_eq(current_tag_name.as_str(), last_tag_name.as_str());
            }
        }
        false
    }

    /* token -------------------------------------- */

    fn new_token(&mut self, token: Token)
        ensures
            final(self)@ == old(self)@.new_token(token@),
    {
        self.current_token = Some(token);
    }

    fn new_attribute(&mut self, attr: Attribute)
        requires
            old(self)@.new_attribute(attr@) is Some,
        ensures
            old(self)@.new_attribute(attr@) == Some(final(self)@),
    {
        match &mut self.current_token {
            Some(Token::Tag { attributes, .. }) => {
                let ghost before = attributes@;
                let ghost a = attr@;
                attributes.push(attr);
                assert(attrs_view(attributes@) =~= attrs_view(before).push(a));
            },
            Some(_) => {},
            None => vstd::pervasive::unreached(),
        }
    }

    /* emit token --------------------------------- */

    /// The positions of the attributes whose name already occurs before them.
    fn get_duplicate_attribute_index(&self, attributes: &Vec<Attribute>) -> (res: EcoVec<usize>)
        ensures
            index_list(res) == dup_indices(attrs_view(attributes@)),
    {
        let ghost attrs = attrs_view(attributes@);
        let mut remove_indexes = indices_new();
        let len = attributes.len();
        let mut index: usize = 0;
        while index < len
            invariant
                len == attrs.len(),
                attrs == attrs_view(attributes@),
                index <= len,
                index_list(remove_indexes) == dup_indices_upto(attrs, index as int),
            decreases len - index,
        {
            let attribute = &attributes[index];
            let mut seen = false;
            let mut j: usize = 0;
            while j < index
                invariant
                    index < len,
                    len == attrs.len(),
                    attrs == attrs_view(attributes@),
                    attribute@ == attrs[index as int],
                    j <= index,
                    seen == exists|k: int| 0 <= k < j && #[trigger] attrs[k].name == attrs[index as int].name,
                decreases index - j,
            {
                let other = &attributes[j];
                let same = other.name == attribute.name;
                assert(same == (attrs[j as int].name == attrs[index as int].name));
                if same {
                    seen = true;
                }
                j += 1;
            }
            if seen {
                indices_push(&mut remove_indexes, index);
            }
            index += 1;
        }
        remove_indexes
    }

    /// Queues `token`, its duplicate attributes removed; a start tag is also
    /// remembered as the last one queued.
    fn will_emit(&mut self, token: Token)
        requires
            old(self)@.will_emit(token@) is Some,
        ensures
            old(self)@.will_emit(token@) == Some(final(self)@),
    {
        let token = match token {
            Token::Tag { tag_name, mut attributes, self_closing, self_closing_acknowledged, is_end_tag } => {
                let ghost orig = attrs_view(attributes@);
                let ghost idxs = dup_indices(orig);
                let remove_indexes = self.get_duplicate_attribute_index(&attributes);
                let n = indices_len(&remove_indexes);
                let mut k: usize = 0;
                while k < n
                    invariant
                        n == idxs.len(),
                        index_list(remove_indexes) == idxs,
                        k <= n,
                        remove_each(orig, idxs, n as int) is Some,
                        remove_each(orig, idxs, k as int) == Some(attrs_view(attributes@)),
                    decreases n - k,
                {
                    proof {
                        lemma_remove_each_prefix(orig, idxs, k + 1, n as int);
                    }
                    let index = indices_get(&remove_indexes, k);
                    let ghost before = attributes@;
                    attributes.remove(index);
                    assert(attrs_view(attributes@) =~= attrs_view(before).remove(index as int));
                    k += 1;
                }
                let t = Token::Tag { tag_name, attributes, self_closing, self_closing_acknowledged, is_end_tag };
                if !is_end_tag {
                    self.last_emitted_start_tag = Some(t.clone());
                }
                t
            },
            other => other,
        };
        let ghost before = self.output@;
        let ghost tv = token@;
        self.output.push_back(token);
        assert(tokens_view(self.output@) =~= tokens_view(before).push(tv));
    }

    /// Queues a copy of the current token.
    fn will_emit_current(&mut self)
        requires
            old(self)@.will_emit_current() is Some,
        ensures
            old(self)@.will_emit_current() == Some(final(self)@),
    {
        let t = self.current_token.as_ref().unwrap().clone();
        self.will_emit(t);
    }

    /// Hands out the first queued token.
    fn pop_output(&mut self) -> (res: Token)
        requires
            old(self)@.pop_output() is Some,
        ensures
            old(self)@.pop_output() == Some((final(self)@, Some(res@))),
    {
        let ghost before = self.output@;
        let t = self.output.pop_front().unwrap();
        assert(tokens_view(self.output@) =~= tokens_view(before).drop_first());
        t
    }

    fn emit_current_token(&mut self) -> (res: Token)
        requires
            old(self)@.emit_current_token() is Some,
        ensures
            old(self)@.emit_current_token() == Some((final(self)@, Some(res@))),
    {
        self.will_emit_current();
        self.pop_output()
    }

    fn emit_char(&mut self, ch: char) -> (res: Token)
        requires
            old(self)@.emit_char(ch) is Some,
        ensures
            old(self)@.emit_char(ch) == Some((final(self)@, Some(res@))),
    {
        self.new_token(Token::Character(ch));
        self.emit_current_token()
    }

    fn emit_current_char(&mut self) -> (res: Token)
        requires
            old(self)@.emit_char(old(self)@.current_character) is Some,
        ensures
            old(self)@.emit_char(old(self)@.current_character) == Some((final(self)@, Some(res@))),
    {
        self.emit_char(self.current_character)
    }

    fn emit_eof(&mut self) -> (res: Token)
        requires
            old(self)@.emit_eof() is Some,
        ensures
            old(self)@.emit_eof() == Some((final(self)@, Some(res@))),
    {
        self.new_token(Token::EOF);
        self.emit_current_token()
    }

    /* tmp buffer --------------------------------- */

    fn clear_tmp_buffer(&mut self)
        ensures
            final(self)@ == old(self)@.clear_tmp(),
    {
        eco_clear(&mut self.tmp_buffer);
    }

    fn push_to_tmp_buffer(&mut self, c: char)
        ensures
            final(self)@ == old(self)@.push_tmp(c),
    {
        eco_push(&mut self.tmp_buffer, c);
    }

    fn flush_code_points_consumed_as_a_character_reference(&mut self)
        ensures
            final(self)@ == old(self)@.emit_tmp_buffer(),
    {
        self.emit_tmp_buffer();
    }

    /// Queues one character token for each kept character.
    fn emit_tmp_buffer(&mut self)
        ensures
            final(self)@ == old(self)@.emit_tmp_buffer(),
    {
        let ghost start = self@;
        let s = eco_as_str(&self.tmp_buffer);
        let n = s.unicode_len();
        let ghost chars = s@;
        let mut i: usize = 0;
        if n > 0 {
            proof {
                lemma_char_tokens_prefix(chars, 0);
            }
        } else {
            assert(chars.subrange(0, 0) =~= chars);
        }
        assert(start.output + char_tokens(chars.subrange(0, 0)) =~= start.output);
        while i < n
            invariant
                n == chars.len(),
                chars == start.tmp_buffer,
                s@ == chars,
                i <= n,
                self@.output == start.output + char_tokens(chars.subrange(0, i as int)),
                self@ == (TokenizerView { output: self@.output, ..start }),
            decreases n - i,
        {
            let c = s.get_char(i);
            assert(c == chars[i as int]);
            let ghost before = self.output@;
            self.output.push_back(Token::Character(c));
            assert(tokens_view(self.output@) =~= tokens_view(before).push(TokenView::Character(c)));
            proof {
                lemma_char_tokens_prefix(chars, i as int);
            }
            i += 1;
        }
        assert(chars.subrange(0, n as int) =~= chars);
    }
}

/// Taking `k + 1` characters is taking `k` and then one more.
proof fn lemma_consume_n_step(s: TokenizerView, k: nat)
    ensures
        s.consume_n(k + 1) == s.consume_n(k).consume_next().0,
    decreases k,
{
    let s1 = s.consume_next().0;
    assert(s.consume_n(k + 1) == s1.consume_n(k));
    if k > 0 {
        lemma_consume_n_step(s1, (k - 1) as nat);
        assert(s.consume_n(k) == s1.consume_n((k - 1) as nat));
    } else {
        assert(s.consume_n(0) == s);
        assert(s1.consume_n(0) == s1);
    }
}

} // verus!

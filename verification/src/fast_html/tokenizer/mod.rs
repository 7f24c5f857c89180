pub mod byte_string;
pub mod state;
pub mod stream;
pub mod token;
pub mod transition;

use vstd::prelude::*;
use vstd::utf8::{valid_utf8, decode_utf8};
use ecow::{EcoVec, EcoString};
use crate::eco::{
    attr_list, attrs_get, attrs_len, attrs_pop, attrs_push, attrs_remove, byte_list, bytes_as_slice,
    bytes_clear, bytes_extend_from_slice, bytes_new, eco_chars, eco_eq, eco_from_char, eco_push,
    eco_push_str, index_list, indices_get, indices_len, indices_new, indices_push, token_list,
    tokens_is_empty, tokens_new, tokens_pop, tokens_push,
};
use self::byte_string::bytes_to_string;
use self::state::State;
use self::stream::Stream;
use self::token::{Attribute, AttributeView, Token, TokenView};
use self::transition::{
    REPLACEMENT_CHARACTER, TokenizerView, Step, is_ascii_ws, is_ascii_alnum, is_ascii_alpha,
    ascii_lower, is_stop, scan, skip_ws, all_alnum, dup_indices, dup_indices_upto, remove_each,
    dedup, step, run, next, yields, lemma_run_deterministic, data_state, tag_open_state,
    tag_name_state, tag_name_stops, end_tag_open_state, self_closing_start_tag_state,
    before_attribute_name_state, attribute_name_state, attribute_name_stops,
    after_attribute_name_state, before_attribute_value_state, attribute_value_double_quoted_state,
    after_attribute_value_quoted_state, markup_declaration_open_state, dash_dash, doctype_word,
    cdata_word, doctype_state, before_doctype_name_state, doctype_name_state, rawtext_state,
    rcdata_state, rcdata_less_than_sign_state, rcdata_end_tag_open_state, rcdata_invalid_end_tag,
    rcdata_end_tag_name_state, lt_text, lt_slash_text, quirks_doctype, lemma_scan_bounds,
    lemma_skip_ws_bounds,
};

verus! {

/// The token a slot holds, by its view.
pub open spec fn opt_view(t: Option<Token>) -> Option<TokenView> {
    match t {
        Some(t) => Some(t@),
        None => None,
    }
}

/// Reads HTML as bytes and hands out tokens one at a time.
pub struct Tokenizer<'a> {
    state: State,
    return_state: Option<State>,
    stream: Stream<'a, u8>,
    output: EcoVec<Token>,
    current_token: Option<Token>,
    last_emitted_start_tag: Option<Token>,
    tmp_buffer: EcoVec<u8>,
}

impl<'a> View for Tokenizer<'a> {
    type V = TokenizerView;

    closed spec fn view(&self) -> TokenizerView {
        TokenizerView {
            state: self.state,
            return_state: self.return_state,
            idx: self.stream.idx as int,
            data: self.stream.data@,
            output: token_list(self.output),
            current_token: opt_view(self.current_token),
            last_emitted_start_tag: opt_view(self.last_emitted_start_tag),
            tmp_buffer: byte_list(self.tmp_buffer),
        }
    }
}

/// Removing along a list that succeeds to its end succeeds along every prefix of it.
pub(crate) proof fn lemma_remove_each_prefix(attrs: Seq<AttributeView>, idxs: Seq<usize>, m: int, n: int)
    requires
        0 <= m <= n,
        remove_each(attrs, idxs, n) is Some,
    ensures
        remove_each(attrs, idxs, m) is Some,
    decreases n - m,
{
    if m < n {
        lemma_remove_each_prefix(attrs, idxs, m + 1, n);
    }
}

/// Whether `b` is one of `set`.
pub(crate) fn contains_byte(set: &[u8], b: u8) -> (res: bool)
    ensures
        res == set@.contains(b),
{
    let mut i: usize = 0;
    while i < set.len()
        invariant
            i <= set@.len(),
            forall|j: int| 0 <= j < i ==> set@[j] != b,
        decreases set@.len() - i,
    {
        if set[i] == b {
            assert(set@[i as int] == b);
            return true;
        }
        i += 1;
    }
    false
}

/// Whether a byte is ASCII whitespace (space, tab, line feed, form feed, carriage return).
fn is_ascii_whitespace(b: u8) -> (res: bool)
    ensures
        res == is_ascii_ws(b),
{
    b == 0x20u8 || b == 0x09u8 || b == 0x0Au8 || b == 0x0Cu8 || b == 0x0Du8
}

/// Whether a byte is an ASCII letter or digit.
fn is_ascii_alphanumeric(b: u8) -> (res: bool)
    ensures
        res == is_ascii_alnum(b),
{
    (0x30u8 <= b && b <= 0x39u8) || (0x41u8 <= b && b <= 0x5Au8) || (0x61u8 <= b && b <= 0x7Au8)
}

/// Whether a byte is an ASCII letter.
fn is_ascii_alphabetic(b: u8) -> (res: bool)
    ensures
        res == is_ascii_alpha(b),
{
    (0x41u8 <= b && b <= 0x5Au8) || (0x61u8 <= b && b <= 0x7Au8)
}

/// The bytes with ASCII upper-case letters made lower-case.
fn to_ascii_lowercase(bytes: &[u8]) -> (res: Vec<u8>)
    ensures
        res@ == bytes@.map_values(|b: u8| ascii_lower(b)),
{
    let mut out: Vec<u8> = Vec::new();
    let mut i: usize = 0;
    while i < bytes.len()
        invariant
            i <= bytes@.len(),
            out@ == bytes@.subrange(0, i as int).map_values(|b: u8| ascii_lower(b)),
        decreases bytes@.len() - i,
    {
        let b = bytes[i];
        let l = if 0x41u8 <= b && b <= 0x5Au8 { b + 32 } else { b };
        out.push(l);
        i += 1;
        assert(bytes@.subrange(0, i as int) == bytes@.subrange(0, i - 1).push(b));
    }
    assert(bytes@.subrange(0, bytes@.len() as int) == bytes@);
    out
}

/// Whether two byte sequences are equal.
pub(crate) fn bytes_equal(a: &[u8], b: &[u8]) -> (res: bool)
    ensures
        res == (a@ == b@),
{
    if a.len() != b.len() {
        return false;
    }
    let mut i: usize = 0;
    while i < a.len()
        invariant
            a@.len() == b@.len(),
            i <= a@.len(),
            forall|j: int| 0 <= j < i ==> a@[j] == b@[j],
        decreases a@.len() - i,
    {
        if a[i] != b[i] {
            return false;
        }
        i += 1;
    }
    assert(a@ == b@);
    true
}

/// A copy of the token a slot holds.
fn clone_token_slot(t: &Option<Token>) -> (res: Option<Token>)
    ensures
        opt_view(res) == opt_view(*t),
{
    match t {
        Some(t) => Some(t.clone()),
        None => None,
    }
}

impl<'a> Tokenizer<'a> {
    /// A tokenizer at the start of `data`, in the data state, with nothing queued.
    pub fn new(data: &'a [u8]) -> (res: Self)
        requires
            data@.len() <= isize::MAX,
        ensures
            res@ == (TokenizerView {
                state: State::Data,
                return_state: None,
                idx: 0,
                data: data@,
                output: Seq::empty(),
                current_token: None,
                last_emitted_start_tag: None,
                tmp_buffer: Seq::empty(),
            }),
            res@.wf(),
    {
        Self {
            state: State::Data,
            return_state: None,
            stream: Stream::new(data),
            output: tokens_new(),
            current_token: None,
            last_emitted_start_tag: None,
            tmp_buffer: bytes_new(),
        }
    }

    /// The next token: a queued one first, else the steps of the state machine
    /// run until one of them hands out a token.
    pub fn next_token(&mut self) -> (res: Token)
        requires
            old(self)@.wf(),
            yields(old(self)@),
        ensures
            final(self)@.wf(),
            forall|fuel: nat| #[trigger] next(old(self)@, fuel) is Some ==> next(old(self)@, fuel) == Some((final(self)@, res@)),
    {
        if !tokens_is_empty(&self.output) {
            let t = tokens_pop(&mut self.output);
            return t.unwrap();
        }
        let ghost start = self@;
        let ghost f0: nat = choose|fuel: nat| #[trigger] next(start, fuel) is Some;
        let ghost mut fuel: nat = f0;
        proof {
            assert forall|f: nat| #[trigger] next(start, f) is Some implies next(start, f) == next(start, f0) by {
                lemma_run_deterministic(start, f, f0);
            }
        }
        loop
            invariant
                self@.wf(),
                run(self@, fuel) is Some,
                run(self@, fuel) == next(start, f0),
                forall|f: nat| #[trigger] next(start, f) is Some ==> next(start, f) == next(start, f0),
                start == old(self)@,
            decreases fuel,
        {
            let token = match self.state {
                State::Data => self.process_data_state(),
                State::TagOpen => self.process_tag_open_state(),
                State::TagName => self.process_tag_name_state(),
                State::EndTagOpen => self.process_end_tag_open_state(),
                State::SelfClosingStartTag => self.process_self_closing_start_tag_state(),
                State::BeforeAttributeName => self.process_before_attribute_name_state(),
                State::AttributeName => self.process_attribute_name_state(),
                State::AfterAttributeName => self.process_after_attribute_name_state(),
                State::BeforeAttributeValue => self.process_before_attribute_value_state(),
                State::AttributeValueDoubleQuoted => self.process_attribute_value_double_quoted_state(),
                State::AttributeValueSingleQuoted => self.process_attribute_value_single_quoted_state(),
                State::AttributeValueUnQuoted => self.process_attribute_value_unquoted_state(),
                State::AfterAttributeValueQuoted => self.process_after_attribute_value_quoted_state(),
                State::MarkupDeclarationOpen => self.process_markup_declaration_open_state(),
                State::DOCTYPE => self.process_doctype_state(),
                State::BeforeDOCTYPEName => self.process_before_doctype_name_state(),
                State::DOCTYPEName => self.process_doctype_name_state(),
                State::AfterDOCTYPEName => self.process_after_doctype_name_state(),
                State::BogusDOCTYPE => self.process_bogus_doctype_state(),
                State::RAWTEXT => self.process_rawtext_state(),
                State::RAWTEXTLessThanSign => self.process_rawtext_less_than_sign_state(),
                State::RAWTEXTEndTagOpen => self.process_rawtext_end_tag_open_state(),
                State::RAWTEXTEndTagName => self.process_rawtext_end_tag_name_state(),
                State::RCDATA => self.process_rcdata_state(),
                State::RCDATALessThanSign => self.process_rcdata_less_than_sign_state(),
                State::RCDATAEndTagOpen => self.process_rcdata_end_tag_open_state(),
                State::RCDATAEndTagName => self.process_rcdata_end_tag_name_state(),
                _ => vstd::pervasive::unreached(),
            };
            if let Some(token) = token {
                return token;
            }
            proof {
                fuel = (fuel - 1) as nat;
            }
        }
    }

    /* -------------------------------------------- */

    /// Goes to `state`, stepping the cursor over the byte just read.
    pub fn switch_to(&mut self, state: State)
        requires
            old(self)@.wf(),
            old(self)@.idx <= old(self)@.data.len(),
        ensures
            final(self)@ == old(self)@.switch_to(state),
            final(self)@.wf(),
    {
        self.state = state;
        self.stream.advance();
    }

    /// Goes to `state`, leaving the cursor where it is.
    pub fn reconsume_in(&mut self, state: State)
        ensures
            final(self)@ == old(self)@.reconsume_in(state),
    {
        self.state = state;
    }

    /* -------------------------------------------- */

    fn process_data_state(&mut self) -> (res: Option<Token>)
        requires
            old(self)@.wf(),
            data_state(old(self)@) is Some,
        ensures
            final(self)@.wf(),
            data_state(old(self)@) == Some((final(self)@, opt_view(res))),
    {
        let bytes = self.read_to_oneof(&[0x3Cu8, 0x26u8, 0x00u8]);
        if bytes.len() != 0 {
            return Some(self.emit_text(bytes));
        }
        if self.stream.is_eof() {
            return Some(self.emit_eof());
        }
        let c = self.read_current();
        if c == 0x3Cu8 {
            self.return_state = Some(State::Data);
            self.switch_to(State::TagOpen);
        } else if c == 0x26u8 {
            vstd::pervasive::unreached::<()>();
        } else if c == 0x00u8 {
            return Some(self.emit_text(bytes));
        }
        None
    }

    fn process_tag_open_state(&mut self) -> (res: Option<Token>)
        requires
            old(self)@.wf(),
            tag_open_state(old(self)@) is Some,
        ensures
            final(self)@.wf(),
            tag_open_state(old(self)@) == Some((final(self)@, opt_view(res))),
    {
        let c = self.read_current();
        if is_ascii_alphanumeric(c) {
            self.new_token(Token::new_start_tag());
            self.reconsume_in(State::TagName);
            return None;
        }
        if c == 0x21u8 {
            self.switch_to(State::MarkupDeclarationOpen);
        } else if c == 0x2Fu8 {
            self.switch_to(State::EndTagOpen);
        } else if c == 0x3Fu8 {
            vstd::pervasive::unreached::<()>();
        } else {
            proof {
                reveal_strlit("<");
                assert("<"@ =~= seq!['<']);
            }
            self.will_emit(Token::new_text("<"));
            self.reconsume_in(State::Data);
        }
        None
    }
}


impl<'a> Tokenizer<'a> {
    /* -------------------------------------------- */

    fn new_token(&mut self, token: Token)
        ensures
            final(self)@ == old(self)@.new_token(token@),
    {
        self.current_token = Some(token);
    }

    /* -------------------------------------------- */

    fn append_replacement_char_to_tag_name(&mut self)
        requires
            old(self)@.append_replacement_char_to_tag_name() is Some,
        ensures
            old(self)@.append_replacement_char_to_tag_name() == Some(final(self)@),
    {
        match &mut self.current_token {
            Some(Token::Tag { tag_name, .. }) => {
                eco_push(tag_name, REPLACEMENT_CHARACTER);
            },
            _ => vstd::pervasive::unreached(),
        }
    }

    fn append_char_to_attribute_name(&mut self, c: char)
        requires
            old(self)@.append_char_to_attribute_name(c) is Some,
        ensures
            old(self)@.append_char_to_attribute_name(c) == Some(final(self)@),
    {
        match &mut self.current_token {
            Some(Token::Tag { attributes, .. }) => {
                if let Some(mut last) = attrs_pop(attributes) {
                    eco_push(&mut last.name, c);
                    attrs_push(attributes, last);
                }
            },
            Some(_) => {},
            None => vstd::pervasive::unreached(),
        }
    }

    fn append_char_to_attribute_value(&mut self, c: char)
        requires
            old(self)@.append_char_to_attribute_value(c) is Some,
        ensures
            old(self)@.append_char_to_attribute_value(c) == Some(final(self)@),
    {
        match &mut self.current_token {
            Some(Token::Tag { attributes, .. }) => {
                if let Some(mut last) = attrs_pop(attributes) {
                    eco_push(&mut last.value, c);
                    attrs_push(attributes, last);
                }
            },
            Some(_) => {},
            None => vstd::pervasive::unreached(),
        }
    }

    fn append_char_to_doctype_name(&mut self, c: char)
        requires
            old(self)@.append_char_to_doctype_name(c) is Some,
        ensures
            old(self)@.append_char_to_doctype_name(c) == Some(final(self)@),
    {
        match &mut self.current_token {
            Some(Token::DOCTYPE { name: Some(old_name), .. }) => {
                eco_push(old_name, c);
            },
            Some(_) => {},
            None => vstd::pervasive::unreached(),
        }
    }

    fn concat_to_tag_name(&mut self, suffix: &[u8])
        requires
            old(self)@.concat_to_tag_name(suffix@) is Some,
        ensures
            old(self)@.concat_to_tag_name(suffix@) == Some(final(self)@),
    {
        let suffix = bytes_to_string(suffix);
        match &mut self.current_token {
            Some(Token::Tag { tag_name, .. }) => {
                eco_push_str(tag_name, crate::eco::eco_as_str(&suffix));
            },
            _ => vstd::pervasive::unreached(),
        }
    }

    fn concat_to_doctype_name(&mut self, name: &[u8])
        requires
            old(self)@.concat_to_doctype_name(name@) is Some,
        ensures
            old(self)@.concat_to_doctype_name(name@) == Some(final(self)@),
    {
        let name = bytes_to_string(name);
        match &mut self.current_token {
            Some(Token::DOCTYPE { name: Some(old_name), .. }) => {
                eco_push_str(old_name, crate::eco::eco_as_str(&name));
            },
            Some(_) => {},
            None => vstd::pervasive::unreached(),
        }
    }

    fn set_tag_name(&mut self, name: &[u8])
        requires
            old(self)@.set_tag_name(name@) is Some,
        ensures
            old(self)@.set_tag_name(name@) == Some(final(self)@),
    {
        let name = bytes_to_string(name);
        match &mut self.current_token {
            Some(Token::Tag { tag_name, .. }) => {
                *tag_name = name;
            },
            _ => vstd::pervasive::unreached(),
        }
    }

    fn set_attribute_name(&mut self, name: &[u8])
        requires
            old(self)@.set_attribute_name(name@) is Some,
        ensures
            old(self)@.set_attribute_name(name@) == Some(final(self)@),
    {
        let name = match crate::eco::str_from_utf8(name) {
            Ok(s) => s,
            Err(_) => vstd::pervasive::unreached(),
        };
        match &mut self.current_token {
            Some(Token::Tag { attributes, .. }) => {
                attrs_push(attributes, Attribute::new_name_of(name));
            },
            _ => vstd::pervasive::unreached(),
        }
    }

    fn set_attribute_value(&mut self, value: &[u8])
        requires
            old(self)@.set_attribute_value(value@) is Some,
        ensures
            old(self)@.set_attribute_value(value@) == Some(final(self)@),
    {
        let value = bytes_to_string(value);
        match &mut self.current_token {
            Some(Token::Tag { attributes, .. }) => {
                if let Some(mut last) = attrs_pop(attributes) {
                    last.value = value;
                    attrs_push(attributes, last);
                }
            },
            _ => vstd::pervasive::unreached(),
        }
    }

    /* -------------------------------------------- */

    fn is_appropriate_end_tag(&mut self) -> (res: bool)
        requires
            old(self)@.is_appropriate_end_tag() is Some,
        ensures
            final(self)@ == old(self)@,
            old(self)@.is_appropriate_end_tag() == Some(res),
    {
        let last_start_tag = match &self.last_emitted_start_tag {
            None => return false,
            Some(t) => t,
        };
        let current_tag = match &self.current_token {
            Some(t) => t,
            None => vstd::pervasive::unreached(),
        };
        match current_tag {
            Token::Tag { tag_name, .. } => {
                let current_tag_name = tag_name;
                match last_start_tag {
                    Token::Tag { tag_name, .. } => {
                        let last_tag_name = tag_name;
                        return eco_eq(current_tag_name, last_tag_name);
                    },
                    _ => {},
                }
            },
            _ => {},
        }
        false
    }

    /* -------------------------------------------- */

    /// The positions of the attributes whose name already occurs before them.
    fn get_duplicate_attribute_index(&self, attributes: &EcoVec<Attribute>) -> (res: EcoVec<usize>)
        ensures
            index_list(res) == dup_indices(attr_list(*attributes)),
    {
        let ghost attrs = attr_list(*attributes);
        let mut remove_indexes = indices_new();
        let len = attrs_len(attributes);
        let mut index: usize = 0;
        while index < len
            invariant
                len == attrs.len(),
                attrs == attr_list(*attributes),
                index <= len,
                index_list(remove_indexes) == dup_indices_upto(attrs, index as int),
            decreases len - index,
        {
            let attribute = attrs_get(attributes, index);
            let mut seen = false;
            let mut j: usize = 0;
            while j < index
                invariant
                    index < len,
                    len == attrs.len(),
                    attrs == attr_list(*attributes),
                    attribute@ == attrs[index as int],
                    j <= index,
                    seen == exists|k: int| 0 <= k < j && #[trigger] attrs[k].name == attrs[index as int].name,
                decreases index - j,
            {
                let other = attrs_get(attributes, j);
                let same = eco_eq(&other.name, &attribute.name);
                assert(same == (attrs[j as int].name == attrs[index as int].name));
                if same {
                    seen = true;
                }
                j += 1;
            }
            if seen {
                indices_push(&mut remove_indexes, index);
            }
            index += 1;
        }
        remove_indexes
    }

    /// Queues `token`, its duplicate attributes removed; a start tag is also
    /// remembered as the last one emitted.
    fn will_emit(&mut self, token: Token)
        requires
            old(self)@.will_emit(token@) is Some,
        ensures
            old(self)@.will_emit(token@) == Some(final(self)@),
    {
        let ghost tv = token@;
        let token = match token {
            Token::Tag { tag_name, mut attributes, self_closing, self_closing_acknowledged, is_end_tag } => {
                let ghost orig = attr_list(attributes);
                let ghost idxs = dup_indices(orig);
                if attrs_len(&attributes) != 0 {
                    let remove_indexes = self.get_duplicate_attribute_index(&attributes);
                    let n = indices_len(&remove_indexes);
                    let mut k: usize = 0;
                    while k < n
                        invariant
                            n == idxs.len(),
                            index_list(remove_indexes) == idxs,
                            k <= n,
                            remove_each(orig, idxs, n as int) is Some,
                            remove_each(orig, idxs, k as int) == Some(attr_list(attributes)),
                        decreases n - k,
                    {
                        proof {
                            lemma_remove_each_prefix(orig, idxs, k + 1, n as int);
                        }
                        let index = indices_get(&remove_indexes, k);
                        attrs_remove(&mut attributes, index);
                        k += 1;
                    }
                } else {
                    assert(idxs =~= Seq::<usize>::empty());
                }
                let t = Token::Tag { tag_name, attributes, self_closing, self_closing_acknowledged, is_end_tag };
                if !is_end_tag {
                    self.last_emitted_start_tag = Some(t.clone());
                }
                t
            },
            other => other,
        };
        tokens_push(&mut self.output, token);
    }

    fn emit_current_token(&mut self) -> (res: Token)
        requires
            old(self)@.emit_current_token() is Some,
        ensures
            old(self)@.emit_current_token() == Some((final(self)@, Some(res@))),
    {
        let ghost before = self@;
        let current = clone_token_slot(&self.current_token);
        self.will_emit(current.unwrap());
        let ghost mid = self@;
        let t = tokens_pop(&mut self.output);
        proof {
            assert(mid.output == before.output.push(mid.output.last()));
            assert(mid.output.drop_last() =~= before.output);
        }
        t.unwrap()
    }

    fn emit_text(&mut self, s: &[u8]) -> (res: Token)
        requires
            old(self)@.emit_text(s@) is Some,
        ensures
            old(self)@.emit_text(s@) == Some((final(self)@, Some(res@))),
    {
        let text = bytes_to_string(s);
        self.new_token(Token::Text(text));
        self.emit_current_token()
    }

    fn emit_char(&mut self, c: char) -> (res: Token)
        requires
            old(self)@.emit_char(c) is Some,
        ensures
            old(self)@.emit_char(c) == Some((final(self)@, Some(res@))),
    {
        self.new_token(Token::Text(eco_from_char(c)));
        self.emit_current_token()
    }

    fn emit_eof(&mut self) -> (res: Token)
        requires
            old(self)@.emit_eof() is Some,
        ensures
            old(self)@.emit_eof() == Some((final(self)@, Some(res@))),
    {
        self.new_token(Token::EOF);
        self.emit_current_token()
    }

    fn emit_tmp_buffer(&mut self)
        requires
            old(self)@.emit_tmp_buffer() is Some,
        ensures
            old(self)@.emit_tmp_buffer() == Some(final(self)@),
    {
        let text = bytes_to_string(bytes_as_slice(&self.tmp_buffer));
        tokens_push(&mut self.output, Token::Text(text));
    }

    /* tmp buffer --------------------------------- */

    fn clear_tmp_buffer(&mut self)
        ensures
            final(self)@ == (TokenizerView { tmp_buffer: Seq::empty(), ..old(self)@ }),
    {
        bytes_clear(&mut self.tmp_buffer);
    }

    fn push_many_to_tmp_buffer(&mut self, bytes: &[u8])
        ensures
            final(self)@ == (TokenizerView { tmp_buffer: old(self)@.tmp_buffer + bytes@, ..old(self)@ }),
    {
        bytes_extend_from_slice(&mut self.tmp_buffer, bytes);
    }

    /* -------------------------------------------- */

    fn read_current(&mut self) -> (res: u8)
        requires
            0 <= old(self)@.idx < old(self)@.data.len(),
        ensures
            final(self)@ == old(self)@,
            res == old(self)@.cur(),
    {
        self.stream.current_cpy().unwrap()
    }

    fn read_current_skipped_whitespace(&mut self) -> (res: u8)
        requires
            old(self)@.wf(),
            old(self)@.read_skipping_ws() is Some,
        ensures
            old(self)@.read_skipping_ws() == Some((final(self)@, res)),
            final(self)@.wf(),
            final(self)@.idx < final(self)@.data.len(),
    {
        proof {
            lemma_skip_ws_bounds(old(self)@.data, old(self)@.idx);
        }
        let start = self.stream.idx;
        let data = self.stream.data();
        let mut end: usize = start;
        while end < data.len() && is_ascii_whitespace(data[end])
            invariant
                start <= end <= data@.len(),
                data@ == self@.data,
                start == self@.idx,
                skip_ws(data@, end as int) == skip_ws(data@, start as int),
            decreases data@.len() - end,
        {
            end += 1;
        }
        self.stream.advance_by(end - start);
        self.stream.current_cpy().unwrap()
    }

    /// Whether the input at the cursor starts with `pattern` (ignoring ASCII
    /// case when asked); when it does, the cursor moves onto its last byte.
    fn read_if_match(&mut self, pattern: &[u8], ignore_case: bool) -> (res: bool)
        requires
            old(self)@.wf(),
            old(self)@.read_if_match(pattern@, ignore_case) is Some,
            pattern@.len() <= 8,
        ensures
            old(self)@.read_if_match(pattern@, ignore_case) == Some((final(self)@, res)),
            final(self)@.wf(),
            res ==> final(self)@.idx < final(self)@.data.len(),
            !res ==> final(self)@ == old(self)@,
    {
        let pattern_len = pattern.len();
        proof {
            assert(pattern_len <= 8);
        }
        let peeked = self.stream.slice_len(self.stream.idx, pattern_len);
        if ignore_case {
            let peeked = to_ascii_lowercase(peeked);
            let pattern = to_ascii_lowercase(pattern);
            if bytes_equal(peeked.as_slice(), pattern.as_slice()) {
                assert(peeked@.len() == pattern@.len());
                self.stream.advance_by(pattern_len - 1);
                return true;
            }
        } else if bytes_equal(peeked, pattern) {
            assert(peeked@.len() == pattern@.len());
            self.stream.advance_by(pattern_len - 1);
            return true;
        }
        false
    }

    fn read_to(&mut self, c: u8) -> (res: &'a [u8])
        requires
            old(self)@.wf(),
            old(self)@.read_to(seq![c], false) is Some,
        ensures
            old(self)@.read_to(seq![c], false) == Some((final(self)@, res@)),
            final(self)@.wf(),
    {
        let stops: &[u8] = &[c];
        assert(stops@ =~= seq![c]);
        self.read_until(stops, false)
    }

    /// The bytes up to the first one of `c`, or to the end; the cursor stops there.
    fn read_to_oneof(&mut self, c: &[u8]) -> (res: &'a [u8])
        requires
            old(self)@.wf(),
            old(self)@.read_to(c@, false) is Some,
        ensures
            old(self)@.read_to(c@, false) == Some((final(self)@, res@)),
            final(self)@.wf(),
            final(self)@.idx <= final(self)@.data.len(),
    {
        self.read_until(c, false)
    }

    fn read_to_whitespace_or_oneof(&mut self, c: &[u8]) -> (res: &'a [u8])
        requires
            old(self)@.wf(),
            old(self)@.read_to(c@, true) is Some,
        ensures
            old(self)@.read_to(c@, true) == Some((final(self)@, res@)),
            final(self)@.wf(),
            final(self)@.idx <= final(self)@.data.len(),
    {
        self.read_until(c, true)
    }

    /// The bytes up to the first one of `stops`, or whitespace when `ws` is set;
    /// the cursor stops there.
    fn read_until(&mut self, stops: &[u8], ws: bool) -> (res: &'a [u8])
        requires
            old(self)@.wf(),
            old(self)@.read_to(stops@, ws) is Some,
        ensures
            old(self)@.read_to(stops@, ws) == Some((final(self)@, res@)),
            final(self)@.wf(),
            final(self)@.idx <= final(self)@.data.len(),
    {
        proof {
            lemma_scan_bounds(old(self)@.data, old(self)@.idx, stops@, ws);
        }
        let start = self.stream.idx;
        let data = self.stream.data();
        let mut end: usize = start;
        while end < data.len() && !(contains_byte(stops, data[end]) || (ws && is_ascii_whitespace(data[end])))
            invariant
                start <= end <= data@.len(),
                data@ == self@.data,
                start == self@.idx,
                scan(data@, end as int, stops@, ws) == scan(data@, start as int, stops@, ws),
            decreases data@.len() - end,
        {
            end += 1;
        }
        self.stream.advance_by(end - start);
        self.stream.slice(start, end)
    }
}


impl<'a> Tokenizer<'a> {
    fn process_tag_name_state(&mut self) -> (res: Option<Token>)
        requires
            old(self)@.wf(),
            tag_name_state(old(self)@) is Some,
        ensures
            final(self)@.wf(),
            tag_name_state(old(self)@) == Some((final(self)@, opt_view(res))),
    {
        let bytes = self.read_to_oneof(&[0x2Fu8, 0x3Eu8, 0x00u8, 0x09u8, 0x0Au8, 0x20u8, 0x0Cu8]);
        let mut all = true;
        let mut i: usize = 0;
        while i < bytes.len()
            invariant
                i <= bytes@.len(),
                all == forall|j: int| 0 <= j < i ==> is_ascii_alnum(#[trigger] bytes@[j]),
            decreases bytes@.len() - i,
        {
            if !is_ascii_alphanumeric(bytes[i]) {
                all = false;
            }
            i += 1;
        }
        if all {
            self.set_tag_name(bytes);
        }
        if self.stream.is_eof() {
            return Some(self.emit_eof());
        }
        let c = self.read_current();
        if c == 0x2Fu8 {
            self.switch_to(State::SelfClosingStartTag);
        } else if c == 0x3Eu8 {
            self.switch_to(State::Data);
            return Some(self.emit_current_token());
        } else if c == 0x00u8 {
            self.append_replacement_char_to_tag_name();
        } else if is_ascii_whitespace(c) {
            self.switch_to(State::BeforeAttributeName);
        }
        None
    }

    fn process_end_tag_open_state(&mut self) -> (res: Option<Token>)
        requires
            old(self)@.wf(),
            end_tag_open_state(old(self)@) is Some,
        ensures
            final(self)@.wf(),
            end_tag_open_state(old(self)@) == Some((final(self)@, opt_view(res))),
    {
        let c = self.read_current();
        if is_ascii_alphanumeric(c) {
            self.new_token(Token::new_end_tag());
            self.reconsume_in(State::TagName);
            return None;
        }
        if c == 0x3Eu8 {
            self.switch_to(State::Data);
        } else {
            vstd::pervasive::unreached::<()>();
        }
        None
    }

    fn process_self_closing_start_tag_state(&mut self) -> (res: Option<Token>)
        requires
            old(self)@.wf(),
            self_closing_start_tag_state(old(self)@) is Some,
        ensures
            final(self)@.wf(),
            self_closing_start_tag_state(old(self)@) == Some((final(self)@, opt_view(res))),
    {
        let b = self.read_current();
        if b == 0x3Eu8 {
            match &mut self.current_token {
                Some(Token::Tag { self_closing, .. }) => {
                    *self_closing = true;
                },
                Some(_) => {},
                None => vstd::pervasive::unreached(),
            }
            self.switch_to(State::Data);
            return Some(self.emit_current_token());
        }
        self.reconsume_in(State::BeforeAttributeName);
        None
    }

    fn process_before_attribute_name_state(&mut self) -> (res: Option<Token>)
        requires
            old(self)@.wf(),
            before_attribute_name_state(old(self)@) is Some,
        ensures
            final(self)@.wf(),
            before_attribute_name_state(old(self)@) == Some((final(self)@, opt_view(res))),
    {
        let c = self.read_current_skipped_whitespace();
        if c == 0x2Fu8 || c == 0x3Eu8 {
            self.reconsume_in(State::AfterAttributeName);
        } else if c == 0x3Du8 {
            self.switch_to(State::AttributeName);
        } else {
            self.reconsume_in(State::AttributeName);
        }
        None
    }

    fn process_attribute_name_state(&mut self) -> (res: Option<Token>)
        requires
            old(self)@.wf(),
            attribute_name_state(old(self)@) is Some,
        ensures
            final(self)@.wf(),
            attribute_name_state(old(self)@) == Some((final(self)@, opt_view(res))),
    {
        let bytes = self.read_to_whitespace_or_oneof(
            &[0x2Fu8, 0x3Eu8, 0x3Du8, 0x00u8, 0x22u8, 0x27u8, 0x3Cu8],
        );
        if bytes.len() != 0 {
            self.set_attribute_name(bytes);
        }
        if self.stream.is_eof() {
            self.switch_to(State::AfterAttributeName);
            return None;
        }
        let c = self.read_current();
        if is_ascii_whitespace(c) {
            self.reconsume_in(State::AfterAttributeName);
        } else if c == 0x2Fu8 || c == 0x3Eu8 {
            self.reconsume_in(State::AfterAttributeName);
        } else if c == 0x3Du8 {
            self.switch_to(State::BeforeAttributeValue);
        } else if c == 0x00u8 {
            self.append_char_to_attribute_name(REPLACEMENT_CHARACTER);
        } else if c == 0x22u8 || c == 0x27u8 || c == 0x3Cu8 {
            self.append_char_to_attribute_name(c as char);
        }
        None
    }

    fn process_after_attribute_name_state(&mut self) -> (res: Option<Token>)
        requires
            old(self)@.wf(),
            after_attribute_name_state(old(self)@) is Some,
        ensures
            final(self)@.wf(),
            after_attribute_name_state(old(self)@) == Some((final(self)@, opt_view(res))),
    {
        let b = self.read_current_skipped_whitespace();
        if b == 0x2Fu8 {
            self.switch_to(State::SelfClosingStartTag);
        } else if b == 0x3Du8 {
            self.switch_to(State::BeforeAttributeValue);
        } else if b == 0x3Eu8 {
            self.switch_to(State::Data);
            return Some(self.emit_current_token());
        } else {
            self.reconsume_in(State::AttributeName);
        }
        None
    }

    fn process_before_attribute_value_state(&mut self) -> (res: Option<Token>)
        requires
            old(self)@.wf(),
            before_attribute_value_state(old(self)@) is Some,
        ensures
            final(self)@.wf(),
            before_attribute_value_state(old(self)@) == Some((final(self)@, opt_view(res))),
    {
        let c = self.read_current_skipped_whitespace();
        if c == 0x22u8 {
            self.switch_to(State::AttributeValueDoubleQuoted);
        } else if c == 0x27u8 {
            self.switch_to(State::AttributeValueSingleQuoted);
        } else if c == 0x3Eu8 {
            self.switch_to(State::Data);
            return Some(self.emit_current_token());
        } else {
            self.reconsume_in(State::AttributeValueUnQuoted);
        }
        None
    }

    fn process_attribute_value_double_quoted_state(&mut self) -> (res: Option<Token>)
        requires
            old(self)@.wf(),
            attribute_value_double_quoted_state(old(self)@) is Some,
        ensures
            final(self)@.wf(),
            attribute_value_double_quoted_state(old(self)@) == Some((final(self)@, opt_view(res))),
    {
        let bytes = self.read_to_oneof(&[0x22u8, 0x26u8, 0x00u8]);
        if bytes.len() != 0 {
            self.set_attribute_value(bytes);
        }
        if self.stream.is_eof() {
            return Some(self.emit_eof());
        }
        let c = self.read_current();
        if c == 0x22u8 {
            self.switch_to(State::AfterAttributeValueQuoted);
        } else if c == 0x26u8 {
            self.return_state = Some(State::AttributeValueDoubleQuoted);
            vstd::pervasive::unreached::<()>();
        } else if c == 0x00u8 {
            self.append_char_to_attribute_value(REPLACEMENT_CHARACTER);
        }
        None
    }

    /// This state is not implemented: no round runs from it (`step` stops
    /// there), so nothing reaches this handler.
    fn process_attribute_value_single_quoted_state(&mut self) -> (res: Option<Token>)
        requires
            step(old(self)@) is Some,
            old(self)@.state == State::AttributeValueSingleQuoted,
    {
        vstd::pervasive::unreached()
    }

    /// This state is not implemented: no round runs from it (`step` stops
    /// there), so nothing reaches this handler.
    fn process_attribute_value_unquoted_state(&mut self) -> (res: Option<Token>)
        requires
            step(old(self)@) is Some,
            old(self)@.state == State::AttributeValueUnQuoted,
    {
        vstd::pervasive::unreached()
    }

    fn process_after_attribute_value_quoted_state(&mut self) -> (res: Option<Token>)
        requires
            old(self)@.wf(),
            after_attribute_value_quoted_state(old(self)@) is Some,
        ensures
            final(self)@.wf(),
            after_attribute_value_quoted_state(old(self)@) == Some((final(self)@, opt_view(res))),
    {
        let c = self.read_current();
        if is_ascii_whitespace(c) {
            self.switch_to(State::BeforeAttributeName);
        } else if c == 0x2Fu8 {
            self.switch_to(State::SelfClosingStartTag);
        } else if c == 0x3Eu8 {
            self.switch_to(State::Data);
            return Some(self.emit_current_token());
        } else {
            self.reconsume_in(State::BeforeAttributeName);
        }
        None
    }

    fn process_markup_declaration_open_state(&mut self) -> (res: Option<Token>)
        requires
            old(self)@.wf(),
            markup_declaration_open_state(old(self)@) is Some,
        ensures
            final(self)@.wf(),
            markup_declaration_open_state(old(self)@) == Some((final(self)@, opt_view(res))),
    {
        proof {
            assert(dash_dash() == seq![0x2Du8, 0x2Du8]);
        }
        if self.read_if_match(&[0x2Du8, 0x2Du8], false) {
            vstd::pervasive::unreached::<()>();
        }
        if self.read_if_match(&[0x44u8, 0x4Fu8, 0x43u8, 0x54u8, 0x59u8, 0x50u8, 0x45u8], true) {
            self.switch_to(State::DOCTYPE);
            return None;
        }
        vstd::pervasive::unreached()
    }

    fn process_doctype_state(&mut self) -> (res: Option<Token>)
        requires
            old(self)@.wf(),
            doctype_state(old(self)@) is Some,
        ensures
            final(self)@.wf(),
            doctype_state(old(self)@) == Some((final(self)@, opt_view(res))),
    {
        let c = self.read_current();
        if is_ascii_whitespace(c) {
            self.switch_to(State::BeforeDOCTYPEName);
        } else {
            self.reconsume_in(State::BeforeDOCTYPEName);
        }
        None
    }

    fn process_before_doctype_name_state(&mut self) -> (res: Option<Token>)
        requires
            old(self)@.wf(),
            before_doctype_name_state(old(self)@) is Some,
        ensures
            final(self)@.wf(),
            before_doctype_name_state(old(self)@) == Some((final(self)@, opt_view(res))),
    {
        let b = self.read_current_skipped_whitespace();
        if b == 0x3Eu8 {
            let token = Token::new_doctype_with_force_quirks();
            self.new_token(token);
            self.switch_to(State::Data);
            return Some(self.emit_current_token());
        } else if b == 0x00u8 {
            let token = Token::new_doctype_char_of(REPLACEMENT_CHARACTER);
            self.new_token(token);
            self.switch_to(State::DOCTYPEName);
        } else {
            let token = Token::new_doctype_char_of(b as char);
            self.new_token(token);
            self.switch_to(State::DOCTYPEName);
        }
        None
    }

    fn process_doctype_name_state(&mut self) -> (res: Option<Token>)
        requires
            old(self)@.wf(),
            doctype_name_state(old(self)@) is Some,
        ensures
            final(self)@.wf(),
            doctype_name_state(old(self)@) == Some((final(self)@, opt_view(res))),
    {
        let bytes = self.read_to_whitespace_or_oneof(&[0x3Eu8, 0x00u8]);
        if bytes.len() != 0 {
            self.concat_to_doctype_name(bytes);
        }
        if self.stream.is_eof() {
            let mut token = clone_token_slot(&self.current_token).unwrap();
            token.set_force_quirks(true);
            self.will_emit(token);
            return Some(self.emit_eof());
        }
        let b = self.read_current();
        if is_ascii_whitespace(b) {
            self.switch_to(State::AfterDOCTYPEName);
        } else if b == 0x3Eu8 {
            self.switch_to(State::Data);
            return Some(self.emit_current_token());
        } else if b == 0x00u8 {
            self.append_char_to_doctype_name(REPLACEMENT_CHARACTER);
        }
        None
    }

    /// This state is not implemented: no round runs from it (`step` stops
    /// there), so nothing reaches this handler.
    fn process_after_doctype_name_state(&mut self) -> (res: Option<Token>)
        requires
            step(old(self)@) is Some,
            old(self)@.state == State::AfterDOCTYPEName,
    {
        vstd::pervasive::unreached()
    }

    /// This state is not implemented: no round runs from it (`step` stops
    /// there), so nothing reaches this handler.
    fn process_bogus_doctype_state(&mut self) -> (res: Option<Token>)
        requires
            step(old(self)@) is Some,
            old(self)@.state == State::BogusDOCTYPE,
    {
        vstd::pervasive::unreached()
    }

    fn process_rawtext_state(&mut self) -> (res: Option<Token>)
        requires
            old(self)@.wf(),
            rawtext_state(old(self)@) is Some,
        ensures
            final(self)@.wf(),
            rawtext_state(old(self)@) == Some((final(self)@, opt_view(res))),
    {
        let bytes = self.read_to_oneof(&[0x3Cu8, 0x00u8]);
        if bytes.len() != 0 {
            return Some(self.emit_text(bytes));
        }
        if self.stream.is_eof() {
            return Some(self.emit_eof());
        }
        let b = self.read_current();
        if b == 0x3Cu8 {
            self.switch_to(State::RAWTEXTLessThanSign);
        } else if b == 0x00u8 {
            return Some(self.emit_char(REPLACEMENT_CHARACTER));
        }
        None
    }

    /// This state is not implemented: no round runs from it (`step` stops
    /// there), so nothing reaches this handler.
    fn process_rawtext_less_than_sign_state(&mut self) -> (res: Option<Token>)
        requires
            step(old(self)@) is Some,
            old(self)@.state == State::RAWTEXTLessThanSign,
    {
        vstd::pervasive::unreached()
    }

    /// This state is not implemented: no round runs from it (`step` stops
    /// there), so nothing reaches this handler.
    fn process_rawtext_end_tag_open_state(&mut self) -> (res: Option<Token>)
        requires
            step(old(self)@) is Some,
            old(self)@.state == State::RAWTEXTEndTagOpen,
    {
        vstd::pervasive::unreached()
    }

    /// This state is not implemented: no round runs from it (`step` stops
    /// there), so nothing reaches this handler.
    fn process_rawtext_end_tag_name_state(&mut self) -> (res: Option<Token>)
        requires
            step(old(self)@) is Some,
            old(self)@.state == State::RAWTEXTEndTagName,
    {
        vstd::pervasive::unreached()
    }

    fn process_rcdata_state(&mut self) -> (res: Option<Token>)
        requires
            old(self)@.wf(),
            rcdata_state(old(self)@) is Some,
        ensures
            final(self)@.wf(),
            rcdata_state(old(self)@) == Some((final(self)@, opt_view(res))),
    {
        let bytes = self.read_to_oneof(&[0x26u8, 0x3Cu8, 0x00u8]);
        if bytes.len() != 0 {
            return Some(self.emit_text(bytes));
        }
        if self.stream.is_eof() {
            return Some(self.emit_eof());
        }
        let b = self.read_current();
        if b == 0x26u8 {
            self.return_state = Some(State::RCDATA);
            vstd::pervasive::unreached::<()>();
        } else if b == 0x3Cu8 {
            self.switch_to(State::RCDATALessThanSign);
        } else if b == 0x00u8 {
            return Some(self.emit_char(REPLACEMENT_CHARACTER));
        }
        None
    }

    fn process_rcdata_less_than_sign_state(&mut self) -> (res: Option<Token>)
        requires
            old(self)@.wf(),
            rcdata_less_than_sign_state(old(self)@) is Some,
        ensures
            final(self)@.wf(),
            rcdata_less_than_sign_state(old(self)@) == Some((final(self)@, opt_view(res))),
    {
        let b = self.read_current();
        if b == 0x2Fu8 {
            self.clear_tmp_buffer();
            self.switch_to(State::RCDATAEndTagOpen);
        } else {
            proof {
                reveal_strlit("<");
                assert("<"@ =~= seq!['<']);
            }
            self.will_emit(Token::new_text("<"));
            self.reconsume_in(State::RCDATA);
        }
        None
    }

    fn process_rcdata_end_tag_open_state(&mut self) -> (res: Option<Token>)
        requires
            old(self)@.wf(),
            rcdata_end_tag_open_state(old(self)@) is Some,
        ensures
            final(self)@.wf(),
            rcdata_end_tag_open_state(old(self)@) == Some((final(self)@, opt_view(res))),
    {
        let b = self.read_current();
        if is_ascii_alphabetic(b) {
            self.new_token(Token::new_end_tag());
            self.reconsume_in(State::RCDATAEndTagName);
        } else {
            proof {
                reveal_strlit("</");
                assert("</"@ =~= seq!['<', '/']);
            }
            self.will_emit(Token::new_text("</"));
            self.reconsume_in(State::RCDATA);
        }
        None
    }

    /// What is not an end tag after all goes out as text, back in RCDATA.
    fn invalid(&mut self)
        requires
            old(self)@.wf(),
            rcdata_invalid_end_tag(old(self)@) is Some,
        ensures
            final(self)@.wf(),
            rcdata_invalid_end_tag(old(self)@) == Some(final(self)@),
    {
        proof {
            reveal_strlit("</");
            assert("</"@ =~= seq!['<', '/']);
        }
        self.will_emit(Token::new_text("</"));
        self.emit_tmp_buffer();
        self.reconsume_in(State::RCDATA);
    }

    fn process_rcdata_end_tag_name_state(&mut self) -> (res: Option<Token>)
        requires
            old(self)@.wf(),
            rcdata_end_tag_name_state(old(self)@) is Some,
        ensures
            final(self)@.wf(),
            rcdata_end_tag_name_state(old(self)@) == Some((final(self)@, opt_view(res))),
    {
        let bytes = self.read_to_whitespace_or_oneof(&[0x2Fu8, 0x3Eu8, 0x00u8]);
        if bytes.len() != 0 {
            self.concat_to_tag_name(bytes);
            self.push_many_to_tmp_buffer(bytes);
        }
        if self.stream.is_eof() {
            self.invalid();
            return None;
        }
        let b = self.read_current();
        if b == 0x2Fu8 {
            if !self.is_appropriate_end_tag() {
                self.invalid();
            } else {
                self.switch_to(State::SelfClosingStartTag);
            }
        } else if b == 0x3Eu8 {
            if !self.is_appropriate_end_tag() {
                self.invalid();
            } else {
                self.switch_to(State::Data);
                return Some(self.emit_current_token());
            }
        } else if is_ascii_whitespace(b) {
            if !self.is_appropriate_end_tag() {
                self.invalid();
            } else {
                self.switch_to(State::BeforeAttributeName);
            }
        } else {
            self.invalid();
        }
        None
    }
}

} // verus!

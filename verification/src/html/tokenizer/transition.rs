//! The character tokenizer's state machine as mathematics: what one round of
//! each state does to the tokenizer, and which token, if any, it hands out. A
//! round is `None` where the tokenizer cannot go on: a state it does not
//! implement, or a value it expects and does not find.

use vstd::prelude::*;
use super::state::State;
use super::token::{TokenView, start_tag_view, end_tag_view, doctype_view, char_tokens};
use crate::fast_html::tokenizer::token::AttributeView;
use crate::fast_html::tokenizer::transition::{dup_indices, remove_each};

verus! {

/// U+FFFD, put in place of a NUL character.
pub const REPLACEMENT_CHARACTER: char = '\u{FFFD}';

/// A character as the states look at it.
#[allow(non_camel_case_types)]
#[derive(Debug)]
pub enum Char {
    ch(char),
    eof,
    null,
    whitespace,
}

/* characters --------------------------------- */

/// The characters with the Unicode White_Space property, which is what
/// `char::is_whitespace` tests.
pub open spec fn is_unicode_ws(c: char) -> bool {
    let u = c as u32;
    (0x09 <= u && u <= 0x0D) || u == 0x20 || u == 0x85 || u == 0xA0 || u == 0x1680 || (0x2000 <= u
        && u <= 0x200A) || u == 0x2028 || u == 0x2029 || u == 0x202F || u == 0x205F || u == 0x3000
}

pub open spec fn is_ascii_upper(c: char) -> bool {
    'A' <= c && c <= 'Z'
}

pub open spec fn is_ascii_lower(c: char) -> bool {
    'a' <= c && c <= 'z'
}

pub open spec fn is_ascii_alpha(c: char) -> bool {
    is_ascii_upper(c) || is_ascii_lower(c)
}

/// The character with an ASCII upper-case letter made lower-case.
pub open spec fn ascii_lower(c: char) -> char {
    if is_ascii_upper(c) {
        ((c as u32) + 32) as char
    } else {
        c
    }
}

/// How a character reads: NUL, whitespace, or itself.
pub open spec fn classify(c: char) -> Char {
    if c == '\0' {
        Char::null
    } else if is_unicode_ws(c) {
        Char::whitespace
    } else {
        Char::ch(c)
    }
}

/// The text with ASCII upper-case letters made lower-case.
pub open spec fn lower_seq(s: Seq<char>) -> Seq<char> {
    s.map_values(|c: char| ascii_lower(c))
}

/// The token as it is queued: a tag loses the attributes at its duplicate
/// positions, removed one after the other.
pub open spec fn dedup(t: TokenView) -> Option<TokenView> {
    match t {
        TokenView::Tag { tag_name, attributes, self_closing, self_closing_acknowledged, is_end_tag } => {
            let idxs = dup_indices(attributes);
            match remove_each(attributes, idxs, idxs.len() as int) {
                Some(attrs) => Some(
                    TokenView::Tag { tag_name, attributes: attrs, self_closing, self_closing_acknowledged, is_end_tag },
                ),
                None => None,
            }
        },
        other => Some(other),
    }
}

/* tokenizer ---------------------------------- */

/// Everything a tokenizer holds: the input and how much of it was taken, the
/// tokens waiting to be handed out (the first one goes first), the state and
/// the state to return to, the character last taken and whether it is to be
/// taken again, the token under construction, the last start tag queued, and
/// the characters kept while a reference or an end tag is read.
pub struct TokenizerView {
    pub input: Seq<char>,
    pub pos: int,
    pub output: Seq<TokenView>,
    pub state: State,
    pub return_state: Option<State>,
    pub current_character: char,
    pub reconsume_char: bool,
    pub current_token: Option<TokenView>,
    pub last_emitted_start_tag: Option<TokenView>,
    pub tmp_buffer: Seq<char>,
}

/// One round: the tokenizer after it and the token it hands out, or nothing
/// where the tokenizer cannot go on.
pub type Step = Option<(TokenizerView, Option<TokenView>)>;

impl TokenizerView {
    /// The input taken lies within the input.
    pub open spec fn wf(self) -> bool {
        0 <= self.pos <= self.input.len()
    }

    /// The next character: the last one again where it is to be reconsumed,
    /// else the next one of the input, else the end of the input.
    pub open spec fn consume_next(self) -> (TokenizerView, Char) {
        if self.reconsume_char {
            (TokenizerView { reconsume_char: false, ..self }, classify(self.current_character))
        } else if self.pos < self.input.len() {
            let c = self.input[self.pos];
            (TokenizerView { pos: self.pos + 1, current_character: c, ..self }, classify(c))
        } else {
            (self, Char::eof)
        }
    }

    /// Takes the next `n` characters.
    pub open spec fn consume_n(self, n: nat) -> TokenizerView
        decreases n,
    {
        if n == 0 {
            self
        } else {
            self.consume_next().0.consume_n((n - 1) as nat)
        }
    }

    /// Whether the rest of the input starts with `pattern` (ignoring ASCII case
    /// when asked); when it does, its characters are taken.
    pub open spec fn consume_if_match(self, pattern: Seq<char>, case_insensitive: bool) -> (TokenizerView, bool) {
        let rest = self.input.subrange(self.pos, self.input.len() as int);
        let matched = if case_insensitive {
            pattern.len() <= rest.len() && lower_seq(rest.subrange(0, pattern.len() as int)) == lower_seq(pattern)
        } else {
            pattern.len() <= rest.len() && rest.subrange(0, pattern.len() as int) == pattern
        };
        if matched {
            (self.consume_n(pattern.len()), true)
        } else {
            (self, false)
        }
    }

    pub open spec fn switch_to(self, st: State) -> TokenizerView {
        TokenizerView { state: st, ..self }
    }

    pub open spec fn reconsume_in(self, st: State) -> TokenizerView {
        TokenizerView { state: st, reconsume_char: true, ..self }
    }

    pub open spec fn with_return_state(self, st: State) -> TokenizerView {
        TokenizerView { return_state: Some(st), ..self }
    }

    pub open spec fn new_token(self, t: TokenView) -> TokenizerView {
        TokenizerView { current_token: Some(t), ..self }
    }

    pub open spec fn clear_tmp(self) -> TokenizerView {
        TokenizerView { tmp_buffer: Seq::empty(), ..self }
    }

    pub open spec fn push_tmp(self, c: char) -> TokenizerView {
        TokenizerView { tmp_buffer: self.tmp_buffer.push(c), ..self }
    }

    /* token editing ------------------------------ */

    /// Appends a character to the name of the current tag.
    pub open spec fn append_char_to_tag_name(self, c: char) -> Option<TokenizerView> {
        match self.current_token {
            Some(TokenView::Tag { tag_name, attributes, self_closing, self_closing_acknowledged, is_end_tag }) =>
                Some(self.new_token(TokenView::Tag {
                tag_name: tag_name.push(c),
                attributes,
                self_closing,
                self_closing_acknowledged,
                is_end_tag,
            })),
            _ => None,
        }
    }

    /// Appends a character to the data of the current comment.
    pub open spec fn append_char_to_token_data(self, c: char) -> Option<TokenizerView> {
        match self.current_token {
            Some(TokenView::Comment(data)) => Some(self.new_token(TokenView::Comment(data.push(c)))),
            _ => None,
        }
    }

    /// The current tag with its attributes replaced.
    pub open spec fn with_attributes(self, attrs: Seq<AttributeView>) -> TokenizerView {
        match self.current_token {
            Some(TokenView::Tag { tag_name, self_closing, self_closing_acknowledged, is_end_tag, .. }) =>
                self.new_token(TokenView::Tag {
                tag_name,
                attributes: attrs,
                self_closing,
                self_closing_acknowledged,
                is_end_tag,
            }),
            _ => self,
        }
    }

    /// Appends a character to the name of the current tag's last attribute.
    pub open spec fn append_char_to_attribute_name(self, c: char) -> Option<TokenizerView> {
        match self.current_token {
            None => None,
            Some(TokenView::Tag { attributes, .. }) => if attributes.len() > 0 {
                Some(
                    self.with_attributes(
                        attributes.drop_last().push(
                            AttributeView { name: attributes.last().name.push(c), value: attributes.last().value },
                        ),
                    ),
                )
            } else {
                Some(self)
            },
            Some(_) => Some(self),
        }
    }

    /// Appends a character to the value of the current tag's last attribute.
    pub open spec fn append_char_to_attribute_value(self, c: char) -> Option<TokenizerView> {
        match self.current_token {
            None => None,
            Some(TokenView::Tag { attributes, .. }) => if attributes.len() > 0 {
                Some(
                    self.with_attributes(
                        attributes.drop_last().push(
                            AttributeView { name: attributes.last().name, value: attributes.last().value.push(c) },
                        ),
                    ),
                )
            } else {
                Some(self)
            },
            Some(_) => Some(self),
        }
    }

    /// Appends a character to the name of the current DOCTYPE, which must have one.
    pub open spec fn append_char_to_doctype_name(self, c: char) -> Option<TokenizerView> {
        match self.current_token {
            None => None,
            Some(TokenView::DOCTYPE { name: Some(n), force_quirks }) => Some(
                self.new_token(TokenView::DOCTYPE { name: Some(n.push(c)), force_quirks }),
            ),
            Some(TokenView::DOCTYPE { name: None, .. }) => None,
            Some(_) => Some(self),
        }
    }

    /// Adds an attribute to the current tag.
    pub open spec fn new_attribute(self, a: AttributeView) -> Option<TokenizerView> {
        match self.current_token {
            None => None,
            Some(TokenView::Tag { attributes, .. }) => Some(self.with_attributes(attributes.push(a))),
            Some(_) => Some(self),
        }
    }

    /// Sets the self-closing flag of the current tag.
    pub open spec fn set_self_closing(self) -> Option<TokenizerView> {
        match self.current_token {
            None => None,
            Some(TokenView::Tag { tag_name, attributes, self_closing_acknowledged, is_end_tag, .. }) =>
                Some(self.new_token(TokenView::Tag {
                tag_name,
                attributes,
                self_closing: true,
                self_closing_acknowledged,
                is_end_tag,
            })),
            Some(_) => Some(self),
        }
    }

    /// Sets the force-quirks flag of the current token.
    pub open spec fn force_quirks_on_current(self) -> Option<TokenizerView> {
        match self.current_token {
            None => None,
            Some(t) => Some(self.new_token(t.with_force_quirks(true))),
        }
    }

    /// Whether the current tag closes the last start tag queued.
    pub open spec fn is_appropriate_end_tag(self) -> Option<bool> {
        match self.last_emitted_start_tag {
            None => Some(false),
            Some(last) => match self.current_token {
                None => None,
                Some(cur) => Some(
                    cur matches TokenView::Tag { tag_name: a, .. } && last matches TokenView::Tag {
                        tag_name: b,
                        ..
                    } && a == b,
                ),
            },
        }
    }

    /* emitting ----------------------------------- */

    /// Queues a token, its duplicate attributes removed; a start tag is also
    /// remembered as the last one queued.
    pub open spec fn will_emit(self, t: TokenView) -> Option<TokenizerView> {
        match dedup(t) {
            Some(t2) => Some(
                TokenizerView {
                    output: self.output.push(t2),
                    last_emitted_start_tag: if t2.is_start_tag() {
                        Some(t2)
                    } else {
                        self.last_emitted_start_tag
                    },
                    ..self
                },
            ),
            None => None,
        }
    }

    /// Queues a copy of the current token.
    pub open spec fn will_emit_current(self) -> Option<TokenizerView> {
        match self.current_token {
            None => None,
            Some(t) => self.will_emit(t),
        }
    }

    /// Hands out the first queued token.
    pub open spec fn pop_output(self) -> Step {
        if self.output.len() > 0 {
            Some((TokenizerView { output: self.output.drop_first(), ..self }, Some(self.output[0])))
        } else {
            None
        }
    }

    /// Queues the current token and hands out the first queued one.
    pub open spec fn emit_current_token(self) -> Step {
        match self.will_emit_current() {
            None => None,
            Some(w) => w.pop_output(),
        }
    }

    pub open spec fn emit_char(self, c: char) -> Step {
        self.new_token(TokenView::Character(c)).emit_current_token()
    }

    pub open spec fn emit_eof(self) -> Step {
        self.new_token(TokenView::EOF).emit_current_token()
    }

    /// Queues one character token for each kept character.
    pub open spec fn emit_tmp_buffer(self) -> TokenizerView {
        TokenizerView { output: self.output + char_tokens(self.tmp_buffer), ..self }
    }
}

/// Goes on with the next round.
pub open spec fn go_on(s: TokenizerView) -> Step {
    Some((s, None))
}

/// Goes on where the token editing succeeded.
pub open spec fn go_on_opt(s: Option<TokenizerView>) -> Step {
    match s {
        Some(s) => Some((s, None)),
        None => None,
    }
}

/* states ------------------------------------- */

pub open spec fn data_state(s: TokenizerView) -> Step {
    let (s, ch) = s.consume_next();
    match ch {
        Char::ch('&') => go_on(s.with_return_state(State::Data).switch_to(State::CharacterReference)),
        Char::ch('<') => go_on(s.switch_to(State::TagOpen)),
        Char::eof => s.emit_eof(),
        _ => s.emit_char(s.current_character),
    }
}

pub open spec fn rcdata_state(s: TokenizerView) -> Step {
    let (s, ch) = s.consume_next();
    match ch {
        Char::ch('&') => go_on(s.with_return_state(State::RCDATA).switch_to(State::CharacterReference)),
        Char::ch('<') => go_on(s.switch_to(State::RCDATALessThanSign)),
        Char::null => s.emit_char(REPLACEMENT_CHARACTER),
        Char::eof => s.emit_eof(),
        _ => s.emit_char(s.current_character),
    }
}

pub open spec fn tag_open_state(s: TokenizerView) -> Step {
    let (s, ch) = s.consume_next();
    match ch {
        Char::ch('!') => go_on(s.switch_to(State::MarkupDeclarationOpen)),
        Char::ch('/') => go_on(s.switch_to(State::EndTagOpen)),
        Char::ch(c) if is_ascii_alpha(c) => go_on(s.new_token(start_tag_view()).reconsume_in(State::TagName)),
        Char::ch('?') => go_on(s.new_token(TokenView::Comment(Seq::empty())).reconsume_in(State::BogusComment)),
        Char::eof => match s.will_emit(TokenView::Character('<')) {
            Some(s) => s.emit_eof(),
            None => None,
        },
        _ => match s.will_emit(TokenView::Character('<')) {
            Some(s) => go_on(s.reconsume_in(State::Data)),
            None => None,
        },
    }
}

pub open spec fn end_tag_open_state(s: TokenizerView) -> Step {
    let (s, ch) = s.consume_next();
    match ch {
        Char::ch(c) if is_ascii_alpha(c) => go_on(s.new_token(end_tag_view()).reconsume_in(State::TagName)),
        Char::ch('>') => go_on(s.switch_to(State::Data)),
        Char::eof => match s.will_emit(TokenView::Character('<')) {
            Some(s) => match s.will_emit(TokenView::Character('/')) {
                Some(s) => s.emit_eof(),
                None => None,
            },
            None => None,
        },
        _ => go_on(s.new_token(TokenView::Comment(Seq::empty())).reconsume_in(State::BogusComment)),
    }
}

pub open spec fn tag_name_state(s: TokenizerView) -> Step {
    let (s, ch) = s.consume_next();
    match ch {
        Char::whitespace => go_on(s.switch_to(State::BeforeAttributeName)),
        Char::ch('/') => go_on(s.switch_to(State::SelfClosingStartTag)),
        Char::ch('>') => s.switch_to(State::Data).emit_current_token(),
        Char::ch(c) if is_ascii_upper(c) => go_on_opt(s.append_char_to_tag_name(ascii_lower(c))),
        Char::null => go_on_opt(s.append_char_to_tag_name(REPLACEMENT_CHARACTER)),
        Char::eof => s.emit_eof(),
        _ => go_on_opt(s.append_char_to_tag_name(s.current_character)),
    }
}

pub open spec fn rcdata_less_than_sign_state(s: TokenizerView) -> Step {
    let (s, ch) = s.consume_next();
    match ch {
        Char::ch('/') => go_on(s.clear_tmp().switch_to(State::RCDATAEndTagOpen)),
        _ => match s.will_emit(TokenView::Character('<')) {
            Some(s) => go_on(s.reconsume_in(State::RCDATA)),
            None => None,
        },
    }
}

pub open spec fn rcdata_end_tag_open_state(s: TokenizerView) -> Step {
    let (s, ch) = s.consume_next();
    match ch {
        Char::ch(c) if is_ascii_alpha(c) => go_on(s.new_token(end_tag_view()).reconsume_in(State::RCDATAEndTagName)),
        _ => match s.will_emit(TokenView::Character('<')) {
            Some(s) => match s.will_emit(TokenView::Character('/')) {
                Some(s) => go_on(s.reconsume_in(State::RCDATA)),
                None => None,
            },
            None => None,
        },
    }
}

/// Gives up on an end tag inside RCDATA: `</` and the kept characters become
/// text, and the character is read again as RCDATA.
pub open spec fn rcdata_invalid_end_tag(s: TokenizerView) -> Step {
    match s.will_emit(TokenView::Character('<')) {
        Some(s) => match s.will_emit(TokenView::Character('/')) {
            Some(s) => go_on(s.emit_tmp_buffer().reconsume_in(State::RCDATA)),
            None => None,
        },
        None => None,
    }
}

pub open spec fn rcdata_end_tag_name_state(s: TokenizerView) -> Step {
    let (s, ch) = s.consume_next();
    match ch {
        Char::whitespace => match s.is_appropriate_end_tag() {
            None => None,
            Some(false) => rcdata_invalid_end_tag(s),
            Some(true) => go_on(s.switch_to(State::BeforeAttributeName)),
        },
        Char::ch('/') => match s.is_appropriate_end_tag() {
            None => None,
            Some(false) => rcdata_invalid_end_tag(s),
            Some(true) => go_on(s.switch_to(State::SelfClosingStartTag)),
        },
        Char::ch('>') => match s.is_appropriate_end_tag() {
            None => None,
            Some(false) => rcdata_invalid_end_tag(s),
            Some(true) => s.switch_to(State::Data).emit_current_token(),
        },
        Char::ch(c) if is_ascii_upper(c) => match s.append_char_to_tag_name(ascii_lower(c)) {
            Some(s2) => go_on(s2.push_tmp(s.current_character)),
            None => None,
        },
        Char::ch(c) if is_ascii_lower(c) => match s.append_char_to_tag_name(s.current_character) {
            Some(s2) => go_on(s2.push_tmp(s.current_character)),
            None => None,
        },
        _ => rcdata_invalid_end_tag(s),
    }
}

pub open spec fn self_closing_start_tag_state(s: TokenizerView) -> Step {
    let (s, ch) = s.consume_next();
    match ch {
        Char::ch('>') => match s.set_self_closing() {
            Some(s) => s.switch_to(State::Data).emit_current_token(),
            None => None,
        },
        Char::eof => s.emit_eof(),
        _ => go_on(s.reconsume_in(State::BeforeAttributeName)),
    }
}

pub open spec fn before_attribute_name_state(s: TokenizerView) -> Step {
    let (s, ch) = s.consume_next();
    match ch {
        Char::whitespace => go_on(s),
        Char::ch('/') | Char::ch('>') | Char::eof => go_on(s.reconsume_in(State::AfterAttributeName)),
        Char::ch('=') => match s.new_attribute(AttributeView { name: seq![s.current_character], value: Seq::empty() }) {
            Some(s) => go_on(s.switch_to(State::AttributeName)),
            None => None,
        },
        _ => match s.new_attribute(AttributeView { name: Seq::empty(), value: Seq::empty() }) {
            Some(s) => go_on(s.reconsume_in(State::AttributeName)),
            None => None,
        },
    }
}

pub open spec fn attribute_name_state(s: TokenizerView) -> Step {
    let (s, ch) = s.consume_next();
    match ch {
        Char::whitespace | Char::ch('/') | Char::ch('>') | Char::eof => go_on(s.reconsume_in(State::AfterAttributeName)),
        Char::ch('=') => go_on(s.switch_to(State::BeforeAttributeValue)),
        Char::ch(c) if is_ascii_upper(c) => go_on_opt(s.append_char_to_attribute_name(ascii_lower(c))),
        Char::null => go_on_opt(s.append_char_to_attribute_name(REPLACEMENT_CHARACTER)),
        _ => go_on_opt(s.append_char_to_attribute_name(s.current_character)),
    }
}

pub open spec fn after_attribute_name_state(s: TokenizerView) -> Step {
    let (s, ch) = s.consume_next();
    match ch {
        Char::whitespace => go_on(s),
        Char::ch('/') => go_on(s.switch_to(State::SelfClosingStartTag)),
        Char::ch('=') => go_on(s.switch_to(State::BeforeAttributeValue)),
        Char::ch('>') => s.switch_to(State::Data).emit_current_token(),
        Char::eof => s.emit_eof(),
        _ => match s.new_attribute(AttributeView { name: Seq::empty(), value: Seq::empty() }) {
            Some(s) => go_on(s.reconsume_in(State::AttributeName)),
            None => None,
        },
    }
}

pub open spec fn before_attribute_value_state(s: TokenizerView) -> Step {
    let (s, ch) = s.consume_next();
    match ch {
        Char::whitespace => go_on(s),
        Char::ch('"') => go_on(s.switch_to(State::AttributeValueDoubleQuoted)),
        Char::ch('\'') => go_on(s.switch_to(State::AttributeValueSingleQuoted)),
        Char::ch('>') => s.switch_to(State::Data).emit_current_token(),
        _ => go_on(s.reconsume_in(State::AttributeValueUnQuoted)),
    }
}

/// The quoted attribute value states, closed by `quote`.
pub open spec fn attribute_value_quoted_state(s: TokenizerView, quote: char, own: State) -> Step {
    let (s, ch) = s.consume_next();
    match ch {
        Char::ch(c) if c == quote => go_on(s.switch_to(State::AfterAttributeValueQuoted)),
        Char::ch('&') => go_on(s.with_return_state(own).switch_to(State::CharacterReference)),
        Char::null => go_on_opt(s.append_char_to_attribute_value(REPLACEMENT_CHARACTER)),
        Char::eof => s.emit_eof(),
        _ => go_on_opt(s.append_char_to_attribute_value(s.current_character)),
    }
}

pub open spec fn attribute_value_unquoted_state(s: TokenizerView) -> Step {
    let (s, ch) = s.consume_next();
    match ch {
        Char::whitespace => go_on(s.switch_to(State::BeforeAttributeName)),
        Char::ch('&') => go_on(s.with_return_state(State::AttributeValueUnQuoted).switch_to(State::CharacterReference)),
        Char::ch('>') => s.switch_to(State::Data).emit_current_token(),
        Char::null => go_on_opt(s.append_char_to_attribute_value(REPLACEMENT_CHARACTER)),
        Char::eof => s.emit_eof(),
        _ => go_on_opt(s.append_char_to_attribute_value(s.current_character)),
    }
}

pub open spec fn after_attribute_value_quoted_state(s: TokenizerView) -> Step {
    let (s, ch) = s.consume_next();
    match ch {
        Char::whitespace => go_on(s.switch_to(State::BeforeAttributeName)),
        Char::ch('/') => go_on(s.switch_to(State::SelfClosingStartTag)),
        Char::ch('>') => s.switch_to(State::Data).emit_current_token(),
        Char::eof => s.emit_eof(),
        _ => go_on(s.reconsume_in(State::BeforeAttributeName)),
    }
}

pub open spec fn bogus_comment_state(s: TokenizerView) -> Step {
    let (s, ch) = s.consume_next();
    match ch {
        Char::ch('>') => s.switch_to(State::Data).emit_current_token(),
        Char::eof => match s.will_emit_current() {
            Some(s) => s.emit_eof(),
            None => None,
        },
        Char::null => go_on_opt(s.append_char_to_token_data(REPLACEMENT_CHARACTER)),
        _ => go_on_opt(s.append_char_to_token_data(s.current_character)),
    }
}

pub open spec fn dash_dash() -> Seq<char> {
    seq!['-', '-']
}

pub open spec fn doctype_word() -> Seq<char> {
    seq!['d', 'o', 'c', 't', 'y', 'p', 'e']
}

pub open spec fn cdata_word() -> Seq<char> {
    seq!['[', 'C', 'D', 'A', 'T', 'A', '[']
}

/// `<!` is followed by `--`, `doctype` in any case, or anything else; a CDATA
/// section is not supported.
pub open spec fn markup_declaration_open_state(s: TokenizerView) -> Step {
    let (s1, m1) = s.consume_if_match(dash_dash(), false);
    if m1 {
        go_on(s1.new_token(TokenView::Comment(Seq::empty())).switch_to(State::CommentStart))
    } else {
        let (s2, m2) = s.consume_if_match(doctype_word(), true);
        if m2 {
            go_on(s2.switch_to(State::DOCTYPE))
        } else {
            let (_s3, m3) = s.consume_if_match(cdata_word(), false);
            if m3 {
                None
            } else {
                go_on(s.new_token(TokenView::Comment(Seq::empty())).switch_to(State::BogusComment))
            }
        }
    }
}

pub open spec fn doctype_state(s: TokenizerView) -> Step {
    let (s, ch) = s.consume_next();
    match ch {
        Char::whitespace => go_on(s.switch_to(State::BeforeDOCTYPEName)),
        Char::eof => match s.new_token(doctype_view().with_force_quirks(true)).will_emit_current() {
            Some(s) => s.emit_eof(),
            None => None,
        },
        _ => go_on(s.reconsume_in(State::BeforeDOCTYPEName)),
    }
}

pub open spec fn before_doctype_name_state(s: TokenizerView) -> Step {
    let (s, ch) = s.consume_next();
    match ch {
        Char::whitespace => go_on(s),
        Char::ch(c) if is_ascii_upper(c) => go_on(
            s.new_token(doctype_view().with_doctype_name_char(ascii_lower(c))).switch_to(State::DOCTYPEName),
        ),
        Char::null => go_on(
            s.new_token(doctype_view().with_doctype_name_char(REPLACEMENT_CHARACTER)).switch_to(State::DOCTYPEName),
        ),
        Char::ch('>') => s.new_token(doctype_view().with_force_quirks(true)).switch_to(State::Data).emit_current_token(),
        Char::eof => match s.new_token(doctype_view().with_force_quirks(true)).will_emit_current() {
            Some(s) => s.emit_eof(),
            None => None,
        },
        _ => go_on(
            s.new_token(doctype_view().with_doctype_name_char(s.current_character)).switch_to(State::DOCTYPEName),
        ),
    }
}

pub open spec fn doctype_name_state(s: TokenizerView) -> Step {
    let (s, ch) = s.consume_next();
    match ch {
        Char::whitespace => go_on(s.switch_to(State::AfterDOCTYPEName)),
        Char::ch('>') => s.switch_to(State::Data).emit_current_token(),
        Char::ch(c) if is_ascii_upper(c) => go_on_opt(s.append_char_to_doctype_name(ascii_lower(c))),
        Char::null => go_on_opt(s.append_char_to_doctype_name(REPLACEMENT_CHARACTER)),
        Char::eof => match s.force_quirks_on_current() {
            Some(s) => match s.will_emit_current() {
                Some(s) => s.emit_eof(),
                None => None,
            },
            None => None,
        },
        _ => go_on_opt(s.append_char_to_doctype_name(s.current_character)),
    }
}

pub open spec fn after_doctype_name_state(s: TokenizerView) -> Step {
    let (s, ch) = s.consume_next();
    match ch {
        Char::whitespace => go_on(s),
        Char::ch('>') => s.switch_to(State::Data).emit_current_token(),
        Char::eof => match s.force_quirks_on_current() {
            Some(s) => match s.will_emit_current() {
                Some(s) => s.emit_eof(),
                None => None,
            },
            None => None,
        },
        _ => match s.force_quirks_on_current() {
            Some(s) => go_on(s.reconsume_in(State::BogusDOCTYPE)),
            None => None,
        },
    }
}

pub open spec fn bogus_doctype_state(s: TokenizerView) -> Step {
    let (s, ch) = s.consume_next();
    match ch {
        Char::ch('>') => s.switch_to(State::Data).emit_current_token(),
        Char::eof => match s.will_emit_current() {
            Some(s) => s.emit_eof(),
            None => None,
        },
        _ => go_on(s),
    }
}

/// `&` starts a reference: a letter leads to a named one, `#` to a numeric
/// one, anything else gives the `&` back as text in the state returned to.
pub open spec fn character_reference_state(s: TokenizerView) -> Step {
    let (s, ch) = s.consume_next();
    let s = s.clear_tmp().push_tmp('&');
    match ch {
        Char::ch(c) if is_ascii_alpha(c) => go_on(s.reconsume_in(State::NamedCharacterReference)),
        Char::ch('#') => go_on(s.push_tmp(s.current_character).switch_to(State::NumericCharacterReference)),
        _ => match s.return_state {
            Some(r) => go_on(s.emit_tmp_buffer().reconsume_in(r)),
            None => None,
        },
    }
}

/// One round of the state machine; the states it does not implement stop it.
pub open spec fn step(s: TokenizerView) -> Step {
    match s.state {
        State::Data => data_state(s),
        State::RCDATA => rcdata_state(s),
        State::TagOpen => tag_open_state(s),
        State::EndTagOpen => end_tag_open_state(s),
        State::TagName => tag_name_state(s),
        State::RCDATALessThanSign => rcdata_less_than_sign_state(s),
        State::RCDATAEndTagOpen => rcdata_end_tag_open_state(s),
        State::RCDATAEndTagName => rcdata_end_tag_name_state(s),
        State::SelfClosingStartTag => self_closing_start_tag_state(s),
        State::BeforeAttributeName => before_attribute_name_state(s),
        State::AttributeName => attribute_name_state(s),
        State::AfterAttributeName => after_attribute_name_state(s),
        State::BeforeAttributeValue => before_attribute_value_state(s),
        State::AttributeValueDoubleQuoted => attribute_value_quoted_state(
            s,
            '"',
            State::AttributeValueDoubleQuoted,
        ),
        State::AttributeValueSingleQuoted => attribute_value_quoted_state(
            s,
            '\'',
            State::AttributeValueSingleQuoted,
        ),
        State::AttributeValueUnQuoted => attribute_value_unquoted_state(s),
        State::AfterAttributeValueQuoted => after_attribute_value_quoted_state(s),
        State::BogusComment => bogus_comment_state(s),
        State::MarkupDeclarationOpen => markup_declaration_open_state(s),
        State::DOCTYPE => doctype_state(s),
        State::BeforeDOCTYPEName => before_doctype_name_state(s),
        State::DOCTYPEName => doctype_name_state(s),
        State::AfterDOCTYPEName => after_doctype_name_state(s),
        State::BogusDOCTYPE => bogus_doctype_state(s),
        State::CharacterReference => character_reference_state(s),
        _ => None,
    }
}

/// The rounds run until one hands out a token, within `fuel` rounds.
pub open spec fn run(s: TokenizerView, fuel: nat) -> Option<(TokenizerView, TokenView)>
    decreases fuel,
{
    if fuel == 0 {
        None
    } else {
        match step(s) {
            None => None,
            Some((s2, Some(t))) => Some((s2, t)),
            Some((s2, None)) => run(s2, (fuel - 1) as nat),
        }
    }
}

/// The next token: the first queued one, else the first one the rounds hand out.
pub open spec fn next(s: TokenizerView, fuel: nat) -> Option<(TokenizerView, TokenView)> {
    if s.output.len() > 0 {
        Some((TokenizerView { output: s.output.drop_first(), ..s }, s.output[0]))
    } else {
        run(s, fuel)
    }
}

/// Whether asking for the next token gets one: the rounds reach a token
/// without stopping.
pub open spec fn yields(s: TokenizerView) -> bool {
    exists|fuel: nat| #[trigger] next(s, fuel) is Some
}

/// Taking a character keeps the input and never moves back in it.
pub proof fn lemma_consume_next_forward(s: TokenizerView)
    requires
        s.wf(),
    ensures
        s.consume_next().0.input == s.input,
        s.pos <= s.consume_next().0.pos,
        s.consume_next().0.wf(),
{
}

/// Taking `n` characters keeps the input and never moves back in it.
pub proof fn lemma_consume_n_forward(s: TokenizerView, n: nat)
    requires
        s.wf(),
    ensures
        s.consume_n(n).input == s.input,
        s.pos <= s.consume_n(n).pos,
        s.consume_n(n).wf(),
    decreases n,
{
    if n > 0 {
        lemma_consume_next_forward(s);
        lemma_consume_n_forward(s.consume_next().0, (n - 1) as nat);
    }
}

/// Whether a round from `s` keeps the input and does not move back in it.
pub open spec fn reads_forward(s: TokenizerView, r: Step) -> bool {
    r matches Some((next_state, _)) ==> next_state.input == s.input && s.pos <= next_state.pos
        && next_state.wf()
}

/// Every round keeps the input and reads forward: the position in the input
/// never moves back, and stays within the input.
#[verifier::rlimit(50)]
pub proof fn law_step_reads_forward(s: TokenizerView)
    requires
        s.wf(),
    ensures
        reads_forward(s, step(s)),
{
    lemma_consume_next_forward(s);
    lemma_consume_n_forward(s, dash_dash().len());
    lemma_consume_n_forward(s, doctype_word().len());
    match s.state {
        State::Data => assert(reads_forward(s, data_state(s))),
        State::RCDATA => assert(reads_forward(s, rcdata_state(s))),
        State::TagOpen => assert(reads_forward(s, tag_open_state(s))),
        State::EndTagOpen => assert(reads_forward(s, end_tag_open_state(s))),
        State::TagName => assert(reads_forward(s, tag_name_state(s))),
        State::RCDATALessThanSign => assert(reads_forward(s, rcdata_less_than_sign_state(s))),
        State::RCDATAEndTagOpen => assert(reads_forward(s, rcdata_end_tag_open_state(s))),
        State::RCDATAEndTagName => assert(reads_forward(s, rcdata_end_tag_name_state(s))),
        State::SelfClosingStartTag => assert(reads_forward(s, self_closing_start_tag_state(s))),
        State::BeforeAttributeName => assert(reads_forward(s, before_attribute_name_state(s))),
        State::AttributeName => assert(reads_forward(s, attribute_name_state(s))),
        State::AfterAttributeName => assert(reads_forward(s, after_attribute_name_state(s))),
        State::BeforeAttributeValue => assert(reads_forward(s, before_attribute_value_state(s))),
        State::AttributeValueDoubleQuoted => assert(reads_forward(s, attribute_value_quoted_state(s, '"', State::AttributeValueDoubleQuoted))),
        State::AttributeValueSingleQuoted => assert(reads_forward(s, attribute_value_quoted_state(s, '\'', State::AttributeValueSingleQuoted))),
        State::AttributeValueUnQuoted => assert(reads_forward(s, attribute_value_unquoted_state(s))),
        State::AfterAttributeValueQuoted => assert(reads_forward(s, after_attribute_value_quoted_state(s))),
        State::BogusComment => assert(reads_forward(s, bogus_comment_state(s))),
        State::MarkupDeclarationOpen => assert(reads_forward(s, markup_declaration_open_state(s))),
        State::DOCTYPE => assert(reads_forward(s, doctype_state(s))),
        State::BeforeDOCTYPEName => assert(reads_forward(s, before_doctype_name_state(s))),
        State::DOCTYPEName => assert(reads_forward(s, doctype_name_state(s))),
        State::AfterDOCTYPEName => assert(reads_forward(s, after_doctype_name_state(s))),
        State::BogusDOCTYPE => assert(reads_forward(s, bogus_doctype_state(s))),
        State::CharacterReference => assert(reads_forward(s, character_reference_state(s))),
        _ => {},
    }
}

/// Once the rounds hand out a token, more fuel changes nothing.
pub proof fn lemma_run_deterministic(s: TokenizerView, f1: nat, f2: nat)
    requires
        run(s, f1) is Some,
        run(s, f2) is Some,
    ensures
        run(s, f1) == run(s, f2),
    decreases f1,
{
    if f1 > 0 && f2 > 0 {
        match step(s) {
            Some((s2, None)) => lemma_run_deterministic(s2, (f1 - 1) as nat, (f2 - 1) as nat),
            _ => {},
        }
    }
}

/// A character that an attribute name takes as it is, after which no new
/// state is entered: not NUL, white space, `/`, `=` or `>`.
pub open spec fn plain_name_char(c: char) -> bool {
    classify(c) == Char::ch(c) && c != '/' && c != '=' && c != '>'
}

/// The tokenizer in an attribute name with the input used up, the last
/// character read a plain one, and nothing queued.
pub open spec fn stuck_in_attribute_name(s: TokenizerView) -> bool {
    &&& s.state == State::AttributeName
    &&& s.pos >= s.input.len()
    &&& !s.reconsume_char
    &&& plain_name_char(s.current_character)
    &&& s.output.len() == 0
}

proof fn lemma_stuck_runs_out(s: TokenizerView, fuel: nat)
    requires
        stuck_in_attribute_name(s),
    ensures
        run(s, fuel) is None,
    decreases fuel,
{
    let c = s.current_character;
    let (s0, ch0) = s.consume_next();
    assert(ch0 == Char::eof);
    let s1 = s0.reconsume_in(State::AfterAttributeName);
    assert(step(s) == Some((s1, None::<TokenView>)));
    if fuel > 0 {
        assert(run(s, fuel) == run(s1, (fuel - 1) as nat));
    }
    if fuel > 1 {
        let (s1c, ch1) = s1.consume_next();
        assert(ch1 == Char::ch(c));
        match s1c.new_attribute(AttributeView { name: Seq::empty(), value: Seq::empty() }) {
            None => {
                assert(step(s1) is None);
                assert(run(s1, (fuel - 1) as nat) is None);
            },
            Some(s2a) => {
                let s2 = s2a.reconsume_in(State::AttributeName);
                assert(step(s1) == Some((s2, None::<TokenView>)));
                assert(run(s1, (fuel - 1) as nat) == run(s2, (fuel - 2) as nat));
                if fuel > 2 {
                    let (s2c, ch2) = s2.consume_next();
                    assert(ch2 == Char::ch(c));
                    let appended = if is_ascii_upper(c) {
                        s2c.append_char_to_attribute_name(ascii_lower(c))
                    } else {
                        s2c.append_char_to_attribute_name(c)
                    };
                    match appended {
                        None => {
                            assert(step(s2) is None);
                            assert(run(s2, (fuel - 2) as nat) is None);
                        },
                        Some(s3) => {
                            assert(step(s2) == Some((s3, None::<TokenView>)));
                            assert(run(s2, (fuel - 2) as nat) == run(s3, (fuel - 3) as nat));
                            lemma_stuck_runs_out(s3, (fuel - 3) as nat);
                        },
                    }
                }
            },
        }
    }
}

/// The tokenizer does not always hand out a token: once the input is used up
/// inside an attribute name whose last character is a plain one (as after
/// `<a b`), the end of the input sends it back to the last character, which
/// starts a new attribute, and so on without end.
pub proof fn law_attribute_name_at_end_never_yields(s: TokenizerView)
    requires
        stuck_in_attribute_name(s),
    ensures
        !yields(s),
{
    assert forall|fuel: nat| !(#[trigger] next(s, fuel) is Some) by {
        lemma_stuck_runs_out(s, fuel);
    }
}

/// The attributes of the token under construction, where it is a tag.
pub open spec fn current_attributes(s: TokenizerView) -> Seq<AttributeView> {
    match s.current_token {
        Some(TokenView::Tag { attributes, .. }) => attributes,
        _ => Seq::empty(),
    }
}

/// Inside a quoted attribute value, the next character of the input, unless
/// it is the closing quote or `&`, goes to the end of the value of the tag's
/// last attribute, white space included and NUL as U+FFFD. Nothing else of
/// the tag changes, no token is handed out, and the state stays.
pub proof fn law_quoted_value_keeps_characters(s: TokenizerView)
    requires
        s.state == State::AttributeValueDoubleQuoted || s.state == State::AttributeValueSingleQuoted,
        !s.reconsume_char,
        0 <= s.pos < s.input.len(),
        s.current_token matches Some(TokenView::Tag { .. }),
        current_attributes(s).len() > 0,
        s.input[s.pos] != (if s.state == State::AttributeValueDoubleQuoted { '"' } else { '\'' }),
        s.input[s.pos] != '&',
    ensures
        ({
            let c = s.input[s.pos];
            let added = if c == '\0' { REPLACEMENT_CHARACTER } else { c };
            let before = current_attributes(s);
            step(s) matches Some((s2, out)) && out is None && s2.state == s.state && s2.pos == s.pos + 1 && (
            s2.current_token matches Some(TokenView::Tag { .. })) && current_attributes(s2) == before.drop_last().push(
                AttributeView { name: before.last().name, value: before.last().value.push(added) },
            )
        }),
{
    let c = s.input[s.pos];
    let (s1, ch) = s.consume_next();
    assert(s1.current_character == c);
    if c != '\0' && !is_unicode_ws(c) {
        assert(ch == Char::ch(c));
    }
}

/// The name of the token under construction, where it is a tag.
pub open spec fn current_tag_name(s: TokenizerView) -> Seq<char> {
    match s.current_token {
        Some(TokenView::Tag { tag_name, .. }) => tag_name,
        _ => Seq::empty(),
    }
}

/// In an unquoted attribute value, the next character of the input, unless
/// it is white space, `&` or `>`, goes to the end of the value of the tag's
/// last attribute, NUL as U+FFFD; the state stays and no token is handed out.
pub proof fn law_unquoted_value_keeps_characters(s: TokenizerView)
    requires
        s.state == State::AttributeValueUnQuoted,
        !s.reconsume_char,
        0 <= s.pos < s.input.len(),
        s.current_token matches Some(TokenView::Tag { .. }),
        current_attributes(s).len() > 0,
        !is_unicode_ws(s.input[s.pos]),
        s.input[s.pos] != '&',
        s.input[s.pos] != '>',
    ensures
        ({
            let c = s.input[s.pos];
            let added = if c == '\0' { REPLACEMENT_CHARACTER } else { c };
            let before = current_attributes(s);
            step(s) matches Some((s2, out)) && out is None && s2.state == s.state && s2.pos == s.pos + 1 && (
            s2.current_token matches Some(TokenView::Tag { .. })) && current_attributes(s2) == before.drop_last().push(
                AttributeView { name: before.last().name, value: before.last().value.push(added) },
            )
        }),
{
    let c = s.input[s.pos];
    let (s1, ch) = s.consume_next();
    if c != '\0' {
        assert(ch == Char::ch(c));
    }
}

/// In a tag name, the next character of the input, unless it is white space,
/// `/` or `>`, goes to the end of the tag's name, an ASCII capital as its
/// small letter and NUL as U+FFFD; the state stays and no token is handed out.
pub proof fn law_tag_name_keeps_characters(s: TokenizerView)
    requires
        s.state == State::TagName,
        !s.reconsume_char,
        0 <= s.pos < s.input.len(),
        s.current_token matches Some(TokenView::Tag { .. }),
        !is_unicode_ws(s.input[s.pos]),
        s.input[s.pos] != '/',
        s.input[s.pos] != '>',
    ensures
        ({
            let c = s.input[s.pos];
            let added = if c == '\0' { REPLACEMENT_CHARACTER } else { ascii_lower(c) };
            step(s) matches Some((s2, out)) && out is None && s2.state == s.state && s2.pos == s.pos + 1
                && current_tag_name(s2) == current_tag_name(s).push(added) && current_attributes(s2)
                == current_attributes(s)
        }),
{
    let c = s.input[s.pos];
    let (s1, ch) = s.consume_next();
    if c != '\0' {
        assert(ch == Char::ch(c));
    }
}

/// Text outside markup comes back as it is: in the data state with nothing
/// queued, the next character of the input, unless it is `&` or `<`, is
/// handed out as a character token of that very character.
pub proof fn law_text_comes_back(s: TokenizerView)
    requires
        s.state == State::Data,
        !s.reconsume_char,
        0 <= s.pos < s.input.len(),
        s.output.len() == 0,
        s.input[s.pos] != '&',
        s.input[s.pos] != '<',
    ensures
        step(s) matches Some((s2, out)) && out == Some(TokenView::Character(s.input[s.pos])) && s2.state
            == State::Data && s2.pos == s.pos + 1 && s2.output.len() == 0,
{
    let c = s.input[s.pos];
    let (s1, ch) = s.consume_next();
    if c != '\0' && !is_unicode_ws(c) {
        assert(ch == Char::ch(c));
    }
    let s2 = s1.new_token(TokenView::Character(c));
    assert(dedup(TokenView::Character(c)) == Some(TokenView::Character(c)));
    assert(s2.will_emit_current()->0.output =~= seq![TokenView::Character(c)]);
}

/// The end of the input in the data state, with nothing queued, hands out the
/// end-of-file token.
pub proof fn law_end_of_input_gives_eof(s: TokenizerView)
    requires
        s.state == State::Data,
        !s.reconsume_char,
        s.pos >= s.input.len(),
        s.output.len() == 0,
    ensures
        step(s) matches Some((_, out)) && out == Some(TokenView::EOF),
{
    let s2 = s.new_token(TokenView::EOF);
    assert(dedup(TokenView::EOF) == Some(TokenView::EOF));
    assert(s2.will_emit_current()->0.output =~= seq![TokenView::EOF]);
}

} // verus!

//! One method per state of the tokenizer, each doing one round of the state
//! machine, and `next_token`, which runs the rounds.

use vstd::prelude::*;
use crate::eco::string_push;
use super::{opt_view, tokens_view, is_ascii_alphabetic, is_ascii_lowercase, is_ascii_uppercase, to_ascii_lowercase, Tokenizer, Tokenizing};
use super::state::State;
use super::token::{Attribute, Token, TokenView};
use super::transition::{
    REPLACEMENT_CHARACTER, Char, dash_dash, doctype_word, cdata_word, step, run, next, yields,
    lemma_run_deterministic, data_state, rcdata_state, tag_open_state, end_tag_open_state,
    tag_name_state, rcdata_less_than_sign_state, rcdata_end_tag_open_state, rcdata_invalid_end_tag,
    rcdata_end_tag_name_state, self_closing_start_tag_state, before_attribute_name_state,
    attribute_name_state, after_attribute_name_state, before_attribute_value_state,
    attribute_value_quoted_state, attribute_value_unquoted_state, after_attribute_value_quoted_state,
    bogus_comment_state, markup_declaration_open_state, doctype_state, before_doctype_name_state,
    doctype_name_state, after_doctype_name_state, bogus_doctype_state, character_reference_state,
};

verus! {

impl Tokenizing for Tokenizer {
    open spec fn can_yield(&self) -> bool {
        self@.wf() && yields(self@)
    }

    /// The next token: the first queued one, else the rounds of the state
    /// machine run until one of them hands out a token.
    fn next_token(&mut self) -> (res: Token)
        ensures
            final(self)@.wf(),
            forall|fuel: nat| #[trigger] next(old(self)@, fuel) is Some ==> next(old(self)@, fuel) == Some((final(self)@, res@)),
    {
        if self.output.len() > 0 {
            let ghost before = self.output@;
            let t = self.output.pop_front().unwrap();
            assert(tokens_view(self.output@) =~= tokens_view(before).drop_first());
            return t;
        }
        let ghost start = self@;
        let ghost f0: nat = choose|fuel: nat| #[trigger] next(start, fuel) is Some;
        let ghost mut fuel: nat = f0;
        proof {
            assert forall|f: nat| #[trigger] next(start, f) is Some implies next(start, f) == next(start, f0) by {
                lemma_run_deterministic(start, f, f0);
            }
        }
        loop
            invariant
                self@.wf(),
                run(self@, fuel) is Some,
                run(self@, fuel) == next(start, f0),
                forall|f: nat| #[trigger] next(start, f) is Some ==> next(start, f) == next(start, f0),
                start == old(self)@,
            decreases fuel,
        {
            let ghost before = self@;
            let token = match self.state {
                State::Data => self.process_data_state(),
                State::RCDATA => self.process_rcdata_state(),
                State::TagOpen => self.process_tag_open_state(),
                State::EndTagOpen => self.process_end_tag_open_state(),
                State::TagName => self.process_tag_name_state(),
                State::RCDATALessThanSign => self.process_rcdata_less_than_sign_state(),
                State::RCDATAEndTagOpen => self.process_rcdata_end_tag_open_state(),
                State::RCDATAEndTagName => self.process_rcdata_end_tag_name_state(),
                State::SelfClosingStartTag => self.process_self_closing_start_tag_state(),
                State::BeforeAttributeName => self.process_before_attribute_name_state(),
                State::AttributeName => self.process_attribute_name_state(),
                State::AfterAttributeName => self.process_after_attribute_name_state(),
                State::BeforeAttributeValue => self.process_before_attribute_value_state(),
                State::AttributeValueDoubleQuoted => self.process_attribute_value_quoted_state(
                    '"',
                    State::AttributeValueDoubleQuoted,
                ),
                State::AttributeValueSingleQuoted => self.process_attribute_value_quoted_state(
                    '\'',
                    State::AttributeValueSingleQuoted,
                ),
                State::AttributeValueUnQuoted => self.process_attribute_value_unquoted_state(),
                State::AfterAttributeValueQuoted => self.process_after_attribute_value_quoted_state(),
                State::BogusComment => self.process_bogus_comment_state(),
                State::MarkupDeclarationOpen => self.process_markup_declaration_open_state(),
                State::DOCTYPE => self.process_doctype_state(),
                State::BeforeDOCTYPEName => self.process_before_doctype_name_state(),
                State::DOCTYPEName => self.process_doctype_name_state(),
                State::AfterDOCTYPEName => self.process_after_doctype_name_state(),
                State::BogusDOCTYPE => self.process_bogus_doctype_state(),
                State::CharacterReference => self.process_character_reference_state(),
                _ => vstd::pervasive::unreached(),
            };
            proof {
                assert(step(before) == Some((self@, opt_view(token))));
            }
            if let Some(token) = token {
                return token;
            }
            proof {
                fuel = (fuel - 1) as nat;
            }
        }
    }

    fn switch_to(&mut self, state: State)
        ensures
            final(self)@ == old(self)@.switch_to(state),
    {
        self.state = state;
    }
}

impl Tokenizer {
    fn process_data_state(&mut self) -> (res: Option<Token>)
        requires
            old(self)@.wf(),
            data_state(old(self)@) is Some,
        ensures
            final(self)@.wf(),
            data_state(old(self)@) == Some((final(self)@, opt_view(res))),
    {
        match self.consume_next() {
            Char::ch('&') => {
                self.return_state = Some(State::Data);
                self.switch_to(State::CharacterReference);
                None
            },
            Char::ch('<') => {
                self.switch_to(State::TagOpen);
                None
            },
            Char::eof => Some(self.emit_eof()),
            _ => Some(self.emit_current_char()),
        }
    }

    fn process_rcdata_state(&mut self) -> (res: Option<Token>)
        requires
            old(self)@.wf(),
            rcdata_state(old(self)@) is Some,
        ensures
            final(self)@.wf(),
            rcdata_state(old(self)@) == Some((final(self)@, opt_view(res))),
    {
        match self.consume_next() {
            Char::ch('&') => {
                self.return_state = Some(State::RCDATA);
                self.switch_to(State::CharacterReference);
                None
            },
            Char::ch('<') => {
                self.switch_to(State::RCDATALessThanSign);
                None
            },
            Char::null => Some(self.emit_char(REPLACEMENT_CHARACTER)),
            Char::eof => Some(self.emit_eof()),
            _ => Some(self.emit_current_char()),
        }
    }

    fn process_tag_open_state(&mut self) -> (res: Option<Token>)
        requires
            old(self)@.wf(),
            tag_open_state(old(self)@) is Some,
        ensures
            final(self)@.wf(),
            tag_open_state(old(self)@) == Some((final(self)@, opt_view(res))),
    {
        proof {
            reveal_strlit("");
            assert(""@ =~= Seq::<char>::empty());
        }
        match self.consume_next() {
            Char::ch('!') => {
                self.switch_to(State::MarkupDeclarationOpen);
                None
            },
            Char::ch('/') => {
                self.switch_to(State::EndTagOpen);
                None
            },
            Char::ch(c) if is_ascii_alphabetic(c) => {
                self.new_token(Token::new_start_tag());
                self.reconsume_in(State::TagName);
                None
            },
            Char::ch('?') => {
                self.new_token(Token::new_comment(""));
                self.reconsume_in(State::BogusComment);
                None
            },
            Char::eof => {
                self.will_emit(Token::Character('<'));
                Some(self.emit_eof())
            },
            _ => {
                self.will_emit(Token::Character('<'));
                self.reconsume_in(State::Data);
                None
            },
        }
    }

    fn process_end_tag_open_state(&mut self) -> (res: Option<Token>)
        requires
            old(self)@.wf(),
            end_tag_open_state(old(self)@) is Some,
        ensures
            final(self)@.wf(),
            end_tag_open_state(old(self)@) == Some((final(self)@, opt_view(res))),
    {
        proof {
            reveal_strlit("");
            assert(""@ =~= Seq::<char>::empty());
        }
        match self.consume_next() {
            Char::ch(c) if is_ascii_alphabetic(c) => {
                self.new_token(Token::new_end_tag());
                self.reconsume_in(State::TagName);
                None
            },
            Char::ch('>') => {
                self.switch_to(State::Data);
                None
            },
            Char::eof => {
                self.will_emit(Token::Character('<'));
                self.will_emit(Token::Character('/'));
                Some(self.emit_eof())
            },
            _ => {
                self.new_token(Token::new_comment(""));
                self.reconsume_in(State::BogusComment);
                None
            },
        }
    }

    fn process_tag_name_state(&mut self) -> (res: Option<Token>)
        requires
            old(self)@.wf(),
            tag_name_state(old(self)@) is Some,
        ensures
            final(self)@.wf(),
            tag_name_state(old(self)@) == Some((final(self)@, opt_view(res))),
    {
        match self.consume_next() {
            Char::whitespace => {
                self.switch_to(State::BeforeAttributeName);
                None
            },
            Char::ch('/') => {
                self.switch_to(State::SelfClosingStartTag);
                None
            },
            Char::ch('>') => {
                self.switch_to(State::Data);
                Some(self.emit_current_token())
            },
            Char::ch(c) if is_ascii_uppercase(c) => {
                self.append_char_to_tag_name(to_ascii_lowercase(c));
                None
            },
            Char::null => {
                self.append_char_to_tag_name(REPLACEMENT_CHARACTER);
                None
            },
            Char::eof => Some(self.emit_eof()),
            _ => {
                let c = self.current_character;
                self.append_char_to_tag_name(c);
                None
            },
        }
    }

    fn process_rcdata_less_than_sign_state(&mut self) -> (res: Option<Token>)
        requires
            old(self)@.wf(),
            rcdata_less_than_sign_state(old(self)@) is Some,
        ensures
            final(self)@.wf(),
            rcdata_less_than_sign_state(old(self)@) == Some((final(self)@, opt_view(res))),
    {
        match self.consume_next() {
            Char::ch('/') => {
                self.clear_tmp_buffer();
                self.switch_to(State::RCDATAEndTagOpen);
                None
            },
            _ => {
                self.will_emit(Token::Character('<'));
                self.reconsume_in(State::RCDATA);
                None
            },
        }
    }

    fn process_rcdata_end_tag_open_state(&mut self) -> (res: Option<Token>)
        requires
            old(self)@.wf(),
            rcdata_end_tag_open_state(old(self)@) is Some,
        ensures
            final(self)@.wf(),
            rcdata_end_tag_open_state(old(self)@) == Some((final(self)@, opt_view(res))),
    {
        match self.consume_next() {
            Char::ch(c) if is_ascii_alphabetic(c) => {
                self.new_token(Token::new_end_tag());
                self.reconsume_in(State::RCDATAEndTagName);
                None
            },
            _ => {
                self.will_emit(Token::Character('<'));
                self.will_emit(Token::Character('/'));
                self.reconsume_in(State::RCDATA);
                None
            },
        }
    }

    /// Gives up on an end tag inside RCDATA.
    fn rcdata_invalid_end_tag(&mut self)
        requires
            rcdata_invalid_end_tag(old(self)@) is Some,
        ensures
            rcdata_invalid_end_tag(old(self)@) == Some((final(self)@, None::<TokenView>)),
    {
        self.will_emit(Token::Character('<'));
        self.will_emit(Token::Character('/'));
        self.emit_tmp_buffer();
        self.reconsume_in(State::RCDATA);
    }

    fn process_rcdata_end_tag_name_state(&mut self) -> (res: Option<Token>)
        requires
            old(self)@.wf(),
            rcdata_end_tag_name_state(old(self)@) is Some,
        ensures
            final(self)@.wf(),
            rcdata_end_tag_name_state(old(self)@) == Some((final(self)@, opt_view(res))),
    {
        match self.consume_next() {
            Char::whitespace => {
                if !self.is_appropriate_end_tag() {
                    self.rcdata_invalid_end_tag();
                } else {
                    self.switch_to(State::BeforeAttributeName);
                }
                None
            },
            Char::ch('/') => {
                if !self.is_appropriate_end_tag() {
                    self.rcdata_invalid_end_tag();
                } else {
                    self.switch_to(State::SelfClosingStartTag);
                }
                None
            },
            Char::ch('>') => {
                if !self.is_appropriate_end_tag() {
                    self.rcdata_invalid_end_tag();
                    None
                } else {
                    self.switch_to(State::Data);
                    Some(self.emit_current_token())
                }
            },
            Char::ch(c) if is_ascii_uppercase(c) => {
                let cur = self.current_character;
                self.append_char_to_tag_name(to_ascii_lowercase(c));
                self.push_to_tmp_buffer(cur);
                None
            },
            Char::ch(c) if is_ascii_lowercase(c) => {
                let cur = self.current_character;
                self.append_char_to_tag_name(cur);
                self.push_to_tmp_buffer(cur);
                None
            },
            _ => {
                self.rcdata_invalid_end_tag();
                None
            },
        }
    }

    fn process_self_closing_start_tag_state(&mut self) -> (res: Option<Token>)
        requires
            old(self)@.wf(),
            self_closing_start_tag_state(old(self)@) is Some,
        ensures
            final(self)@.wf(),
            self_closing_start_tag_state(old(self)@) == Some((final(self)@, opt_view(res))),
    {
        match self.consume_next() {
            Char::ch('>') => {
                match &mut self.current_token {
                    Some(Token::Tag { self_closing, .. }) => {
                        *self_closing = true;
                    },
                    Some(_) => {},
                    None => vstd::pervasive::unreached(),
                }
                self.switch_to(State::Data);
                Some(self.emit_current_token())
            },
            Char::eof => Some(self.emit_eof()),
            _ => {
                self.reconsume_in(State::BeforeAttributeName);
                None
            },
        }
    }

    fn process_before_attribute_name_state(&mut self) -> (res: Option<Token>)
        requires
            old(self)@.wf(),
            before_attribute_name_state(old(self)@) is Some,
        ensures
            final(self)@.wf(),
            before_attribute_name_state(old(self)@) == Some((final(self)@, opt_view(res))),
    {
        match self.consume_next() {
            Char::whitespace => None,
            Char::ch('/') | Char::ch('>') | Char::eof => {
                self.reconsume_in(State::AfterAttributeName);
                None
            },
            Char::ch('=') => {
                let mut attribute = Attribute::new();
                string_push(&mut attribute.name, self.current_character);
                self.new_attribute(attribute);
                self.switch_to(State::AttributeName);
                None
            },
            _ => {
                let attribute = Attribute::new();
                self.new_attribute(attribute);
                self.reconsume_in(State::AttributeName);
                None
            },
        }
    }

    fn process_attribute_name_state(&mut self) -> (res: Option<Token>)
        requires
            old(self)@.wf(),
            attribute_name_state(old(self)@) is Some,
        ensures
            final(self)@.wf(),
            attribute_name_state(old(self)@) == Some((final(self)@, opt_view(res))),
    {
        match self.consume_next() {
            Char::whitespace | Char::ch('/') | Char::ch('>') | Char::eof => {
                self.reconsume_in(State::AfterAttributeName);
                None
            },
            Char::ch('=') => {
                self.switch_to(State::BeforeAttributeValue);
                None
            },
            Char::ch(c) if is_ascii_uppercase(c) => {
                self.append_char_to_attribute_name(to_ascii_lowercase(c));
                None
            },
            Char::null => {
                self.append_char_to_attribute_name(REPLACEMENT_CHARACTER);
                None
            },
            _ => {
                let c = self.current_character;
                self.append_char_to_attribute_name(c);
                None
            },
        }
    }

    fn process_after_attribute_name_state(&mut self) -> (res: Option<Token>)
        requires
            old(self)@.wf(),
            after_attribute_name_state(old(self)@) is Some,
        ensures
            final(self)@.wf(),
            after_attribute_name_state(old(self)@) == Some((final(self)@, opt_view(res))),
    {
        match self.consume_next() {
            Char::whitespace => None,
            Char::ch('/') => {
                self.switch_to(State::SelfClosingStartTag);
                None
            },
            Char::ch('=') => {
                self.switch_to(State::BeforeAttributeValue);
                None
            },
            Char::ch('>') => {
                self.switch_to(State::Data);
                Some(self.emit_current_token())
            },
            Char::eof => Some(self.emit_eof()),
            _ => {
                let attribute = Attribute::new();
                self.new_attribute(attribute);
                self.reconsume_in(State::AttributeName);
                None
            },
        }
    }

    fn process_before_attribute_value_state(&mut self) -> (res: Option<Token>)
        requires
            old(self)@.wf(),
            before_attribute_value_state(old(self)@) is Some,
        ensures
            final(self)@.wf(),
            before_attribute_value_state(old(self)@) == Some((final(self)@, opt_view(res))),
    {
        match self.consume_next() {
            Char::whitespace => None,
            Char::ch('"') => {
                self.switch_to(State::AttributeValueDoubleQuoted);
                None
            },
            Char::ch('\'') => {
                self.switch_to(State::AttributeValueSingleQuoted);
                None
            },
            Char::ch('>') => {
                self.switch_to(State::Data);
                Some(self.emit_current_token())
            },
            _ => {
                self.reconsume_in(State::AttributeValueUnQuoted);
                None
            },
        }
    }

    /// The double- and single-quoted attribute value states, closed by `quote`.
    fn process_attribute_value_quoted_state(&mut self, quote: char, own: State) -> (res: Option<Token>)
        requires
            old(self)@.wf(),
            attribute_value_quoted_state(old(self)@, quote, own) is Some,
        ensures
            final(self)@.wf(),
            attribute_value_quoted_state(old(self)@, quote, own) == Some((final(self)@, opt_view(res))),
    {
        match self.consume_next() {
            Char::ch(c) if c == quote => {
                self.switch_to(State::AfterAttributeValueQuoted);
                None
            },
            Char::ch('&') => {
                self.return_state = Some(own);
                self.switch_to(State::CharacterReference);
                None
            },
            Char::null => {
                self.append_char_to_attribute_value(REPLACEMENT_CHARACTER);
                None
            },
            Char::eof => Some(self.emit_eof()),
            _ => {
                let c = self.current_character;
                self.append_char_to_attribute_value(c);
                None
            },
        }
    }

    fn process_attribute_value_unquoted_state(&mut self) -> (res: Option<Token>)
        requires
            old(self)@.wf(),
            attribute_value_unquoted_state(old(self)@) is Some,
        ensures
            final(self)@.wf(),
            attribute_value_unquoted_state(old(self)@) == Some((final(self)@, opt_view(res))),
    {
        match self.consume_next() {
            Char::whitespace => {
                self.switch_to(State::BeforeAttributeName);
                None
            },
            Char::ch('&') => {
                self.return_state = Some(State::AttributeValueUnQuoted);
                self.switch_to(State::CharacterReference);
                None
            },
            Char::ch('>') => {
                self.switch_to(State::Data);
                Some(self.emit_current_token())
            },
            Char::null => {
                self.append_char_to_attribute_value(REPLACEMENT_CHARACTER);
                None
            },
            Char::eof => Some(self.emit_eof()),
            _ => {
                let c = self.current_character;
                self.append_char_to_attribute_value(c);
                None
            },
        }
    }

    fn process_after_attribute_value_quoted_state(&mut self) -> (res: Option<Token>)
        requires
            old(self)@.wf(),
            after_attribute_value_quoted_state(old(self)@) is Some,
        ensures
            final(self)@.wf(),
            after_attribute_value_quoted_state(old(self)@) == Some((final(self)@, opt_view(res))),
    {
        match self.consume_next() {
            Char::whitespace => {
                self.switch_to(State::BeforeAttributeName);
                None
            },
            Char::ch('/') => {
                self.switch_to(State::SelfClosingStartTag);
                None
            },
            Char::ch('>') => {
                self.switch_to(State::Data);
                Some(self.emit_current_token())
            },
            Char::eof => Some(self.emit_eof()),
            _ => {
                self.reconsume_in(State::BeforeAttributeName);
                None
            },
        }
    }

    fn process_bogus_comment_state(&mut self) -> (res: Option<Token>)
        requires
            old(self)@.wf(),
            bogus_comment_state(old(self)@) is Some,
        ensures
            final(self)@.wf(),
            bogus_comment_state(old(self)@) == Some((final(self)@, opt_view(res))),
    {
        match self.consume_next() {
            Char::ch('>') => {
                self.switch_to(State::Data);
                Some(self.emit_current_token())
            },
            Char::eof => {
                self.will_emit_current();
                Some(self.emit_eof())
            },
            Char::null => {
                self.append_char_to_token_data(REPLACEMENT_CHARACTER);
                None
            },
            _ => {
                let c = self.current_character;
                self.append_char_to_token_data(c);
                None
            },
        }
    }

    fn process_markup_declaration_open_state(&mut self) -> (res: Option<Token>)
        requires
            old(self)@.wf(),
            markup_declaration_open_state(old(self)@) is Some,
        ensures
            final(self)@.wf(),
            markup_declaration_open_state(old(self)@) == Some((final(self)@, opt_view(res))),
    {
        proof {
            reveal_strlit("--");
            reveal_strlit("doctype");
            reveal_strlit("[CDATA[");
            reveal_strlit("");
            assert(""@ =~= Seq::<char>::empty());
            assert("--"@ =~= dash_dash());
            assert("doctype"@ =~= doctype_word());
            assert("[CDATA["@ =~= cdata_word());
        }
        if self.consume_if_match("--", false) {
            self.new_token(Token::new_comment(""));
            self.switch_to(State::CommentStart);
        } else if self.consume_if_match("doctype", true) {
            self.switch_to(State::DOCTYPE);
        } else if self.consume_if_match("[CDATA[", false) {
            vstd::pervasive::unreached::<()>();
        } else {
            self.new_token(Token::new_comment(""));
            self.switch_to(State::BogusComment);
        }
        None
    }

    fn process_doctype_state(&mut self) -> (res: Option<Token>)
        requires
            old(self)@.wf(),
            doctype_state(old(self)@) is Some,
        ensures
            final(self)@.wf(),
            doctype_state(old(self)@) == Some((final(self)@, opt_view(res))),
    {
        match self.consume_next() {
            Char::whitespace => {
                self.switch_to(State::BeforeDOCTYPEName);
                None
            },
            Char::eof => {
                let mut token = Token::new_doctype();
                token.set_force_quirks(true);
                self.new_token(token);
                self.will_emit_current();
                Some(self.emit_eof())
            },
            _ => {
                self.reconsume_in(State::BeforeDOCTYPEName);
                None
            },
        }
    }

    fn process_before_doctype_name_state(&mut self) -> (res: Option<Token>)
        requires
            old(self)@.wf(),
            before_doctype_name_state(old(self)@) is Some,
        ensures
            final(self)@.wf(),
            before_doctype_name_state(old(self)@) == Some((final(self)@, opt_view(res))),
    {
        match self.consume_next() {
            Char::whitespace => None,
            Char::ch(c) if is_ascii_uppercase(c) => {
                let mut token = Token::new_doctype();
                token.set_doctype_name_from_char(to_ascii_lowercase(c));
                self.new_token(token);
                self.switch_to(State::DOCTYPEName);
                None
            },
            Char::null => {
                let mut token = Token::new_doctype();
                token.set_doctype_name_from_char(REPLACEMENT_CHARACTER);
                self.new_token(token);
                self.switch_to(State::DOCTYPEName);
                None
            },
            Char::ch('>') => {
                let mut token = Token::new_doctype();
                token.set_force_quirks(true);
                self.new_token(token);
                self.switch_to(State::Data);
                Some(self.emit_current_token())
            },
            Char::eof => {
                let mut token = Token::new_doctype();
                token.set_force_quirks(true);
                self.new_token(token);
                self.will_emit_current();
                Some(self.emit_eof())
            },
            _ => {
                let mut token = Token::new_doctype();
                token.set_doctype_name_from_char(self.current_character);
                self.new_token(token);
                self.switch_to(State::DOCTYPEName);
                None
            },
        }
    }

    /// Sets the force-quirks flag of the current token.
    fn force_quirks_on_current(&mut self)
        requires
            old(self)@.force_quirks_on_current() is Some,
        ensures
            old(self)@.force_quirks_on_current() == Some(final(self)@),
    {
        match &mut self.current_token {
            Some(token) => token.set_force_quirks(true),
            None => vstd::pervasive::unreached(),
        }
    }

    fn process_doctype_name_state(&mut self) -> (res: Option<Token>)
        requires
            old(self)@.wf(),
            doctype_name_state(old(self)@) is Some,
        ensures
            final(self)@.wf(),
            doctype_name_state(old(self)@) == Some((final(self)@, opt_view(res))),
    {
        match self.consume_next() {
            Char::whitespace => {
                self.switch_to(State::AfterDOCTYPEName);
                None
            },
            Char::ch('>') => {
                self.switch_to(State::Data);
                Some(self.emit_current_token())
            },
            Char::ch(c) if is_ascii_uppercase(c) => {
                self.append_char_to_doctype_name(to_ascii_lowercase(c));
                None
            },
            Char::null => {
                self.append_char_to_doctype_name(REPLACEMENT_CHARACTER);
                None
            },
            Char::eof => {
                self.force_quirks_on_current();
                self.will_emit_current();
                Some(self.emit_eof())
            },
            _ => {
                let c = self.current_character;
                self.append_char_to_doctype_name(c);
                None
            },
        }
    }

    fn process_after_doctype_name_state(&mut self) -> (res: Option<Token>)
        requires
            old(self)@.wf(),
            after_doctype_name_state(old(self)@) is Some,
        ensures
            final(self)@.wf(),
            after_doctype_name_state(old(self)@) == Some((final(self)@, opt_view(res))),
    {
        match self.consume_next() {
            Char::whitespace => None,
            Char::ch('>') => {
                self.switch_to(State::Data);
                Some(self.emit_current_token())
            },
            Char::eof => {
                self.force_quirks_on_current();
                self.will_emit_current();
                Some(self.emit_eof())
            },
            _ => {
                self.force_quirks_on_current();
                self.reconsume_in(State::BogusDOCTYPE);
                None
            },
        }
    }

    fn process_bogus_doctype_state(&mut self) -> (res: Option<Token>)
        requires
            old(self)@.wf(),
            bogus_doctype_state(old(self)@) is Some,
        ensures
            final(self)@.wf(),
            bogus_doctype_state(old(self)@) == Some((final(self)@, opt_view(res))),
    {
        match self.consume_next() {
            Char::ch('>') => {
                self.switch_to(State::Data);
                Some(self.emit_current_token())
            },
            Char::eof => {
                self.will_emit_current();
                Some(self.emit_eof())
            },
            _ => None,
        }
    }

    fn process_character_reference_state(&mut self) -> (res: Option<Token>)
        requires
            old(self)@.wf(),
            character_reference_state(old(self)@) is Some,
        ensures
            final(self)@.wf(),
            character_reference_state(old(self)@) == Some((final(self)@, opt_view(res))),
    {
        let ch = self.consume_next();
        self.clear_tmp_buffer();
        self.push_to_tmp_buffer('&');
        match ch {
            Char::ch(c) if is_ascii_alphabetic(c) => {
                self.reconsume_in(State::NamedCharacterReference);
            },
            Char::ch('#') => {
                let cur = self.current_character;
                self.push_to_tmp_buffer(cur);
                self.switch_to(State::NumericCharacterReference);
            },
            _ => {
                self.flush_code_points_consumed_as_a_character_reference();
                self.reconsume_in_return_state();
            },
        }
        None
    }
}

} // verus!

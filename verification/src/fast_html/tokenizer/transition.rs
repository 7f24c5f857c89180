//! The tokenizer's state machine as mathematics: what one step of each state
//! does to the tokenizer and which token, if any, it hands out. A step is
//! `None` where the tokenizer cannot go on (an unsupported construct, or an
//! input on which it stops).

use vstd::prelude::*;
use vstd::utf8::{valid_utf8, decode_utf8};
use super::state::State;
use super::token::{AttributeView, TokenView, start_tag_view, end_tag_view};

verus! {

/// U+FFFD, put in place of a NUL character.
pub const REPLACEMENT_CHARACTER: char = '\u{FFFD}';

/* bytes -------------------------------------- */

/// The ASCII whitespace bytes: space, tab, line feed, form feed, carriage return.
pub open spec fn is_ascii_ws(b: u8) -> bool {
    b == 0x20u8 || b == 0x09u8 || b == 0x0Au8 || b == 0x0Cu8 || b == 0x0Du8
}

pub open spec fn is_ascii_digit(b: u8) -> bool {
    0x30u8 <= b <= 0x39u8
}

pub open spec fn is_ascii_alpha(b: u8) -> bool {
    (0x41u8 <= b <= 0x5Au8) || (0x61u8 <= b <= 0x7Au8)
}

pub open spec fn is_ascii_alnum(b: u8) -> bool {
    is_ascii_digit(b) || is_ascii_alpha(b)
}

/// The byte with ASCII upper-case letters made lower-case.
pub open spec fn ascii_lower(b: u8) -> u8 {
    if 0x41u8 <= b <= 0x5Au8 { (b + 32) as u8 } else { b }
}

/// Whether `b` ends a run: it is one of `stops`, or whitespace when `ws` is set.
pub open spec fn is_stop(b: u8, stops: Seq<u8>, ws: bool) -> bool {
    stops.contains(b) || (ws && is_ascii_ws(b))
}

/// The first position at or after `i` whose byte ends a run, or the length.
pub open spec fn scan(data: Seq<u8>, i: int, stops: Seq<u8>, ws: bool) -> int
    decreases data.len() - i,
{
    if i < 0 || i >= data.len() {
        i
    } else if is_stop(data[i], stops, ws) {
        i
    } else {
        scan(data, i + 1, stops, ws)
    }
}

/// The first position at or after `i` whose byte is not whitespace, or the length.
pub open spec fn skip_ws(data: Seq<u8>, i: int) -> int
    decreases data.len() - i,
{
    if i < 0 || i >= data.len() {
        i
    } else if !is_ascii_ws(data[i]) {
        i
    } else {
        skip_ws(data, i + 1)
    }
}

/// Whether every byte is an ASCII letter or digit.
pub open spec fn all_alnum(bytes: Seq<u8>) -> bool {
    forall|i: int| 0 <= i < bytes.len() ==> is_ascii_alnum(#[trigger] bytes[i])
}

/* attributes --------------------------------- */

/// The positions, in increasing order, of the attributes among the first `n`
/// whose name already occurs before them.
pub open spec fn dup_indices_upto(attrs: Seq<AttributeView>, n: int) -> Seq<usize>
    decreases n,
{
    if n <= 0 {
        Seq::empty()
    } else {
        let prev = dup_indices_upto(attrs, n - 1);
        if exists|j: int| 0 <= j < n - 1 && #[trigger] attrs[j].name == attrs[n - 1].name {
            prev.push((n - 1) as usize)
        } else {
            prev
        }
    }
}

/// The positions of the attributes whose name already occurs before them.
pub open spec fn dup_indices(attrs: Seq<AttributeView>) -> Seq<usize> {
    dup_indices_upto(attrs, attrs.len() as int)
}

/// Removing, one after the other, the elements at the first `n` of `idxs`;
/// nothing where one of them is out of bounds at its turn.
pub open spec fn remove_each(attrs: Seq<AttributeView>, idxs: Seq<usize>, n: int) -> Option<
    Seq<AttributeView>,
>
    decreases n,
{
    if n <= 0 {
        Some(attrs)
    } else {
        match remove_each(attrs, idxs, n - 1) {
            Some(cur) => if idxs[n - 1] < cur.len() {
                Some(cur.remove(idxs[n - 1] as int))
            } else {
                None
            },
            None => None,
        }
    }
}

/// Whether no two attributes share a name.
pub open spec fn distinct_names(attrs: Seq<AttributeView>) -> bool {
    forall|i: int, j: int| 0 <= i < j < attrs.len() ==> (#[trigger] attrs[i]).name != (#[trigger] attrs[j]).name
}

/// Whether the attribute at `k` repeats the name of an earlier one.
pub open spec fn repeats_earlier(attrs: Seq<AttributeView>, k: int) -> bool {
    exists|j: int| 0 <= j < k && #[trigger] attrs[j].name == attrs[k].name
}

/// The positions `dup_indices_upto` lists are those below `n` whose name
/// occurs earlier.
pub proof fn lemma_dup_indices_upto(attrs: Seq<AttributeView>, n: int)
    requires
        0 <= n <= attrs.len(),
        attrs.len() <= usize::MAX,
    ensures
        forall|k: int| 0 <= k < n ==> (dup_indices_upto(attrs, n).contains(k as usize) <==> #[trigger] repeats_earlier(attrs, k)),
        forall|i: int| 0 <= i < dup_indices_upto(attrs, n).len() ==> #[trigger] dup_indices_upto(attrs, n)[i] < n,
    decreases n,
{
    if n > 0 {
        lemma_dup_indices_upto(attrs, n - 1);
        let prev = dup_indices_upto(attrs, n - 1);
        let cur = dup_indices_upto(attrs, n);
        let pushed = repeats_earlier(attrs, n - 1);
        assert(pushed == exists|j: int| 0 <= j < n - 1 && #[trigger] attrs[j].name == attrs[n - 1].name);
        if pushed {
            assert(cur == prev.push((n - 1) as usize));
        } else {
            assert(cur == prev);
        }
        assert forall|k: int| 0 <= k < n implies (cur.contains(k as usize) <==> #[trigger] repeats_earlier(attrs, k)) by {
            if k < n - 1 {
                if cur.contains(k as usize) {
                    let i = choose|i: int| 0 <= i < cur.len() && cur[i] == k as usize;
                    if i < prev.len() {
                        assert(prev[i] == k as usize);
                        assert(prev.contains(k as usize));
                    }
                }
                if prev.contains(k as usize) {
                    let i = choose|i: int| 0 <= i < prev.len() && prev[i] == k as usize;
                    assert(cur[i] == k as usize);
                }
            } else {
                if cur.contains(k as usize) && !pushed {
                    let i = choose|i: int| 0 <= i < prev.len() && prev[i] == k as usize;
                    assert(prev[i] < n - 1);
                }
                if pushed {
                    assert(cur[prev.len() as int] == k as usize);
                }
            }
        }
    }
}

/// Where at most one attribute repeats an earlier name, removing the
/// duplicates succeeds and leaves attributes with pairwise distinct names.
pub proof fn law_single_duplicate_removed(attrs: Seq<AttributeView>)
    requires
        attrs.len() <= usize::MAX,
        dup_indices(attrs).len() <= 1,
    ensures
        remove_each(attrs, dup_indices(attrs), dup_indices(attrs).len() as int) matches Some(r) && distinct_names(r),
{
    let n = attrs.len() as int;
    lemma_dup_indices_upto(attrs, n);
    let idxs = dup_indices(attrs);
    if idxs.len() == 0 {
        assert forall|i: int, j: int| 0 <= i < j < attrs.len() implies (#[trigger] attrs[i]).name != (#[trigger] attrs[j]).name by {
            if attrs[i].name == attrs[j].name {
                assert(repeats_earlier(attrs, j));
                assert(idxs.contains(j as usize));
            }
        }
        assert(remove_each(attrs, idxs, 0) == Some(attrs));
    } else {
        let k = idxs[0] as int;
        assert(k < n);
        assert(remove_each(attrs, idxs, 0) == Some(attrs));
        let r = attrs.remove(k);
        assert(remove_each(attrs, idxs, 1) == Some(r));
        assert forall|i: int, j: int| 0 <= i < j < r.len() implies (#[trigger] r[i]).name != (#[trigger] r[j]).name by {
            let ii = if i < k { i } else { i + 1 };
            let jj = if j < k { j } else { j + 1 };
            assert(r[i] == attrs[ii]);
            assert(r[j] == attrs[jj]);
            if r[i].name == r[j].name {
                assert(repeats_earlier(attrs, jj));
                assert(idxs.contains(jj as usize));
                let p = choose|p: int| 0 <= p < idxs.len() && idxs[p] == jj as usize;
                assert(p == 0);
            }
        }
    }
}

/// The token as it is emitted: a tag loses the attributes at its duplicate
/// positions, removed one after the other.
pub open spec fn dedup(t: TokenView) -> Option<TokenView> {
    match t {
        TokenView::Tag { tag_name, attributes, self_closing, self_closing_acknowledged, is_end_tag } => {
            let idxs = dup_indices(attributes);
            match remove_each(attributes, idxs, idxs.len() as int) {
                Some(attrs) => Some(
                    TokenView::Tag {
                        tag_name,
                        attributes: attrs,
                        self_closing,
                        self_closing_acknowledged,
                        is_end_tag,
                    },
                ),
                None => None,
            }
        },
        other => Some(other),
    }
}

/* tokenizer ---------------------------------- */

/// Everything a tokenizer holds: its state, the position of its cursor in the
/// input, the tokens waiting to be handed out (the last one goes first), the
/// token under construction, the last start tag emitted, and the bytes kept
/// while an end tag inside RCDATA is read.
pub struct TokenizerView {
    pub state: State,
    pub return_state: Option<State>,
    pub idx: int,
    pub data: Seq<u8>,
    pub output: Seq<TokenView>,
    pub current_token: Option<TokenView>,
    pub last_emitted_start_tag: Option<TokenView>,
    pub tmp_buffer: Seq<u8>,
}

/// One step: the tokenizer after it and the token it hands out, or nothing
/// where the tokenizer cannot go on.
pub type Step = Option<(TokenizerView, Option<TokenView>)>;

impl TokenizerView {
    /// The cursor lies at most one past the end, and the length leaves room for it.
    pub open spec fn wf(self) -> bool {
        &&& self.data.len() <= isize::MAX
        &&& 0 <= self.idx <= self.data.len() + 1
    }

    pub open spec fn at_eof(self) -> bool {
        self.idx >= self.data.len()
    }

    pub open spec fn cur(self) -> u8 {
        self.data[self.idx]
    }

    pub open spec fn with_state(self, st: State) -> TokenizerView {
        TokenizerView { state: st, ..self }
    }

    pub open spec fn with_idx(self, i: int) -> TokenizerView {
        TokenizerView { idx: i, ..self }
    }

    pub open spec fn with_current(self, t: Option<TokenView>) -> TokenizerView {
        TokenizerView { current_token: t, ..self }
    }

    /// Switching state steps the cursor over the byte just read.
    pub open spec fn switch_to(self, st: State) -> TokenizerView {
        TokenizerView { state: st, idx: self.idx + 1, ..self }
    }

    /// Reconsuming leaves the cursor where it is.
    pub open spec fn reconsume_in(self, st: State) -> TokenizerView {
        self.with_state(st)
    }

    pub open spec fn new_token(self, t: TokenView) -> TokenizerView {
        self.with_current(Some(t))
    }

    /* reading ------------------------------------ */

    /// The run of bytes from the cursor up to the first stop, and the cursor there.
    pub open spec fn read_to(self, stops: Seq<u8>, ws: bool) -> Option<(TokenizerView, Seq<u8>)> {
        if self.idx > self.data.len() {
            None
        } else {
            let end = scan(self.data, self.idx, stops, ws);
            Some((self.with_idx(end), self.data.subrange(self.idx, end)))
        }
    }

    /// The byte under the cursor after skipping whitespace, and the cursor there.
    pub open spec fn read_skipping_ws(self) -> Option<(TokenizerView, u8)> {
        if self.idx > self.data.len() {
            None
        } else {
            let end = skip_ws(self.data, self.idx);
            if end < self.data.len() {
                Some((self.with_idx(end), self.data[end]))
            } else {
                None
            }
        }
    }

    /// Whether the input at the cursor starts with `pattern` (ignoring ASCII
    /// case when asked); when it does, the cursor moves onto its last byte.
    pub open spec fn read_if_match(self, pattern: Seq<u8>, ignore_case: bool) -> Option<
        (TokenizerView, bool),
    > {
        if self.idx > self.data.len() || pattern.len() == 0 {
            None
        } else {
            let end = if self.idx + pattern.len() <= self.data.len() {
                self.idx + pattern.len()
            } else {
                self.data.len() as int
            };
            let peeked = self.data.subrange(self.idx, end);
            let matched = if ignore_case {
                peeked.map_values(|b: u8| ascii_lower(b)) == pattern.map_values(
                    |b: u8| ascii_lower(b),
                )
            } else {
                peeked == pattern
            };
            if matched {
                Some((self.with_idx(self.idx + pattern.len() - 1), true))
            } else {
                Some((self, false))
            }
        }
    }

    /* token editing ------------------------------ */

    pub open spec fn set_tag_name(self, bytes: Seq<u8>) -> Option<TokenizerView> {
        if !valid_utf8(bytes) {
            None
        } else {
            match self.current_token {
                Some(TokenView::Tag { attributes, self_closing, self_closing_acknowledged, is_end_tag, .. }) =>
                    Some(self.new_token(TokenView::Tag {
                    tag_name: decode_utf8(bytes),
                    attributes,
                    self_closing,
                    self_closing_acknowledged,
                    is_end_tag,
                })),
                _ => None,
            }
        }
    }

    pub open spec fn concat_to_tag_name(self, bytes: Seq<u8>) -> Option<TokenizerView> {
        if !valid_utf8(bytes) {
            None
        } else {
            match self.current_token {
                Some(TokenView::Tag { tag_name, attributes, self_closing, self_closing_acknowledged, is_end_tag }) =>
                    Some(self.new_token(TokenView::Tag {
                    tag_name: tag_name + decode_utf8(bytes),
                    attributes,
                    self_closing,
                    self_closing_acknowledged,
                    is_end_tag,
                })),
                _ => None,
            }
        }
    }

    pub open spec fn append_replacement_char_to_tag_name(self) -> Option<TokenizerView> {
        match self.current_token {
            Some(TokenView::Tag { tag_name, attributes, self_closing, self_closing_acknowledged, is_end_tag }) =>
                Some(self.new_token(TokenView::Tag {
                tag_name: tag_name.push(REPLACEMENT_CHARACTER),
                attributes,
                self_closing,
                self_closing_acknowledged,
                is_end_tag,
            })),
            _ => None,
        }
    }

    /// The current tag with its attributes replaced.
    pub open spec fn with_attributes(self, attrs: Seq<AttributeView>) -> TokenizerView {
        match self.current_token {
            Some(TokenView::Tag { tag_name, self_closing, self_closing_acknowledged, is_end_tag, .. }) =>
                self.new_token(TokenView::Tag {
                tag_name,
                attributes: attrs,
                self_closing,
                self_closing_acknowledged,
                is_end_tag,
            }),
            _ => self,
        }
    }

    pub open spec fn set_attribute_name(self, bytes: Seq<u8>) -> Option<TokenizerView> {
        if !valid_utf8(bytes) {
            None
        } else {
            match self.current_token {
                Some(TokenView::Tag { attributes, .. }) => Some(
                    self.with_attributes(
                        attributes.push(AttributeView { name: decode_utf8(bytes), value: Seq::empty() }),
                    ),
                ),
                _ => None,
            }
        }
    }

    pub open spec fn set_attribute_value(self, bytes: Seq<u8>) -> Option<TokenizerView> {
        if !valid_utf8(bytes) {
            None
        } else {
            match self.current_token {
                Some(TokenView::Tag { attributes, .. }) => if attributes.len() > 0 {
                    Some(
                        self.with_attributes(
                            attributes.drop_last().push(
                                AttributeView { name: attributes.last().name, value: decode_utf8(bytes) },
                            ),
                        ),
                    )
                } else {
                    Some(self)
                },
                _ => None,
            }
        }
    }

    pub open spec fn append_char_to_attribute_name(self, c: char) -> Option<TokenizerView> {
        match self.current_token {
            None => None,
            Some(TokenView::Tag { attributes, .. }) => if attributes.len() > 0 {
                Some(
                    self.with_attributes(
                        attributes.drop_last().push(
                            AttributeView { name: attributes.last().name.push(c), value: attributes.last().value },
                        ),
                    ),
                )
            } else {
                Some(self)
            },
            Some(_) => Some(self),
        }
    }

    pub open spec fn append_char_to_attribute_value(self, c: char) -> Option<TokenizerView> {
        match self.current_token {
            None => None,
            Some(TokenView::Tag { attributes, .. }) => if attributes.len() > 0 {
                Some(
                    self.with_attributes(
                        attributes.drop_last().push(
                            AttributeView { name: attributes.last().name, value: attributes.last().value.push(c) },
                        ),
                    ),
                )
            } else {
                Some(self)
            },
            Some(_) => Some(self),
        }
    }

    pub open spec fn append_char_to_doctype_name(self, c: char) -> Option<TokenizerView> {
        match self.current_token {
            None => None,
            Some(TokenView::DOCTYPE { name: Some(n), force_quirks }) => Some(
                self.new_token(TokenView::DOCTYPE { name: Some(n.push(c)), force_quirks }),
            ),
            Some(_) => Some(self),
        }
    }

    pub open spec fn concat_to_doctype_name(self, bytes: Seq<u8>) -> Option<TokenizerView> {
        if !valid_utf8(bytes) {
            None
        } else {
            match self.current_token {
                None => None,
                Some(TokenView::DOCTYPE { name: Some(n), force_quirks }) => Some(
                    self.new_token(
                        TokenView::DOCTYPE { name: Some(n + decode_utf8(bytes)), force_quirks },
                    ),
                ),
                Some(_) => Some(self),
            }
        }
    }

    /// Whether the tag under construction closes the last start tag emitted.
    pub open spec fn is_appropriate_end_tag(self) -> Option<bool> {
        match self.last_emitted_start_tag {
            None => Some(false),
            Some(last) => match self.current_token {
                None => None,
                Some(cur) => Some(
                    cur is Tag && last is Tag && cur->Tag_tag_name == last->Tag_tag_name,
                ),
            },
        }
    }

    /* emitting ----------------------------------- */

    /// The tokenizer after queueing `t`, its duplicate attributes gone; a start
    /// tag is also remembered as the last one emitted.
    pub open spec fn will_emit(self, t: TokenView) -> Option<TokenizerView> {
        match dedup(t) {
            Some(t2) => Some(
                TokenizerView {
                    output: self.output.push(t2),
                    last_emitted_start_tag: if t2.is_start_tag() {
                        Some(t2)
                    } else {
                        self.last_emitted_start_tag
                    },
                    ..self
                },
            ),
            None => None,
        }
    }

    /// Hands out the token under construction, its duplicate attributes gone.
    pub open spec fn emit_current_token(self) -> Step {
        match self.current_token {
            None => None,
            Some(t) => match dedup(t) {
                Some(t2) => Some(
                    (
                        TokenizerView {
                            last_emitted_start_tag: if t2.is_start_tag() {
                                Some(t2)
                            } else {
                                self.last_emitted_start_tag
                            },
                            ..self
                        },
                        Some(t2),
                    ),
                ),
                None => None,
            },
        }
    }

    pub open spec fn emit_text(self, bytes: Seq<u8>) -> Step {
        if valid_utf8(bytes) {
            self.new_token(TokenView::Text(decode_utf8(bytes))).emit_current_token()
        } else {
            None
        }
    }

    pub open spec fn emit_char(self, c: char) -> Step {
        self.new_token(TokenView::Text(seq![c])).emit_current_token()
    }

    pub open spec fn emit_eof(self) -> Step {
        self.new_token(TokenView::EOF).emit_current_token()
    }

    /// Queues the kept bytes as one text token.
    pub open spec fn emit_tmp_buffer(self) -> Option<TokenizerView> {
        if valid_utf8(self.tmp_buffer) {
            Some(TokenizerView { output: self.output.push(TokenView::Text(decode_utf8(self.tmp_buffer))), ..self })
        } else {
            None
        }
    }
}

/// The text token `<`.
pub open spec fn lt_text() -> TokenView {
    TokenView::Text(seq!['<'])
}

/// The text token `</`.
pub open spec fn lt_slash_text() -> TokenView {
    TokenView::Text(seq!['<', '/'])
}

/// Continue without handing out a token.
pub open spec fn cont(s: Option<TokenizerView>) -> Step {
    match s {
        Some(s) => Some((s, None)),
        None => None,
    }
}

/* states ------------------------------------- */

pub open spec fn data_state(s: TokenizerView) -> Step {
    match s.read_to(seq![0x3Cu8, 0x26u8, 0x00u8], false) {
        None => None,
        Some((s, bytes)) => if bytes.len() > 0 {
            s.emit_text(bytes)
        } else if s.at_eof() {
            s.emit_eof()
        } else {
            let c = s.cur();
            if c == 0x3Cu8 {
                Some((TokenizerView { return_state: Some(State::Data), ..s }.switch_to(State::TagOpen), None))
            } else if c == 0x00u8 {
                s.emit_text(bytes)
            } else {
                None
            }
        },
    }
}

pub open spec fn tag_open_state(s: TokenizerView) -> Step {
    if s.at_eof() {
        None
    } else {
        let c = s.cur();
        if is_ascii_alnum(c) {
            Some((s.new_token(start_tag_view(Seq::empty())).reconsume_in(State::TagName), None))
        } else if c == 0x21u8 {
            Some((s.switch_to(State::MarkupDeclarationOpen), None))
        } else if c == 0x2Fu8 {
            Some((s.switch_to(State::EndTagOpen), None))
        } else if c == 0x3Fu8 {
            None
        } else {
            cont(
                match s.will_emit(lt_text()) {
                    Some(s) => Some(s.reconsume_in(State::Data)),
                    None => None,
                },
            )
        }
    }
}

/// The bytes that end a tag name.
pub open spec fn tag_name_stops() -> Seq<u8> {
    seq![0x2Fu8, 0x3Eu8, 0x00u8, 0x09u8, 0x0Au8, 0x20u8, 0x0Cu8]
}

pub open spec fn tag_name_state(s: TokenizerView) -> Step {
    match s.read_to(tag_name_stops(), false) {
        None => None,
        Some((s, bytes)) => {
            let named = if all_alnum(bytes) {
                s.set_tag_name(bytes)
            } else {
                Some(s)
            };
            match named {
                None => None,
                Some(s) => if s.at_eof() {
                    s.emit_eof()
                } else {
                    let c = s.cur();
                    if c == 0x2Fu8 {
                        Some((s.switch_to(State::SelfClosingStartTag), None))
                    } else if c == 0x3Eu8 {
                        s.switch_to(State::Data).emit_current_token()
                    } else if c == 0x00u8 {
                        cont(s.append_replacement_char_to_tag_name())
                    } else if is_ascii_ws(c) {
                        Some((s.switch_to(State::BeforeAttributeName), None))
                    } else {
                        Some((s, None))
                    }
                },
            }
        },
    }
}

pub open spec fn end_tag_open_state(s: TokenizerView) -> Step {
    if s.at_eof() {
        None
    } else {
        let c = s.cur();
        if is_ascii_alnum(c) {
            Some((s.new_token(end_tag_view(Seq::empty())).reconsume_in(State::TagName), None))
        } else if c == 0x3Eu8 {
            Some((s.switch_to(State::Data), None))
        } else {
            None
        }
    }
}

pub open spec fn self_closing_start_tag_state(s: TokenizerView) -> Step {
    if s.at_eof() {
        None
    } else if s.cur() == 0x3Eu8 {
        match s.current_token {
            None => None,
            Some(t) => {
                let t2 = match t {
                    TokenView::Tag { tag_name, attributes, self_closing_acknowledged, is_end_tag, .. } =>
                        TokenView::Tag {
                        tag_name,
                        attributes,
                        self_closing: true,
                        self_closing_acknowledged,
                        is_end_tag,
                    },
                    other => other,
                };
                s.new_token(t2).switch_to(State::Data).emit_current_token()
            },
        }
    } else {
        Some((s.reconsume_in(State::BeforeAttributeName), None))
    }
}

pub open spec fn before_attribute_name_state(s: TokenizerView) -> Step {
    match s.read_skipping_ws() {
        None => None,
        Some((s, c)) => if c == 0x2Fu8 || c == 0x3Eu8 {
            Some((s.reconsume_in(State::AfterAttributeName), None))
        } else if c == 0x3Du8 {
            Some((s.switch_to(State::AttributeName), None))
        } else {
            Some((s.reconsume_in(State::AttributeName), None))
        },
    }
}

/// The bytes that, besides whitespace, end an attribute name.
pub open spec fn attribute_name_stops() -> Seq<u8> {
    seq![0x2Fu8, 0x3Eu8, 0x3Du8, 0x00u8, 0x22u8, 0x27u8, 0x3Cu8]
}

pub open spec fn attribute_name_state(s: TokenizerView) -> Step {
    match s.read_to(attribute_name_stops(), true) {
        None => None,
        Some((s, bytes)) => {
            let named = if bytes.len() > 0 {
                s.set_attribute_name(bytes)
            } else {
                Some(s)
            };
            match named {
                None => None,
                Some(s) => if s.at_eof() {
                    Some((s.switch_to(State::AfterAttributeName), None))
                } else {
                    let c = s.cur();
                    if is_ascii_ws(c) || c == 0x2Fu8 || c == 0x3Eu8 {
                        Some((s.reconsume_in(State::AfterAttributeName), None))
                    } else if c == 0x3Du8 {
                        Some((s.switch_to(State::BeforeAttributeValue), None))
                    } else if c == 0x00u8 {
                        cont(s.append_char_to_attribute_name(REPLACEMENT_CHARACTER))
                    } else if c == 0x22u8 || c == 0x27u8 || c == 0x3Cu8 {
                        cont(s.append_char_to_attribute_name(c as char))
                    } else {
                        Some((s, None))
                    }
                },
            }
        },
    }
}

pub open spec fn after_attribute_name_state(s: TokenizerView) -> Step {
    match s.read_skipping_ws() {
        None => None,
        Some((s, c)) => if c == 0x2Fu8 {
            Some((s.switch_to(State::SelfClosingStartTag), None))
        } else if c == 0x3Du8 {
            Some((s.switch_to(State::BeforeAttributeValue), None))
        } else if c == 0x3Eu8 {
            s.switch_to(State::Data).emit_current_token()
        } else {
            Some((s.reconsume_in(State::AttributeName), None))
        },
    }
}

pub open spec fn before_attribute_value_state(s: TokenizerView) -> Step {
    match s.read_skipping_ws() {
        None => None,
        Some((s, c)) => if c == 0x22u8 {
            Some((s.switch_to(State::AttributeValueDoubleQuoted), None))
        } else if c == 0x27u8 {
            Some((s.switch_to(State::AttributeValueSingleQuoted), None))
        } else if c == 0x3Eu8 {
            s.switch_to(State::Data).emit_current_token()
        } else {
            Some((s.reconsume_in(State::AttributeValueUnQuoted), None))
        },
    }
}

pub open spec fn attribute_value_double_quoted_state(s: TokenizerView) -> Step {
    match s.read_to(seq![0x22u8, 0x26u8, 0x00u8], false) {
        None => None,
        Some((s, bytes)) => {
            let valued = if bytes.len() > 0 {
                s.set_attribute_value(bytes)
            } else {
                Some(s)
            };
            match valued {
                None => None,
                Some(s) => if s.at_eof() {
                    s.emit_eof()
                } else {
                    let c = s.cur();
                    if c == 0x22u8 {
                        Some((s.switch_to(State::AfterAttributeValueQuoted), None))
                    } else if c == 0x26u8 {
                        None
                    } else if c == 0x00u8 {
                        cont(s.append_char_to_attribute_value(REPLACEMENT_CHARACTER))
                    } else {
                        Some((s, None))
                    }
                },
            }
        },
    }
}

pub open spec fn after_attribute_value_quoted_state(s: TokenizerView) -> Step {
    if s.at_eof() {
        None
    } else {
        let c = s.cur();
        if is_ascii_ws(c) {
            Some((s.switch_to(State::BeforeAttributeName), None))
        } else if c == 0x2Fu8 {
            Some((s.switch_to(State::SelfClosingStartTag), None))
        } else if c == 0x3Eu8 {
            s.switch_to(State::Data).emit_current_token()
        } else {
            Some((s.reconsume_in(State::BeforeAttributeName), None))
        }
    }
}

/// `--`, `DOCTYPE` and `[CDATA[` as bytes.
pub open spec fn dash_dash() -> Seq<u8> {
    seq![0x2Du8, 0x2Du8]
}

pub open spec fn doctype_word() -> Seq<u8> {
    seq![0x44u8, 0x4Fu8, 0x43u8, 0x54u8, 0x59u8, 0x50u8, 0x45u8]
}

pub open spec fn cdata_word() -> Seq<u8> {
    seq![0x5Bu8, 0x43u8, 0x44u8, 0x41u8, 0x54u8, 0x41u8, 0x5Bu8]
}

/// Only `DOCTYPE`, in any case, is taken after `<!`; every other markup declaration stops.
pub open spec fn markup_declaration_open_state(s: TokenizerView) -> Step {
    match s.read_if_match(dash_dash(), false) {
        None => None,
        Some((s, true)) => None,
        Some((s, false)) => match s.read_if_match(doctype_word(), true) {
            None => None,
            Some((s, true)) => Some((s.switch_to(State::DOCTYPE), None)),
            Some((s, false)) => None,
        },
    }
}

/// A DOCTYPE without a name, in force-quirks mode.
pub open spec fn quirks_doctype() -> TokenView {
    TokenView::DOCTYPE { name: None, force_quirks: true }
}

pub open spec fn doctype_state(s: TokenizerView) -> Step {
    if s.at_eof() {
        None
    } else if is_ascii_ws(s.cur()) {
        Some((s.switch_to(State::BeforeDOCTYPEName), None))
    } else {
        Some((s.reconsume_in(State::BeforeDOCTYPEName), None))
    }
}

pub open spec fn before_doctype_name_state(s: TokenizerView) -> Step {
    match s.read_skipping_ws() {
        None => None,
        Some((s, b)) => if b == 0x3Eu8 {
            s.new_token(quirks_doctype()).switch_to(State::Data).emit_current_token()
        } else if b == 0x00u8 {
            Some(
                (
                    s.new_token(
                        TokenView::DOCTYPE { name: Some(seq![REPLACEMENT_CHARACTER]), force_quirks: false },
                    ).switch_to(State::DOCTYPEName),
                    None,
                ),
            )
        } else {
            Some(
                (
                    s.new_token(
                        TokenView::DOCTYPE { name: Some(seq![b as char]), force_quirks: false },
                    ).switch_to(State::DOCTYPEName),
                    None,
                ),
            )
        },
    }
}

pub open spec fn doctype_name_state(s: TokenizerView) -> Step {
    match s.read_to(seq![0x3Eu8, 0x00u8], true) {
        None => None,
        Some((s, bytes)) => {
            let named = if bytes.len() > 0 {
                s.concat_to_doctype_name(bytes)
            } else {
                Some(s)
            };
            match named {
                None => None,
                Some(s) => if s.at_eof() {
                    match s.current_token {
                        None => None,
                        Some(t) => match s.will_emit(t.with_force_quirks(true)) {
                            Some(s) => s.emit_eof(),
                            None => None,
                        },
                    }
                } else {
                    let b = s.cur();
                    if is_ascii_ws(b) {
                        Some((s.switch_to(State::AfterDOCTYPEName), None))
                    } else if b == 0x3Eu8 {
                        s.switch_to(State::Data).emit_current_token()
                    } else if b == 0x00u8 {
                        cont(s.append_char_to_doctype_name(REPLACEMENT_CHARACTER))
                    } else {
                        Some((s, None))
                    }
                },
            }
        },
    }
}

pub open spec fn rawtext_state(s: TokenizerView) -> Step {
    match s.read_to(seq![0x3Cu8, 0x00u8], false) {
        None => None,
        Some((s, bytes)) => if bytes.len() > 0 {
            s.emit_text(bytes)
        } else if s.at_eof() {
            s.emit_eof()
        } else {
            let b = s.cur();
            if b == 0x3Cu8 {
                Some((s.switch_to(State::RAWTEXTLessThanSign), None))
            } else if b == 0x00u8 {
                s.emit_char(REPLACEMENT_CHARACTER)
            } else {
                Some((s, None))
            }
        },
    }
}

pub open spec fn rcdata_state(s: TokenizerView) -> Step {
    match s.read_to(seq![0x26u8, 0x3Cu8, 0x00u8], false) {
        None => None,
        Some((s, bytes)) => if bytes.len() > 0 {
            s.emit_text(bytes)
        } else if s.at_eof() {
            s.emit_eof()
        } else {
            let b = s.cur();
            if b == 0x26u8 {
                None
            } else if b == 0x3Cu8 {
                Some((s.switch_to(State::RCDATALessThanSign), None))
            } else if b == 0x00u8 {
                s.emit_char(REPLACEMENT_CHARACTER)
            } else {
                Some((s, None))
            }
        },
    }
}

pub open spec fn rcdata_less_than_sign_state(s: TokenizerView) -> Step {
    if s.at_eof() {
        None
    } else if s.cur() == 0x2Fu8 {
        Some((TokenizerView { tmp_buffer: Seq::empty(), ..s }.switch_to(State::RCDATAEndTagOpen), None))
    } else {
        cont(
            match s.will_emit(lt_text()) {
                Some(s) => Some(s.reconsume_in(State::RCDATA)),
                None => None,
            },
        )
    }
}

pub open spec fn rcdata_end_tag_open_state(s: TokenizerView) -> Step {
    if s.at_eof() {
        None
    } else if is_ascii_alpha(s.cur()) {
        Some((s.new_token(end_tag_view(Seq::empty())).reconsume_in(State::RCDATAEndTagName), None))
    } else {
        cont(
            match s.will_emit(lt_slash_text()) {
                Some(s) => Some(s.reconsume_in(State::RCDATA)),
                None => None,
            },
        )
    }
}

/// What is not an end tag after all goes out as text, back in RCDATA.
pub open spec fn rcdata_invalid_end_tag(s: TokenizerView) -> Option<TokenizerView> {
    match s.will_emit(lt_slash_text()) {
        Some(s) => match s.emit_tmp_buffer() {
            Some(s) => Some(s.reconsume_in(State::RCDATA)),
            None => None,
        },
        None => None,
    }
}

pub open spec fn rcdata_end_tag_name_state(s: TokenizerView) -> Step {
    match s.read_to(seq![0x2Fu8, 0x3Eu8, 0x00u8], true) {
        None => None,
        Some((s, bytes)) => {
            let named = if bytes.len() > 0 {
                match s.concat_to_tag_name(bytes) {
                    Some(s) => Some(TokenizerView { tmp_buffer: s.tmp_buffer + bytes, ..s }),
                    None => None,
                }
            } else {
                Some(s)
            };
            match named {
                None => None,
                Some(s) => if s.at_eof() {
                    cont(rcdata_invalid_end_tag(s))
                } else {
                    let b = s.cur();
                    if b == 0x2Fu8 || b == 0x3Eu8 || is_ascii_ws(b) {
                        match s.is_appropriate_end_tag() {
                            None => None,
                            Some(false) => cont(rcdata_invalid_end_tag(s)),
                            Some(true) => if b == 0x2Fu8 {
                                Some((s.switch_to(State::SelfClosingStartTag), None))
                            } else if b == 0x3Eu8 {
                                s.switch_to(State::Data).emit_current_token()
                            } else {
                                Some((s.switch_to(State::BeforeAttributeName), None))
                            },
                        }
                    } else {
                        cont(rcdata_invalid_end_tag(s))
                    }
                },
            }
        },
    }
}

/// One step of the state machine, by the current state.
pub open spec fn step(s: TokenizerView) -> Step {
    match s.state {
        State::Data => data_state(s),
        State::TagOpen => tag_open_state(s),
        State::TagName => tag_name_state(s),
        State::EndTagOpen => end_tag_open_state(s),
        State::SelfClosingStartTag => self_closing_start_tag_state(s),
        State::BeforeAttributeName => before_attribute_name_state(s),
        State::AttributeName => attribute_name_state(s),
        State::AfterAttributeName => after_attribute_name_state(s),
        State::BeforeAttributeValue => before_attribute_value_state(s),
        State::AttributeValueDoubleQuoted => attribute_value_double_quoted_state(s),
        State::AfterAttributeValueQuoted => after_attribute_value_quoted_state(s),
        State::MarkupDeclarationOpen => markup_declaration_open_state(s),
        State::DOCTYPE => doctype_state(s),
        State::BeforeDOCTYPEName => before_doctype_name_state(s),
        State::DOCTYPEName => doctype_name_state(s),
        State::RAWTEXT => rawtext_state(s),
        State::RCDATA => rcdata_state(s),
        State::RCDATALessThanSign => rcdata_less_than_sign_state(s),
        State::RCDATAEndTagOpen => rcdata_end_tag_open_state(s),
        State::RCDATAEndTagName => rcdata_end_tag_name_state(s),
        _ => None,
    }
}

/// Steps until a token is handed out, within `fuel` steps.
pub open spec fn run(s: TokenizerView, fuel: nat) -> Option<(TokenizerView, TokenView)>
    decreases fuel,
{
    if fuel == 0 {
        None
    } else {
        match step(s) {
            None => None,
            Some((s2, Some(t))) => Some((s2, t)),
            Some((s2, None)) => run(s2, (fuel - 1) as nat),
        }
    }
}

/// The next token: a queued one first, else the first one the steps hand out.
pub open spec fn next(s: TokenizerView, fuel: nat) -> Option<(TokenizerView, TokenView)> {
    if s.output.len() > 0 {
        Some((TokenizerView { output: s.output.drop_last(), ..s }, s.output.last()))
    } else {
        run(s, fuel)
    }
}

/// Whether asking for the next token gets one: the steps reach a token
/// without stopping.
pub open spec fn yields(s: TokenizerView) -> bool {
    exists|fuel: nat| #[trigger] next(s, fuel) is Some
}

/// The first position at or after `i` where a run ends lies between `i` and the end.
pub proof fn lemma_scan_bounds(data: Seq<u8>, i: int, stops: Seq<u8>, ws: bool)
    requires
        0 <= i <= data.len(),
    ensures
        i <= scan(data, i, stops, ws) <= data.len(),
        scan(data, i, stops, ws) < data.len() ==> is_stop(data[scan(data, i, stops, ws)], stops, ws),
        forall|k: int| i <= k < scan(data, i, stops, ws) ==> !is_stop(#[trigger] data[k], stops, ws),
    decreases data.len() - i,
{
    if i < data.len() && !is_stop(data[i], stops, ws) {
        lemma_scan_bounds(data, i + 1, stops, ws);
    }
}

pub proof fn lemma_skip_ws_bounds(data: Seq<u8>, i: int)
    requires
        0 <= i <= data.len(),
    ensures
        i <= skip_ws(data, i) <= data.len(),
    decreases data.len() - i,
{
    if i < data.len() && is_ascii_ws(data[i]) {
        lemma_skip_ws_bounds(data, i + 1);
    }
}

/// Every run end from `i` lies between `i` and the end, whatever the stops.
pub proof fn lemma_scan_bounds_all(data: Seq<u8>, i: int)
    requires
        0 <= i <= data.len(),
    ensures
        forall|stops: Seq<u8>, ws: bool| i <= #[trigger] scan(data, i, stops, ws) <= data.len(),
{
    assert forall|stops: Seq<u8>, ws: bool| i <= #[trigger] scan(data, i, stops, ws) <= data.len() by {
        lemma_scan_bounds(data, i, stops, ws);
    }
}

/// Whether a step from `s` keeps the input and does not move the cursor back.
pub open spec fn reads_forward(s: TokenizerView, r: Step) -> bool {
    r matches Some((next_state, _)) ==> next_state.data == s.data && s.idx <= next_state.idx
}

/// Every step keeps the input and reads forward: the cursor never moves back.
#[verifier::rlimit(50)]
pub proof fn law_step_reads_forward(s: TokenizerView)
    requires
        s.wf(),
    ensures
        reads_forward(s, step(s)),
{
    if s.idx <= s.data.len() {
        lemma_scan_bounds_all(s.data, s.idx);
        lemma_skip_ws_bounds(s.data, s.idx);
    }
    match s.state {
        State::Data => assert(reads_forward(s, data_state(s))),
        State::TagOpen => assert(reads_forward(s, tag_open_state(s))),
        State::TagName => assert(reads_forward(s, tag_name_state(s))),
        State::EndTagOpen => assert(reads_forward(s, end_tag_open_state(s))),
        State::SelfClosingStartTag => assert(reads_forward(s, self_closing_start_tag_state(s))),
        State::BeforeAttributeName => assert(reads_forward(s, before_attribute_name_state(s))),
        State::AttributeName => assert(reads_forward(s, attribute_name_state(s))),
        State::AfterAttributeName => assert(reads_forward(s, after_attribute_name_state(s))),
        State::BeforeAttributeValue => assert(reads_forward(s, before_attribute_value_state(s))),
        State::AttributeValueDoubleQuoted => assert(reads_forward(s, attribute_value_double_quoted_state(s))),
        State::AfterAttributeValueQuoted => assert(reads_forward(s, after_attribute_value_quoted_state(s))),
        State::MarkupDeclarationOpen => assert(reads_forward(s, markup_declaration_open_state(s))),
        State::DOCTYPE => assert(reads_forward(s, doctype_state(s))),
        State::BeforeDOCTYPEName => assert(reads_forward(s, before_doctype_name_state(s))),
        State::DOCTYPEName => assert(reads_forward(s, doctype_name_state(s))),
        State::RAWTEXT => assert(reads_forward(s, rawtext_state(s))),
        State::RCDATA => assert(reads_forward(s, rcdata_state(s))),
        State::RCDATALessThanSign => assert(reads_forward(s, rcdata_less_than_sign_state(s))),
        State::RCDATAEndTagOpen => assert(reads_forward(s, rcdata_end_tag_open_state(s))),
        State::RCDATAEndTagName => assert(reads_forward(s, rcdata_end_tag_name_state(s))),
        _ => {},
    }
}

/// Once the steps hand out a token, more fuel changes nothing.
pub proof fn lemma_run_deterministic(s: TokenizerView, f1: nat, f2: nat)
    requires
        run(s, f1) is Some,
        run(s, f2) is Some,
    ensures
        run(s, f1) == run(s, f2),
    decreases f1,
{
    if f1 > 0 && f2 > 0 {
        match step(s) {
            Some((s2, None)) => lemma_run_deterministic(s2, (f1 - 1) as nat, (f2 - 1) as nat),
            _ => {},
        }
    }
}

/// A tag written with `/` right before its `>` is handed out with its
/// self-closing flag set, its name and kind (start or end) kept; it is handed
/// out whenever at most one of its attributes repeats an earlier name.
pub proof fn law_slash_before_close_sets_self_closing(s: TokenizerView)
    requires
        s.state == State::SelfClosingStartTag,
        !s.at_eof(),
        s.cur() == 0x3Eu8,
        s.current_token matches Some(TokenView::Tag { .. }),
    ensures
        ({
            let before = s.current_token->0;
            &&& step(s) matches Some((_, out)) ==> out matches Some(TokenView::Tag { tag_name, self_closing, is_end_tag, .. })
                && self_closing && tag_name == before->Tag_tag_name && is_end_tag == before->Tag_is_end_tag
            &&& before->Tag_attributes.len() <= usize::MAX && dup_indices(before->Tag_attributes).len() <= 1
                ==> step(s) is Some
        }),
{
    let before = s.current_token->0;
    let attrs = before->Tag_attributes;
    if attrs.len() <= usize::MAX && dup_indices(attrs).len() <= 1 {
        law_single_duplicate_removed(attrs);
    }
}

/// Whether `b` ends a run of text: `<`, `&` or NUL.
pub open spec fn ends_text(b: u8) -> bool {
    b == 0x3Cu8 || b == 0x26u8 || b == 0x00u8
}

/// Whether `b` ends a double-quoted attribute value run: `"`, `&` or NUL.
pub open spec fn ends_quoted_value(b: u8) -> bool {
    b == 0x22u8 || b == 0x26u8 || b == 0x00u8
}

/// Text outside markup comes back as it is: in the data state, the bytes
/// from the cursor up to the first `<`, `&` or NUL (or the end) are handed
/// out as one text token of the characters they encode, and the cursor is
/// left on that byte. The token is handed out whenever those bytes are UTF-8.
pub proof fn law_text_comes_back(s: TokenizerView)
    requires
        s.state == State::Data,
        0 <= s.idx < s.data.len(),
        !ends_text(s.data[s.idx]),
    ensures
        ({
            let e = scan(s.data, s.idx, seq![0x3Cu8, 0x26u8, 0x00u8], false);
            &&& s.idx < e <= s.data.len()
            &&& forall|k: int| s.idx <= k < e ==> !ends_text(#[trigger] s.data[k])
            &&& e < s.data.len() ==> ends_text(s.data[e])
            &&& step(s) matches Some((s2, out)) ==> s2.idx == e && out == Some(
                TokenView::Text(decode_utf8(s.data.subrange(s.idx, e))),
            )
            &&& valid_utf8(s.data.subrange(s.idx, e)) ==> step(s) is Some
        }),
{
    let stops = seq![0x3Cu8, 0x26u8, 0x00u8];
    lemma_scan_bounds(s.data, s.idx, stops, false);
    let e = scan(s.data, s.idx, stops, false);
    assert forall|b: u8| is_stop(b, stops, false) <==> ends_text(b) by {
        if ends_text(b) {
            if b == 0x3Cu8 {
                assert(stops[0] == b);
            } else if b == 0x26u8 {
                assert(stops[1] == b);
            } else {
                assert(stops[2] == b);
            }
        }
    }
    assert(!is_stop(s.data[s.idx], stops, false));
    let bytes = s.data.subrange(s.idx, e);
    assert(dedup(TokenView::Text(decode_utf8(bytes))) == Some(TokenView::Text(decode_utf8(bytes))));
}

/// In a double-quoted attribute value, the bytes from the cursor up to the
/// first `"`, `&` or NUL (or the end) become the value of the tag's last
/// attribute, its name kept, where a byte stops them: the value is the
/// characters they encode, with U+FFFD after them where a NUL stops them; a
/// `"` ends the value.
pub proof fn law_quoted_value_is_the_run(s: TokenizerView)
    requires
        s.state == State::AttributeValueDoubleQuoted,
        0 <= s.idx < s.data.len(),
        !ends_quoted_value(s.data[s.idx]),
        s.current_token matches Some(TokenView::Tag { attributes, .. }) && attributes.len() > 0,
    ensures
        ({
            let e = scan(s.data, s.idx, seq![0x22u8, 0x26u8, 0x00u8], false);
            let run = decode_utf8(s.data.subrange(s.idx, e));
            let before = s.current_token->0->Tag_attributes;
            &&& s.idx < e <= s.data.len()
            &&& forall|k: int| s.idx <= k < e ==> !ends_quoted_value(#[trigger] s.data[k])
            &&& e < s.data.len() ==> ends_quoted_value(s.data[e])
            &&& e < s.data.len() ==> (step(s) matches Some((s2, _)) ==> s2.current_token matches Some(
                TokenView::Tag { attributes, .. },
            ) && attributes.len() == before.len() && attributes.drop_last() == before.drop_last()
                && attributes.last().name == before.last().name && attributes.last().value == (if s.data[e]
                == 0x00u8 {
                run.push(REPLACEMENT_CHARACTER)
            } else {
                run
            }))
            &&& e < s.data.len() && s.data[e] == 0x22u8 ==> (step(s) matches Some((s2, out)) ==> out is None
                && s2.state == State::AfterAttributeValueQuoted && s2.idx == e + 1)
        }),
{
    let stops = seq![0x22u8, 0x26u8, 0x00u8];
    lemma_scan_bounds(s.data, s.idx, stops, false);
    let e = scan(s.data, s.idx, stops, false);
    assert forall|b: u8| is_stop(b, stops, false) <==> ends_quoted_value(b) by {
        if ends_quoted_value(b) {
            if b == 0x22u8 {
                assert(stops[0] == b);
            } else if b == 0x26u8 {
                assert(stops[1] == b);
            } else {
                assert(stops[2] == b);
            }
        }
    }
    assert(!is_stop(s.data[s.idx], stops, false));
}

} // verus!

//! The tokens the character tokenizer hands to the tree builder.

use vstd::prelude::*;
use crate::eco::{str_eq, string_push};
use crate::fast_html::tokenizer::token::AttributeView;

verus! {

/// An attribute of a tag: a name and a value.
#[derive(Debug)]
pub struct Attribute {
    pub name: String,
    pub value: String,
}

/// A token.
#[derive(Debug)]
pub enum Token {
    Tag {
        tag_name: String,
        attributes: Vec<Attribute>,
        self_closing: bool,
        self_closing_acknowledged: bool,
        is_end_tag: bool,
    },
    Comment(String),
    Character(char),
    DOCTYPE { name: Option<String>, force_quirks: bool },
    EOF,
}

/// What a token holds, with every string as its characters.
pub enum TokenView {
    Tag {
        tag_name: Seq<char>,
        attributes: Seq<AttributeView>,
        self_closing: bool,
        self_closing_acknowledged: bool,
        is_end_tag: bool,
    },
    Comment(Seq<char>),
    Character(char),
    DOCTYPE { name: Option<Seq<char>>, force_quirks: bool },
    EOF,
}

impl View for Attribute {
    type V = AttributeView;

    open spec fn view(&self) -> AttributeView {
        AttributeView { name: self.name@, value: self.value@ }
    }
}

/// The attributes by their views.
pub open spec fn attrs_view(attrs: Seq<Attribute>) -> Seq<AttributeView> {
    attrs.map_values(|a: Attribute| a@)
}

impl View for Token {
    type V = TokenView;

    open spec fn view(&self) -> TokenView {
        match self {
            Token::Tag { tag_name, attributes, self_closing, self_closing_acknowledged, is_end_tag } =>
                TokenView::Tag {
                tag_name: tag_name@,
                attributes: attrs_view(attributes@),
                self_closing: *self_closing,
                self_closing_acknowledged: *self_closing_acknowledged,
                is_end_tag: *is_end_tag,
            },
            Token::Comment(s) => TokenView::Comment(s@),
            Token::Character(c) => TokenView::Character(*c),
            Token::DOCTYPE { name, force_quirks } => TokenView::DOCTYPE {
                name: match name {
                    Some(n) => Some(n@),
                    None => None,
                },
                force_quirks: *force_quirks,
            },
            Token::EOF => TokenView::EOF,
        }
    }
}

/// A start tag with no name yet.
pub open spec fn start_tag_view() -> TokenView {
    TokenView::Tag {
        tag_name: Seq::empty(),
        attributes: Seq::empty(),
        self_closing: false,
        self_closing_acknowledged: false,
        is_end_tag: false,
    }
}

/// An end tag with no name yet.
pub open spec fn end_tag_view() -> TokenView {
    TokenView::Tag {
        tag_name: Seq::empty(),
        attributes: Seq::empty(),
        self_closing: false,
        self_closing_acknowledged: false,
        is_end_tag: true,
    }
}

/// A DOCTYPE with no name, not forcing quirks mode.
pub open spec fn doctype_view() -> TokenView {
    TokenView::DOCTYPE { name: None, force_quirks: false }
}

/// The token of one character.
pub open spec fn char_token(c: char) -> TokenView {
    TokenView::Character(c)
}

/// One character token for each character.
pub open spec fn char_tokens(s: Seq<char>) -> Seq<TokenView> {
    Seq::new(s.len(), |i: int| char_token(s[i]))
}

/// The character tokens of a prefix one longer are those of the prefix and one more.
pub proof fn lemma_char_tokens_prefix(s: Seq<char>, i: int)
    requires
        0 <= i < s.len(),
    ensures
        char_tokens(s.subrange(0, 0)) == Seq::<TokenView>::empty(),
        char_tokens(s.subrange(0, i + 1)) == char_tokens(s.subrange(0, i)).push(TokenView::Character(s[i])),
{
    let e = s.subrange(0, 0);
    assert(char_tokens(e).len() == 0);
    assert(char_tokens(e) =~= Seq::<TokenView>::empty());
    let a = s.subrange(0, i + 1);
    let b = s.subrange(0, i);
    assert(char_tokens(a).len() == i + 1);
    assert(char_tokens(a) =~= char_tokens(b).push(char_token(s[i])));
}

impl TokenView {
    /// The token with its force-quirks flag set to `value`, where it has one.
    pub open spec fn with_force_quirks(self, value: bool) -> TokenView {
        match self {
            TokenView::DOCTYPE { name, .. } => TokenView::DOCTYPE { name, force_quirks: value },
            other => other,
        }
    }

    /// The token with its name set to the one character, where it is a DOCTYPE.
    pub open spec fn with_doctype_name_char(self, c: char) -> TokenView {
        match self {
            TokenView::DOCTYPE { force_quirks, .. } => TokenView::DOCTYPE { name: Some(seq![c]), force_quirks },
            other => other,
        }
    }

    /// The token after acknowledging a set self-closing flag.
    pub open spec fn acknowledged(self) -> TokenView {
        match self {
            TokenView::Tag { tag_name, attributes, self_closing, self_closing_acknowledged, is_end_tag } =>
                TokenView::Tag {
                    tag_name,
                    attributes,
                    self_closing,
                    self_closing_acknowledged: self_closing_acknowledged || self_closing,
                    is_end_tag,
                },
            other => other,
        }
    }

    pub open spec fn is_start_tag(self) -> bool {
        self matches TokenView::Tag { is_end_tag, .. } && !is_end_tag
    }

    pub open spec fn is_end_tag(self) -> bool {
        self matches TokenView::Tag { is_end_tag, .. } && is_end_tag
    }
}

impl Clone for Attribute {
    /// The same name and value.
    fn clone(&self) -> (res: Self)
        ensures
            res@ == self@,
    {
        Attribute { name: self.name.clone(), value: self.value.clone() }
    }
}

/// A copy of the attributes.
fn clone_attributes(attrs: &Vec<Attribute>) -> (res: Vec<Attribute>)
    ensures
        attrs_view(res@) == attrs_view(attrs@),
{
    let mut out: Vec<Attribute> = Vec::new();
    let mut i: usize = 0;
    while i < attrs.len()
        invariant
            i <= attrs@.len(),
            out@.len() == i,
            forall|j: int| 0 <= j < i ==> (#[trigger] out@[j])@ == attrs@[j]@,
        decreases attrs@.len() - i,
    {
        out.push(attrs[i].clone());
        i += 1;
    }
    assert(attrs_view(out@) =~= attrs_view(attrs@));
    out
}

impl Clone for Token {
    /// The same token.
    fn clone(&self) -> (res: Self)
        ensures
            res@ == self@,
    {
        match self {
            Token::Tag { tag_name, attributes, self_closing, self_closing_acknowledged, is_end_tag } =>
                Token::Tag {
                tag_name: tag_name.clone(),
                attributes: clone_attributes(attributes),
                self_closing: *self_closing,
                self_closing_acknowledged: *self_closing_acknowledged,
                is_end_tag: *is_end_tag,
            },
            Token::Comment(s) => Token::Comment(s.clone()),
            Token::Character(c) => Token::Character(*c),
            Token::DOCTYPE { name, force_quirks } => Token::DOCTYPE {
                name: match name {
                    Some(n) => Some(n.clone()),
                    None => None,
                },
                force_quirks: *force_quirks,
            },
            Token::EOF => Token::EOF,
        }
    }
}

impl Token {
    /* constructor -------------------------------- */

    /// A start tag with no name yet.
    pub fn new_start_tag() -> (res: Self)
        ensures
            res@ == start_tag_view(),
    {
        let attributes: Vec<Attribute> = Vec::new();
        assert(attrs_view(attributes@) =~= Seq::<AttributeView>::empty());
        let res = Token::Tag {
            tag_name: String::new(),
            is_end_tag: false,
            self_closing: false,
            self_closing_acknowledged: false,
            attributes,
        };
        assert(res@ == start_tag_view());
        res
    }

    /// An end tag with no name yet.
    pub fn new_end_tag() -> (res: Self)
        ensures
            res@ == end_tag_view(),
    {
        let attributes: Vec<Attribute> = Vec::new();
        assert(attrs_view(attributes@) =~= Seq::<AttributeView>::empty());
        let res = Token::Tag {
            tag_name: String::new(),
            is_end_tag: true,
            self_closing: false,
            self_closing_acknowledged: false,
            attributes,
        };
        assert(res@ == end_tag_view());
        res
    }

    /// A comment holding `data`.
    pub fn new_comment(data: &str) -> (res: Self)
        ensures
            res@ == TokenView::Comment(data@),
    {
        Token::Comment(data.to_owned())
    }

    /// A DOCTYPE with no name.
    pub fn new_doctype() -> (res: Self)
        ensures
            res@ == doctype_view(),
    {
        Token::DOCTYPE { name: None, force_quirks: false }
    }

    /* getter ------------------------------------- */

    /// The name of a tag.
    pub fn tag_name(&self) -> (res: &String)
        requires
            self@ is Tag,
        ensures
            res@ == self@->Tag_tag_name,
    {
        match self {
            Token::Tag { tag_name, .. } => tag_name,
            _ => vstd::pervasive::unreached(),
        }
    }

    /// The attributes of a tag.
    pub fn attributes(&self) -> (res: &Vec<Attribute>)
        requires
            self@ is Tag,
        ensures
            attrs_view(res@) == self@->Tag_attributes,
    {
        match self {
            Token::Tag { attributes, .. } => attributes,
            _ => vstd::pervasive::unreached(),
        }
    }

    /* setter ------------------------------------- */

    /// Sets the force-quirks flag of a DOCTYPE; other tokens stay as they are.
    pub fn set_force_quirks(&mut self, value: bool)
        ensures
            final(self)@ == old(self)@.with_force_quirks(value),
    {
        if let Token::DOCTYPE { force_quirks, .. } = self {
            *force_quirks = value;
        }
    }

    /// Names a DOCTYPE with the one character; other tokens stay as they are.
    pub fn set_doctype_name_from_char(&mut self, ch: char)
        ensures
            final(self)@ == old(self)@.with_doctype_name_char(ch),
    {
        if let Token::DOCTYPE { name, .. } = self {
            let mut new_name = String::new();
            string_push(&mut new_name, ch);
            assert(new_name@ == seq![ch]);
            *name = Some(new_name);
        }
    }

    /// Marks a self-closing tag's flag as acknowledged.
    pub fn acknowledge_self_closing_if_set(&mut self)
        ensures
            final(self)@ == old(self)@.acknowledged(),
    {
        if let Token::Tag { self_closing_acknowledged, self_closing, .. } = self {
            if *self_closing {
                *self_closing_acknowledged = true;
            }
        }
    }

    /* checker ------------------------------------ */

    pub fn is_start_tag(&self) -> (res: bool)
        ensures
            res == self@.is_start_tag(),
    {
        match self {
            Token::Tag { is_end_tag, .. } => !is_end_tag,
            _ => false,
        }
    }

    pub fn is_end_tag(&self) -> (res: bool)
        ensures
            res == self@.is_end_tag(),
    {
        match self {
            Token::Tag { is_end_tag, .. } => *is_end_tag,
            _ => false,
        }
    }

    pub fn is_eof(&self) -> (res: bool)
        ensures
            res == (self@ is EOF),
    {
        match self {
            Token::EOF => true,
            _ => false,
        }
    }

    /// Whether the token is a tag named one of `names`.
    pub fn match_tag_name_in(&self, names: &[&str]) -> (res: bool)
        ensures
            res == (self@ matches TokenView::Tag { tag_name, .. }
                && exists|i: int| #![trigger names@[i]] 0 <= i < names@.len() && names@[i]@ == tag_name),
    {
        if let Token::Tag { tag_name, .. } = self {
            let name = tag_name.as_str();
            let mut i: usize = 0;
            while i < names.len()
                invariant
                    i <= names@.len(),
                    name@ == tag_name@,
                    self@ is Tag && self@->Tag_tag_name == tag_name@,
                    forall|j: int| 0 <= j < i ==> names@[j]@ != name@,
                decreases names@.len() - i,
            {
                if str_eq(names[i], name) {
                    assert(names@[i as int]@ == tag_name@);
                    return true;
                }
                i += 1;
            }
            false
        } else {
            false
        }
    }
}

impl Attribute {
    /// An attribute with an empty name and value.
    pub fn new() -> (res: Self)
        ensures
            res@ == (AttributeView { name: Seq::empty(), value: Seq::empty() }),
    {
        Attribute { name: String::new(), value: String::new() }
    }
}

} // verus!

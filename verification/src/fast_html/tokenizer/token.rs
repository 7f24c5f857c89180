use vstd::prelude::*;
use ecow::{EcoString, EcoVec};
use crate::eco::{
    attr_list, attrs_clone, attrs_new, eco_as_str, eco_chars, eco_clone, eco_from_char, eco_from_str,
    eco_new, str_eq,
};

verus! {

/// An attribute of a tag: a name and a value.
#[derive(Debug, PartialEq)]
pub struct Attribute {
    pub name: EcoString,
    pub value: EcoString,
}

/// The tokens the tokenizer hands to the tree builder.
#[derive(Debug, PartialEq)]
pub enum Token {
    DOCTYPE { name: Option<EcoString>, force_quirks: bool },
    Tag {
        tag_name: EcoString,
        attributes: EcoVec<Attribute>,
        self_closing: bool,
        self_closing_acknowledged: bool,
        is_end_tag: bool,
    },
    Text(EcoString),
    Comment(EcoString),
    EOF,
}

/// What an attribute holds: its name and value as characters.
pub struct AttributeView {
    pub name: Seq<char>,
    pub value: Seq<char>,
}

/// What a token holds, with every string as its characters.
pub enum TokenView {
    DOCTYPE { name: Option<Seq<char>>, force_quirks: bool },
    Tag {
        tag_name: Seq<char>,
        attributes: Seq<AttributeView>,
        self_closing: bool,
        self_closing_acknowledged: bool,
        is_end_tag: bool,
    },
    Text(Seq<char>),
    Comment(Seq<char>),
    EOF,
}

impl View for Attribute {
    type V = AttributeView;

    open spec fn view(&self) -> AttributeView {
        AttributeView { name: eco_chars(self.name), value: eco_chars(self.value) }
    }
}

impl View for Token {
    type V = TokenView;

    open spec fn view(&self) -> TokenView {
        match self {
            Token::DOCTYPE { name, force_quirks } => TokenView::DOCTYPE {
                name: match name {
                    Some(n) => Some(eco_chars(*n)),
                    None => None,
                },
                force_quirks: *force_quirks,
            },
            Token::Tag {
                tag_name,
                attributes,
                self_closing,
                self_closing_acknowledged,
                is_end_tag,
            } => TokenView::Tag {
                tag_name: eco_chars(*tag_name),
                attributes: attr_list(*attributes),
                self_closing: *self_closing,
                self_closing_acknowledged: *self_closing_acknowledged,
                is_end_tag: *is_end_tag,
            },
            Token::Text(t) => TokenView::Text(eco_chars(*t)),
            Token::Comment(t) => TokenView::Comment(eco_chars(*t)),
            Token::EOF => TokenView::EOF,
        }
    }
}

/// A start tag with the given name and nothing else.
pub open spec fn start_tag_view(name: Seq<char>) -> TokenView {
    TokenView::Tag {
        tag_name: name,
        attributes: Seq::empty(),
        self_closing: false,
        self_closing_acknowledged: false,
        is_end_tag: false,
    }
}

/// An end tag with the given name and nothing else.
pub open spec fn end_tag_view(name: Seq<char>) -> TokenView {
    TokenView::Tag {
        tag_name: name,
        attributes: Seq::empty(),
        self_closing: false,
        self_closing_acknowledged: false,
        is_end_tag: true,
    }
}

impl TokenView {
    /// The token after acknowledging a set self-closing flag.
    pub open spec fn acknowledged(self) -> TokenView {
        match self {
            TokenView::Tag { tag_name, attributes, self_closing, self_closing_acknowledged, is_end_tag } =>
                TokenView::Tag {
                    tag_name,
                    attributes,
                    self_closing,
                    self_closing_acknowledged: self_closing_acknowledged || self_closing,
                    is_end_tag,
                },
            other => other,
        }
    }

    /// The token with its force-quirks flag set to `value`, where it has one.
    pub open spec fn with_force_quirks(self, value: bool) -> TokenView {
        match self {
            TokenView::DOCTYPE { name, .. } => TokenView::DOCTYPE { name, force_quirks: value },
            other => other,
        }
    }

    pub open spec fn is_start_tag(self) -> bool {
        self matches TokenView::Tag { is_end_tag, .. } && !is_end_tag
    }

    pub open spec fn is_end_tag(self) -> bool {
        self matches TokenView::Tag { is_end_tag, .. } && is_end_tag
    }
}

impl Clone for Attribute {
    fn clone(&self) -> (res: Self)
        ensures
            res@ == self@,
    {
        Attribute { name: eco_clone(&self.name), value: eco_clone(&self.value) }
    }
}

impl Clone for Token {
    fn clone(&self) -> (res: Self)
        ensures
            res@ == self@,
    {
        match self {
            Token::DOCTYPE { name, force_quirks } => Token::DOCTYPE {
                name: match name {
                    Some(n) => Some(eco_clone(n)),
                    None => None,
                },
                force_quirks: *force_quirks,
            },
            Token::Tag { tag_name, attributes, self_closing, self_closing_acknowledged, is_end_tag } =>
                Token::Tag {
                tag_name: eco_clone(tag_name),
                attributes: attrs_clone(attributes),
                self_closing: *self_closing,
                self_closing_acknowledged: *self_closing_acknowledged,
                is_end_tag: *is_end_tag,
            },
            Token::Text(t) => Token::Text(eco_clone(t)),
            Token::Comment(t) => Token::Comment(eco_clone(t)),
            Token::EOF => Token::EOF,
        }
    }
}

impl Token {
    /* constructor -------------------------------- */

    /// A start tag with an empty name and no attributes.
    pub fn new_start_tag() -> (res: Self)
        ensures
            res@ == start_tag_view(Seq::empty()),
    {
        Token::Tag {
            tag_name: eco_new(),
            is_end_tag: false,
            self_closing: false,
            self_closing_acknowledged: false,
            attributes: attrs_new(),
        }
    }

    /// A start tag named `name`, with no attributes.
    pub fn new_start_tag_of(name: &str) -> (res: Self)
        ensures
            res@ == start_tag_view(name@),
    {
        Token::Tag {
            tag_name: eco_from_str(name),
            is_end_tag: false,
            self_closing: false,
            self_closing_acknowledged: false,
            attributes: attrs_new(),
        }
    }

    /// An end tag with an empty name and no attributes.
    pub fn new_end_tag() -> (res: Self)
        ensures
            res@ == end_tag_view(Seq::empty()),
    {
        Token::Tag {
            tag_name: eco_new(),
            is_end_tag: true,
            self_closing: false,
            self_closing_acknowledged: false,
            attributes: attrs_new(),
        }
    }

    /// A text token holding `text`.
    pub fn new_text(text: &str) -> (res: Self)
        ensures
            res@ == TokenView::Text(text@),
    {
        Token::Text(eco_from_str(text))
    }

    /// A DOCTYPE token whose name is the one character `ch`.
    pub fn new_doctype_char_of(ch: char) -> (res: Self)
        ensures
            res@ == (TokenView::DOCTYPE { name: Some(seq![ch]), force_quirks: false }),
    {
        Token::DOCTYPE { name: Some(eco_from_char(ch)), force_quirks: false }
    }

    /// A DOCTYPE token without a name, in force-quirks mode.
    pub fn new_doctype_with_force_quirks() -> (res: Self)
        ensures
            res@ == (TokenView::DOCTYPE { name: None, force_quirks: true }),
    {
        Token::DOCTYPE { name: None, force_quirks: true }
    }

    /* getter ------------------------------------- */

    /// The name of a tag token.
    pub fn tag_name(&self) -> (res: &EcoString)
        requires
            self is Tag,
        ensures
            self@ matches TokenView::Tag { tag_name, .. } && eco_chars(*res) == tag_name,
    {
        match self {
            Token::Tag { tag_name, .. } => tag_name,
            _ => vstd::pervasive::unreached(),
        }
    }

    /// The attributes of a tag token.
    pub fn attributes(&self) -> (res: &EcoVec<Attribute>)
        requires
            self is Tag,
        ensures
            self@ matches TokenView::Tag { attributes, .. } && attr_list(*res) == attributes,
    {
        match self {
            Token::Tag { attributes, .. } => attributes,
            _ => vstd::pervasive::unreached(),
        }
    }

    /* setter ------------------------------------- */

    /// Marks a set self-closing flag of a tag as acknowledged; other tokens stay.
    pub fn acknowledge_self_closing_if_set(&mut self)
        ensures
            final(self)@ == old(self)@.acknowledged(),
    {
        if let Token::Tag { self_closing_acknowledged, self_closing, .. } = self {
            if *self_closing {
                *self_closing_acknowledged = true;
            }
        }
    }

    /// Sets the force-quirks flag of a DOCTYPE token; other tokens stay.
    pub fn set_force_quirks(&mut self, value: bool)
        ensures
            final(self)@ == old(self)@.with_force_quirks(value),
    {
        if let Token::DOCTYPE { force_quirks, .. } = self {
            *force_quirks = value;
        }
    }

    /* checker ------------------------------------ */

    /// Whether this is a start tag.
    pub fn is_start_tag(&self) -> (res: bool)
        ensures
            res == self@.is_start_tag(),
    {
        match self {
            Token::Tag { is_end_tag, .. } => !is_end_tag,
            _ => false,
        }
    }

    /// Whether this is an end tag.
    pub fn is_end_tag(&self) -> (res: bool)
        ensures
            res == self@.is_end_tag(),
    {
        match self {
            Token::Tag { is_end_tag, .. } => *is_end_tag,
            _ => false,
        }
    }

    /// Whether this is the end-of-file token.
    pub fn is_eof(&self) -> (res: bool)
        ensures
            res == (self@ is EOF),
    {
        match self {
            Token::EOF => true,
            _ => false,
        }
    }

    /// Whether this is a tag whose name is one of `names`.
    pub fn match_tag_name_in(&self, names: &[&str]) -> (res: bool)
        ensures
            res == (self@ matches TokenView::Tag { tag_name, .. }
                && exists|i: int| #![trigger names@[i]] 0 <= i < names@.len() && names@[i]@ == tag_name),
    {
        let tag_name = match self {
            Token::Tag { tag_name, .. } => tag_name,
            _ => return false,
        };
        {
            let name = eco_as_str(tag_name);
            let mut i: usize = 0;
            while i < names.len()
                invariant
                    i <= names@.len(),
                    name@ == eco_chars(*tag_name),
                    self@ is Tag && self@->Tag_tag_name == eco_chars(*tag_name),
                    forall|j: int| 0 <= j < i ==> names@[j]@ != name@,
                decreases names@.len() - i,
            {
                if str_eq(names[i], name) {
                    assert(names@[i as int]@ == eco_chars(*tag_name));
                    return true;
                }
                i += 1;
            }
            false
        }
    }
}

impl Default for Attribute {
    fn default() -> (res: Self)
        ensures
            res@ == (AttributeView { name: Seq::empty(), value: Seq::empty() }),
    {
        Self::new()
    }
}

impl Attribute {
    /// An attribute with an empty name and value.
    pub fn new() -> (res: Self)
        ensures
            res@ == (AttributeView { name: Seq::empty(), value: Seq::empty() }),
    {
        Attribute { name: eco_new(), value: eco_new() }
    }

    /// An attribute named `name`, with an empty value.
    pub fn new_name_of(name: &str) -> (res: Self)
        ensures
            res@ == (AttributeView { name: name@, value: Seq::empty() }),
    {
        Attribute { name: eco_from_str(name), value: eco_new() }
    }
}

} // verus!

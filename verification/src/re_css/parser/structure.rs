//! The structures of CSS syntax that the parser builds: component values,
//! declarations and rules. Their texts are slices of the parsed input; a
//! number keeps its digits as they were written.

use vstd::prelude::*;
use crate::re_css::token::Bracket;

verus! {

/// A token kept as it is in a component value, with its text.
#[derive(Debug, PartialEq)]
pub enum PreservedToken<'src> {
    Escape(&'src str),
    Ident(&'src str),
    AtKeyword(&'src str),
    Hash(&'src str),
    String(&'src str),
    Url(&'src str),
    Number(&'src str),
    Dimension(&'src str, &'src str),  // (number, unit)
    Percentage(&'src str),
    UnicodeRange(&'src str),
}

/// A function: its name and its arguments.
#[derive(Debug, PartialEq)]
pub struct Function<'a> {
    pub name: &'a str,
    pub value: Vec<ComponentValue<'a>>,
}

/// A block of component values in brackets.
#[derive(Debug, PartialEq)]
pub struct SimpleBlock<'a> {
    pub associated: Bracket,
    pub value: Vec<ComponentValue<'a>>,
}

#[derive(Debug, PartialEq)]
pub enum ComponentValue<'a> {
    PreservedToken(PreservedToken<'a>),
    Function(Function<'a>),
    SimpleBlock(SimpleBlock<'a>),
}

/// A declaration: a name, its value, and whether it is `!important`.
#[derive(Debug, PartialEq)]
pub struct Declaration<'a> {
    pub name: &'a str,
    pub value: Vec<ComponentValue<'a>>,
    pub important: bool,
}

#[derive(Debug, PartialEq)]
pub enum BlockContent<'a> {
    Declaration(Declaration<'a>),
    AtRule(AtRule<'a>),
    QualifiedRule(QualifiedRule<'a>),
}

/// A qualified rule: a prelude and a block of contents.
#[derive(Debug, PartialEq)]
pub struct QualifiedRule<'a> {
    pub prelude: Vec<ComponentValue<'a>>,
    pub block: Vec<BlockContent<'a>>,
}

/// An at-rule: its name, its prelude, and a block where it has one.
#[derive(Debug, PartialEq)]
pub struct AtRule<'a> {
    pub name: &'a str,
    pub prelude: Vec<ComponentValue<'a>>,
    pub block: Option<SimpleBlock<'a>>,
}

/* models ------------------------------------------------------------------ */

pub enum TokenView {
    Escape(Seq<char>),
    Ident(Seq<char>),
    AtKeyword(Seq<char>),
    Hash(Seq<char>),
    String(Seq<char>),
    Url(Seq<char>),
    Number(Seq<char>),
    Dimension(Seq<char>, Seq<char>),
    Percentage(Seq<char>),
    UnicodeRange(Seq<char>),
}

pub struct FunctionView {
    pub name: Seq<char>,
    pub value: Seq<ComponentValueView>,
}

pub struct SimpleBlockView {
    pub associated: Bracket,
    pub value: Seq<ComponentValueView>,
}

pub enum ComponentValueView {
    PreservedToken(TokenView),
    Function(FunctionView),
    SimpleBlock(SimpleBlockView),
}

pub struct DeclarationView {
    pub name: Seq<char>,
    pub value: Seq<ComponentValueView>,
    pub important: bool,
}

pub struct AtRuleView {
    pub name: Seq<char>,
    pub prelude: Seq<ComponentValueView>,
    pub block: Option<SimpleBlockView>,
}

pub struct QualifiedRuleView {
    pub prelude: Seq<ComponentValueView>,
    pub block: Seq<BlockContentView>,
}

pub enum BlockContentView {
    Declaration(DeclarationView),
    AtRule(AtRuleView),
    QualifiedRule(QualifiedRuleView),
}

pub open spec fn token_view(t: PreservedToken) -> TokenView {
    match t {
        PreservedToken::Escape(x) => TokenView::Escape(x@),
        PreservedToken::Ident(x) => TokenView::Ident(x@),
        PreservedToken::AtKeyword(x) => TokenView::AtKeyword(x@),
        PreservedToken::Hash(x) => TokenView::Hash(x@),
        PreservedToken::String(x) => TokenView::String(x@),
        PreservedToken::Url(x) => TokenView::Url(x@),
        PreservedToken::Number(x) => TokenView::Number(x@),
        PreservedToken::Dimension(x, u) => TokenView::Dimension(x@, u@),
        PreservedToken::Percentage(x) => TokenView::Percentage(x@),
        PreservedToken::UnicodeRange(x) => TokenView::UnicodeRange(x@),
    }
}

pub open spec fn value_view(c: ComponentValue) -> ComponentValueView
    decreases c,
{
    match c {
        ComponentValue::PreservedToken(t) => ComponentValueView::PreservedToken(token_view(t)),
        ComponentValue::Function(f) => ComponentValueView::Function(
            FunctionView { name: f.name@, value: values_view(f.value@) },
        ),
        ComponentValue::SimpleBlock(b) => ComponentValueView::SimpleBlock(
            SimpleBlockView { associated: b.associated, value: values_view(b.value@) },
        ),
    }
}

pub open spec fn values_view(s: Seq<ComponentValue>) -> Seq<ComponentValueView>
    decreases s,
{
    if s.len() == 0 {
        Seq::empty()
    } else {
        values_view(s.subrange(0, s.len() - 1)).push(value_view(s[s.len() - 1]))
    }
}

pub open spec fn block_view(b: SimpleBlock) -> SimpleBlockView {
    SimpleBlockView { associated: b.associated, value: values_view(b.value@) }
}

pub open spec fn declaration_view(d: Declaration) -> DeclarationView {
    DeclarationView { name: d.name@, value: values_view(d.value@), important: d.important }
}

pub open spec fn declarations_view(s: Seq<Declaration>) -> Seq<DeclarationView> {
    Seq::new(s.len(), |i: int| declaration_view(s[i]))
}

pub open spec fn at_rule_view(a: AtRule) -> AtRuleView {
    AtRuleView {
        name: a.name@,
        prelude: values_view(a.prelude@),
        block: match a.block {
            Some(b) => Some(block_view(b)),
            None => None,
        },
    }
}

pub open spec fn content_view(c: BlockContent) -> BlockContentView
    decreases c,
{
    match c {
        BlockContent::Declaration(d) => BlockContentView::Declaration(declaration_view(d)),
        BlockContent::AtRule(a) => BlockContentView::AtRule(at_rule_view(a)),
        BlockContent::QualifiedRule(q) => BlockContentView::QualifiedRule(
            QualifiedRuleView { prelude: values_view(q.prelude@), block: contents_view(q.block@) },
        ),
    }
}

pub open spec fn contents_view(s: Seq<BlockContent>) -> Seq<BlockContentView>
    decreases s,
{
    if s.len() == 0 {
        Seq::empty()
    } else {
        contents_view(s.subrange(0, s.len() - 1)).push(content_view(s[s.len() - 1]))
    }
}

pub open spec fn qualified_rule_view(q: QualifiedRule) -> QualifiedRuleView {
    QualifiedRuleView { prelude: values_view(q.prelude@), block: contents_view(q.block@) }
}

pub proof fn lemma_values_view_push(s: Seq<ComponentValue>, c: ComponentValue)
    ensures
        values_view(s.push(c)) == values_view(s).push(value_view(c)),
{
    assert(s.push(c).subrange(0, s.len() as int) =~= s);
}

pub proof fn lemma_values_view_prepend(c: ComponentValue, s: Seq<ComponentValue>)
    ensures
        values_view(seq![c] + s) == seq![value_view(c)] + values_view(s),
    decreases s.len(),
{
    if s.len() == 0 {
        assert(seq![c] + s =~= Seq::<ComponentValue>::empty().push(c));
        lemma_values_view_push(Seq::empty(), c);
        assert(seq![value_view(c)] + values_view(s) =~= Seq::<ComponentValueView>::empty().push(value_view(c)));
    } else {
        let init = s.subrange(0, s.len() - 1);
        let last = s[s.len() - 1];
        assert(s =~= init.push(last));
        assert(seq![c] + s =~= (seq![c] + init).push(last));
        lemma_values_view_prepend(c, init);
        lemma_values_view_push(seq![c] + init, last);
        lemma_values_view_push(init, last);
        assert(seq![value_view(c)] + values_view(init).push(value_view(last)) =~= (seq![value_view(c)]
            + values_view(init)).push(value_view(last)));
    }
}

pub proof fn lemma_contents_view_push(s: Seq<BlockContent>, c: BlockContent)
    ensures
        contents_view(s.push(c)) == contents_view(s).push(content_view(c)),
{
    assert(s.push(c).subrange(0, s.len() as int) =~= s);
}

} // verus!

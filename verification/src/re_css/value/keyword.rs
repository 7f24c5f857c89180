//! The kinds of value each property takes, in the order they are tried, and
//! the keywords among them.

use vstd::prelude::*;
use super::property::Property;
use crate::re_css::parser::structure::{ComponentValue, PreservedToken, ComponentValueView, TokenView, value_view};
use crate::re_css::token::utils::chars_of;

verus! {

/// A kind of value: one read from a token, or a keyword.
#[derive(Debug, Clone, Copy, PartialEq, Eq, Structural)]
pub enum ValueKind {
    Display,
    Length,
    Percentage,
    Auto,
    Inherit,
    Initial,
    Unset,
}

/// The kinds of value a property takes, in the order they are tried.
pub open spec fn kinds_of(property: Property) -> Seq<ValueKind> {
    match property {
        Property::Display => seq![ValueKind::Display, ValueKind::Inherit, ValueKind::Initial, ValueKind::Unset],
        Property::MarginTop | Property::MarginRight | Property::MarginBottom | Property::MarginLeft => seq![
            ValueKind::Length,
            ValueKind::Percentage,
            ValueKind::Auto,
            ValueKind::Inherit,
            ValueKind::Initial,
            ValueKind::Unset,
        ],
        Property::FontSize => seq![
            ValueKind::Length,
            ValueKind::Percentage,
            ValueKind::Inherit,
            ValueKind::Initial,
            ValueKind::Unset,
        ],
    }
}

/// The kinds of value `property` takes, in the order they are tried.
pub fn value_kinds(property: &Property) -> (res: Vec<ValueKind>)
    ensures
        res@ == kinds_of(*property),
{
    match property {
        Property::Display => vec![ValueKind::Display, ValueKind::Inherit, ValueKind::Initial, ValueKind::Unset],
        Property::MarginTop | Property::MarginRight | Property::MarginBottom | Property::MarginLeft => vec![
            ValueKind::Length,
            ValueKind::Percentage,
            ValueKind::Auto,
            ValueKind::Inherit,
            ValueKind::Initial,
            ValueKind::Unset,
        ],
        Property::FontSize => vec![
            ValueKind::Length,
            ValueKind::Percentage,
            ValueKind::Inherit,
            ValueKind::Initial,
            ValueKind::Unset,
        ],
    }
}

/// The keyword of a keyword kind.
pub open spec fn keyword_text(kind: ValueKind) -> Option<Seq<char>> {
    match kind {
        ValueKind::Auto => Some("auto"@),
        ValueKind::Inherit => Some("inherit"@),
        ValueKind::Initial => Some("initial"@),
        ValueKind::Unset => Some("unset"@),
        _ => None,
    }
}

/// The keyword of a keyword kind; nothing for a kind read from a token.
pub fn keyword_of(kind: ValueKind) -> (res: Option<&'static str>)
    ensures
        match keyword_text(kind) {
            Some(k) => res matches Some(s) && s@ == k,
            None => res is None,
        },
{
    match kind {
        ValueKind::Auto => Some("auto"),
        ValueKind::Inherit => Some("inherit"),
        ValueKind::Initial => Some("initial"),
        ValueKind::Unset => Some("unset"),
        _ => None,
    }
}

/// The character with an ASCII upper-case letter made lower-case.
pub open spec fn lower_char(c: char) -> char {
    if 'A' <= c && c <= 'Z' {
        ((c as u32) + 32) as char
    } else {
        c
    }
}

/// Whether two texts are the same but for the case of ASCII letters.
pub open spec fn same_ignoring_ascii_case(a: Seq<char>, b: Seq<char>) -> bool {
    a.len() == b.len() && forall|i: int| 0 <= i < a.len() ==> lower_char(#[trigger] a[i]) == lower_char(b[i])
}

/// Whether the first component value is an identifier that is `target` but
/// for the case of ASCII letters.
pub open spec fn first_is_keyword(values: Seq<ComponentValue>, target: Seq<char>) -> bool {
    &&& values.len() > 0
    &&& value_view(values[0]) matches ComponentValueView::PreservedToken(TokenView::Ident(k))
        && same_ignoring_ascii_case(k, target)
}

fn lower_char_exec(c: char) -> (res: char)
    ensures
        res == lower_char(c),
{
    if 'A' <= c && c <= 'Z' {
        ((c as u32) + 32) as u8 as char
    } else {
        c
    }
}

/// Whether two texts are the same but for the case of ASCII letters.
pub fn eq_ignore_ascii_case(a: &str, b: &str) -> (res: bool)
    ensures
        res == same_ignoring_ascii_case(a@, b@),
{
    let x = chars_of(a);
    let y = chars_of(b);
    if x.len() != y.len() {
        return false;
    }
    let mut i: usize = 0;
    while i < x.len()
        invariant
            x@ == a@,
            y@ == b@,
            x.len() == y.len(),
            i <= x.len(),
            forall|j: int| 0 <= j < i ==> lower_char(#[trigger] x@[j]) == lower_char(y@[j]),
        decreases x.len() - i,
    {
        if lower_char_exec(x[i]) != lower_char_exec(y[i]) {
            return false;
        }
        i += 1;
    }
    true
}

/// Whether the first component value is the keyword `target`, in any case of
/// its ASCII letters.
pub fn parse_keyword(values: &[ComponentValue], target: &str) -> (res: bool)
    ensures
        res == first_is_keyword(values@, target@),
{
    if values.len() == 0 {
        return false;
    }
    match &values[0] {
        ComponentValue::PreservedToken(PreservedToken::Ident(keyword)) => eq_ignore_ascii_case(keyword, target),
        _ => false,
    }
}

} // verus!

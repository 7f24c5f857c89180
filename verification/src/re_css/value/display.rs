//! The `display` property (CSS Display Module Level 4).

use vstd::prelude::*;
use crate::eco::str_eq;

verus! {

/// A value of `display`: an outer and an inner display type, or a box value.
#[derive(Debug, Clone, PartialEq, Eq, Structural)]
pub enum Display {
    Full(DisplayOutside, DisplayInside),
    Box(DisplayBox),
}

/// How a box takes part in its parent's layout.
#[derive(Debug, Clone, PartialEq, Eq, Structural)]
pub enum DisplayOutside {
    Block,
    Inline,
    RunIn,
}

/// How a box lays out its children.
#[derive(Debug, Clone, PartialEq, Eq, Structural)]
pub enum DisplayInside {
    Flow,
    FlowRoot,
    Table,
    Flex,
    Grid,
    Ruby,
}

/// Whether a box is generated at all.
#[derive(Debug, Clone, PartialEq, Eq, Structural)]
pub enum DisplayBox {
    Contents,
    NoBox,
}

/// The keyword a `display` value is written with, among those supported.
pub open spec fn display_of(s: Seq<char>) -> Option<Display> {
    if s == "none"@ {
        Some(Display::Box(DisplayBox::NoBox))
    } else if s == "contents"@ {
        Some(Display::Box(DisplayBox::Contents))
    } else if s == "block"@ {
        Some(Display::Full(DisplayOutside::Block, DisplayInside::Flow))
    } else if s == "inline"@ {
        Some(Display::Full(DisplayOutside::Inline, DisplayInside::Flow))
    } else if s == "inline-block"@ {
        Some(Display::Full(DisplayOutside::Inline, DisplayInside::FlowRoot))
    } else {
        None
    }
}

/// The keyword a `display` value is written with, where it has one: `none`
/// for no box, `contents`, and the outer type, then `-` and the inner type
/// where the inner type is not plain flow (flow-root is written `block`).
pub open spec fn display_keyword(d: Display) -> Option<Seq<char>> {
    match d {
        Display::Box(DisplayBox::NoBox) => Some("none"@),
        Display::Box(DisplayBox::Contents) => Some("contents"@),
        Display::Full(DisplayOutside::Block, DisplayInside::Flow) => Some("block"@),
        Display::Full(DisplayOutside::Inline, DisplayInside::Flow) => Some("inline"@),
        Display::Full(DisplayOutside::Inline, DisplayInside::FlowRoot) => Some("inline-block"@),
        _ => None,
    }
}

/// A keyword is read as the value it names: every keyword the parser takes
/// is the keyword of the value it gives, every value with a keyword is given
/// for it, and no two keywords give the same value.
pub proof fn law_display_keywords(s: Seq<char>, t: Seq<char>, d: Display)
    ensures
        display_of(s) matches Some(v) ==> display_keyword(v) == Some(s),
        display_keyword(d) matches Some(k) ==> display_of(k) == Some(d),
        display_of(s) is Some && display_of(s) == display_of(t) ==> s == t,
{
    reveal_strlit("none");
    reveal_strlit("contents");
    reveal_strlit("block");
    reveal_strlit("inline");
    reveal_strlit("inline-block");
    assert("none"@.len() == 4);
    assert("contents"@.len() == 8);
    assert("block"@.len() == 5);
    assert("inline"@.len() == 6);
    assert("inline-block"@.len() == 12);
}

impl Display {
    /// `display: block`.
    pub fn new_block() -> (res: Self)
        ensures
            res == Display::Full(DisplayOutside::Block, DisplayInside::Flow),
    {
        Display::Full(DisplayOutside::Block, DisplayInside::Flow)
    }

    /// `display: inline`.
    pub fn new_inline() -> (res: Self)
        ensures
            res == Display::Full(DisplayOutside::Inline, DisplayInside::Flow),
    {
        Display::Full(DisplayOutside::Inline, DisplayInside::Flow)
    }

    /// The value a keyword names; an error for any other text.
    pub fn from_str(s: &str) -> (res: Result<Display, &'static str>)
        ensures
            match display_of(s@) {
                Some(d) => res == Ok::<Display, &str>(d),
                None => res is Err && res->Err_0@ == "Invalid display value"@,
            },
    {
        if str_eq(s, "none") {
            Ok(Display::Box(DisplayBox::NoBox))
        } else if str_eq(s, "contents") {
            Ok(Display::Box(DisplayBox::Contents))
        } else if str_eq(s, "block") {
            Ok(Self::new_block())
        } else if str_eq(s, "inline") {
            Ok(Self::new_inline())
        } else if str_eq(s, "inline-block") {
            Ok(Display::Full(DisplayOutside::Inline, DisplayInside::FlowRoot))
        } else {
            Err("Invalid display value")
        }
    }
}

impl std::str::FromStr for Display {
    type Err = &'static str;

    /// The value a keyword names; an error for any other text.
    fn from_str(s: &str) -> (res: Result<Self, Self::Err>)
        ensures
            match display_of(s@) {
                Some(v) => res == Ok::<Display, &str>(v),
                None => res is Err && res->Err_0@ == "Invalid display value"@,
            },
    {
        Display::from_str(s)
    }
}

} // verus!

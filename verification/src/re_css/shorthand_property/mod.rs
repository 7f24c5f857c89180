//! Shorthand properties, which set several longhand properties at once.

pub mod margin;
pub mod utils;

use vstd::prelude::*;
use crate::eco::str_eq;

verus! {

/// A shorthand property the engine expands.
#[derive(Debug, Clone, Copy, PartialEq, Eq, Structural)]
pub enum Shorthand {
    Margin,
}

/// The shorthand a property name denotes, among those the engine expands.
pub open spec fn shorthand_of(s: Seq<char>) -> Option<Shorthand> {
    if s == "margin"@ {
        Some(Shorthand::Margin)
    } else {
        None
    }
}

/// The expander for a shorthand property, by its name: `margin` is the only one.
pub fn get_expander_shorthand_property(property: &str) -> (res: Option<Shorthand>)
    ensures
        res == shorthand_of(property@),
{
    if str_eq(property, "margin") {
        Some(Shorthand::Margin)
    } else {
        None
    }
}

} // verus!

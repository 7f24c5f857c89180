//! The CSS properties the engine knows.

use vstd::prelude::*;
use crate::eco::str_eq;

verus! {

/// A supported CSS property.
#[derive(Debug, Hash, PartialEq, Eq, Clone, Copy, Structural)]
pub enum Property {
    // display
    Display,
    // physical margin
    MarginTop,
    MarginRight,
    MarginBottom,
    MarginLeft,
    // font
    FontSize,
}

/// The property a name denotes, among those the parser accepts.
pub open spec fn property_of(s: Seq<char>) -> Option<Property> {
    if s == "margin-top"@ {
        Some(Property::MarginTop)
    } else if s == "margin-right"@ {
        Some(Property::MarginRight)
    } else if s == "margin-bottom"@ {
        Some(Property::MarginBottom)
    } else if s == "margin-left"@ {
        Some(Property::MarginLeft)
    } else if s == "font-size"@ {
        Some(Property::FontSize)
    } else {
        None
    }
}

/// The name a property is written with in a declaration; `display` has none
/// that the parser takes.
pub open spec fn property_name(p: Property) -> Option<Seq<char>> {
    match p {
        Property::Display => None,
        Property::MarginTop => Some("margin-top"@),
        Property::MarginRight => Some("margin-right"@),
        Property::MarginBottom => Some("margin-bottom"@),
        Property::MarginLeft => Some("margin-left"@),
        Property::FontSize => Some("font-size"@),
    }
}

/// A name is read as the property of that name: every name the parser takes
/// is the name of the property it gives, every property with a name is
/// given for it, and no two names give the same property.
pub proof fn law_property_names(s: Seq<char>, t: Seq<char>, p: Property)
    ensures
        property_of(s) matches Some(q) ==> property_name(q) == Some(s),
        property_name(p) matches Some(n) ==> property_of(n) == Some(p),
        property_of(s) is Some && property_of(s) == property_of(t) ==> s == t,
{
    reveal_strlit("margin-top");
    reveal_strlit("margin-right");
    reveal_strlit("margin-bottom");
    reveal_strlit("margin-left");
    reveal_strlit("font-size");
    assert("margin-top"@.len() == 10);
    assert("margin-right"@.len() == 12);
    assert("margin-bottom"@.len() == 13);
    assert("margin-left"@.len() == 11);
    assert("font-size"@.len() == 9);
}

impl Property {
    /// The property a name denotes; an error for any other name.
    pub fn from_str(s: &str) -> (res: Result<Property, &'static str>)
        ensures
            match property_of(s@) {
                Some(p) => res == Ok::<Property, &str>(p),
                None => res is Err && res->Err_0@ == "Invalid property"@,
            },
    {
        if str_eq(s, "margin-top") {
            Ok(Property::MarginTop)
        } else if str_eq(s, "margin-right") {
            Ok(Property::MarginRight)
        } else if str_eq(s, "margin-bottom") {
            Ok(Property::MarginBottom)
        } else if str_eq(s, "margin-left") {
            Ok(Property::MarginLeft)
        } else if str_eq(s, "font-size") {
            Ok(Property::FontSize)
        } else {
            Err("Invalid property")
        }
    }

    /// Every property, in the order they are declared in.
    pub fn all() -> (res: Vec<Property>)
        ensures
            res@ == seq![
                Property::Display,
                Property::MarginTop,
                Property::MarginRight,
                Property::MarginBottom,
                Property::MarginLeft,
                Property::FontSize,
            ],
    {
        vec![
            Property::Display,
            Property::MarginTop,
            Property::MarginRight,
            Property::MarginBottom,
            Property::MarginLeft,
            Property::FontSize,
        ]
    }

    /// Whether the property is inherited: none of the supported ones is.
    pub fn inheritable(&self) -> (res: bool)
        ensures
            res == false,
    {
        match self {
            _ => false,
        }
    }
}

impl std::str::FromStr for Property {
    type Err = &'static str;

    /// The property a name denotes; an error for any other name.
    fn from_str(s: &str) -> (res: Result<Self, Self::Err>)
        ensures
            match property_of(s@) {
                Some(p) => res == Ok::<Property, &str>(p),
                None => res is Err && res->Err_0@ == "Invalid property"@,
            },
    {
        Property::from_str(s)
    }
}

} // verus!

//! The units of CSS lengths.

use vstd::prelude::*;
use crate::eco::str_eq;

verus! {

/// A length unit: pixels, or a multiple of the element's or the root's font size.
#[derive(Debug, Clone, PartialEq, Eq, Structural)]
pub enum LengthUnit {
    Px,
    Em,
    Rem,
}

/// The unit a keyword names, among those supported.
pub open spec fn length_unit_of(s: Seq<char>) -> Option<LengthUnit> {
    if s == "px"@ {
        Some(LengthUnit::Px)
    } else if s == "em"@ {
        Some(LengthUnit::Em)
    } else if s == "rem"@ {
        Some(LengthUnit::Rem)
    } else {
        None
    }
}

/// The keyword a unit is written with.
pub open spec fn unit_keyword(u: LengthUnit) -> Seq<char> {
    match u {
        LengthUnit::Px => "px"@,
        LengthUnit::Em => "em"@,
        LengthUnit::Rem => "rem"@,
    }
}

/// A keyword is read as the unit it names: every keyword the parser takes is
/// the keyword of the unit it gives, and every unit is given for its keyword.
pub proof fn law_unit_keywords(s: Seq<char>, u: LengthUnit)
    ensures
        length_unit_of(s) matches Some(v) ==> unit_keyword(v) == s,
        length_unit_of(unit_keyword(u)) == Some(u),
{
    reveal_strlit("px");
    reveal_strlit("em");
    reveal_strlit("rem");
    assert("px"@ =~= seq!['p', 'x']);
    assert("em"@ =~= seq!['e', 'm']);
    assert("rem"@.len() == 3);
}

impl LengthUnit {
    /// The unit a keyword names; an error for any other text.
    pub fn from_str(s: &str) -> (res: Result<LengthUnit, &'static str>)
        ensures
            match length_unit_of(s@) {
                Some(u) => res == Ok::<LengthUnit, &str>(u),
                None => res is Err && res->Err_0@ == "Invalid length unit"@,
            },
    {
        if str_eq(s, "px") {
            Ok(LengthUnit::Px)
        } else if str_eq(s, "em") {
            Ok(LengthUnit::Em)
        } else if str_eq(s, "rem") {
            Ok(LengthUnit::Rem)
        } else {
            Err("Invalid length unit")
        }
    }
}

impl std::str::FromStr for LengthUnit {
    type Err = &'static str;

    /// The unit a keyword names; an error for any other text.
    fn from_str(s: &str) -> (res: Result<Self, Self::Err>)
        ensures
            match length_unit_of(s@) {
                Some(v) => res == Ok::<LengthUnit, &str>(v),
                None => res is Err && res->Err_0@ == "Invalid length unit"@,
            },
    {
        LengthUnit::from_str(s)
    }
}

} // verus!

//! The `margin` shorthand.

use vstd::prelude::*;
use crate::re_css::value::property::Property;
use super::utils::{expand_four_box_values, expands, box_source, side_property, box_expansion, clone_copies};

verus! {

/// The margin longhands, top, right, bottom and left.
pub open spec fn margin_sides() -> (Property, Property, Property, Property) {
    (Property::MarginTop, Property::MarginRight, Property::MarginBottom, Property::MarginLeft)
}

/// Expands `margin` over the four margin longhands; `values[i]` is the `i`-th
/// value as parsed for the margin longhand of position `i`. It is
/// `expand_four_box_values` over `margin_sides()`: the same clauses hold, and
/// where copies equal what they copy both give `box_expansion` exactly.
pub fn expand_margin<V: Clone>(values: Vec<Option<V>>) -> (res: Option<Vec<(Property, Option<V>)>>)
    ensures
        !expands(values@) ==> res is None,
        expands(values@) ==> (res matches Some(v) && v@.len() == 4 && forall|side: int|
            0 <= side < 4 ==> (#[trigger] v@[side]).0 == side_property(margin_sides(), side) && v@[side].1 is Some
                && cloned(values@[box_source(values@.len(), side)]->0, v@[side].1->0)),
        clone_copies::<V>() ==> match box_expansion(values@, margin_sides()) {
            Some(e) => res matches Some(v) && v@ == e,
            None => res is None,
        },
{
    expand_four_box_values(
        values,
        (Property::MarginTop, Property::MarginRight, Property::MarginBottom, Property::MarginLeft),
    )
}

} // verus!

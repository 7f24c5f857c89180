//! The expansion of a shorthand over the four sides of a box.

use vstd::prelude::*;
use crate::re_css::value::property::Property;

verus! {

/// The longhand for a side: 0 top, 1 right, 2 bottom, 3 left.
pub open spec fn side_property(trbl: (Property, Property, Property, Property), side: int) -> Property {
    if side == 0 {
        trbl.0
    } else if side == 1 {
        trbl.1
    } else if side == 2 {
        trbl.2
    } else {
        trbl.3
    }
}

/// Which of `n` given values a side takes: one value sets all four sides;
/// two set top and bottom, then right and left; three set top, then right
/// and left, then bottom; four set top, right, bottom and left.
pub open spec fn box_source(n: nat, side: int) -> int {
    if n == 1 {
        0
    } else if n == 2 {
        if side == 0 || side == 2 {
            0
        } else {
            1
        }
    } else if n == 3 {
        if side == 0 {
            0
        } else if side == 2 {
            2
        } else {
            1
        }
    } else {
        side
    }
}

/// Whether a shorthand with these values expands: one to four values, each
/// of which parsed for the longhand of its position.
pub open spec fn expands<V>(values: Seq<Option<V>>) -> bool {
    1 <= values.len() <= 4 && forall|i: int| 0 <= i < values.len() ==> (#[trigger] values[i]) is Some
}

/// Whether a copy made with `clone` always equals what it copies.
pub open spec fn clone_copies<V: Clone>() -> bool {
    forall|a: V, b: V| #[trigger] cloned::<V>(a, b) ==> a == b
}

/// The expansion of a shorthand over the four sides of a box, where it
/// expands: each side, its longhand in `trbl` and the value it takes.
pub open spec fn box_expansion<V>(values: Seq<Option<V>>, trbl: (Property, Property, Property, Property)) -> Option<
    Seq<(Property, Option<V>)>,
> {
    if expands(values) {
        Some(Seq::new(4, |side: int| (side_property(trbl, side), values[box_source(values.len(), side)])))
    } else {
        None
    }
}

/// Where copies equal what they copy, sides that each hold a copy of the
/// value they take are the expansion.
proof fn lemma_copies_give_expansion<V: Clone>(
    values: Seq<Option<V>>,
    trbl: (Property, Property, Property, Property),
    v: Seq<(Property, Option<V>)>,
)
    requires
        clone_copies::<V>(),
        expands(values),
        v.len() == 4,
        forall|side: int|
            0 <= side < 4 ==> (#[trigger] v[side]).0 == side_property(trbl, side) && v[side].1 is Some
                && cloned(values[box_source(values.len(), side)]->0, v[side].1->0),
    ensures
        v == box_expansion(values, trbl)->0,
{
    let e = box_expansion(values, trbl)->0;
    assert forall|side: int| 0 <= side < 4 implies v[side] == e[side] by {
        let src = values[box_source(values.len(), side)];
        assert(cloned(src->0, v[side].1->0));
        assert(src->0 == v[side].1->0);
    }
    assert(v =~= e);
}

/// Expands a shorthand over the four sides of a box. `values[i]` is the
/// `i`-th value of the shorthand as parsed for the longhand of position `i`
/// (`trbl.0` for the first, and so on), `None` where it did not parse. Each
/// side gets its longhand and a copy of the value it takes; with no value,
/// more than four, or one that did not parse, there is no expansion.
pub fn expand_four_box_values<V: Clone>(
    values: Vec<Option<V>>,
    trbl: (Property, Property, Property, Property),
) -> (res: Option<Vec<(Property, Option<V>)>>)
    ensures
        !expands(values@) ==> res is None,
        expands(values@) ==> (res matches Some(v) && v@.len() == 4 && forall|side: int|
            0 <= side < 4 ==> (#[trigger] v@[side]).0 == side_property(trbl, side) && v@[side].1 is Some
                && cloned(values@[box_source(values@.len(), side)]->0, v@[side].1->0)),
        clone_copies::<V>() ==> match box_expansion(values@, trbl) {
            Some(e) => res matches Some(v) && v@ == e,
            None => res is None,
        },
{
    if values.len() == 1 {
        if values[0].is_none() {
            return None;
        }
        let res = vec![
            (trbl.0, values[0].clone()),
            (trbl.1, values[0].clone()),
            (trbl.2, values[0].clone()),
            (trbl.3, values[0].clone()),
        ];
        proof {
            if clone_copies::<V>() {
                lemma_copies_give_expansion(values@, trbl, res@);
            }
        }
        return Some(res);
    }
    if values.len() == 2 {
        if values[0].is_none() || values[1].is_none() {
            return None;
        }
        let res = vec![
            (trbl.0, values[0].clone()),
            (trbl.1, values[1].clone()),
            (trbl.2, values[0].clone()),
            (trbl.3, values[1].clone()),
        ];
        proof {
            if clone_copies::<V>() {
                lemma_copies_give_expansion(values@, trbl, res@);
            }
        }
        return Some(res);
    }
    if values.len() == 3 {
        if values[0].is_none() || values[1].is_none() || values[2].is_none() {
            return None;
        }
        let res = vec![
            (trbl.0, values[0].clone()),
            (trbl.1, values[1].clone()),
            (trbl.2, values[2].clone()),
            (trbl.3, values[1].clone()),
        ];
        proof {
            if clone_copies::<V>() {
                lemma_copies_give_expansion(values@, trbl, res@);
            }
        }
        return Some(res);
    }
    if values.len() == 4 {
        if values[0].is_none() || values[1].is_none() || values[2].is_none() || values[3].is_none() {
            return None;
        }
        let res = vec![
            (trbl.0, values[0].clone()),
            (trbl.1, values[1].clone()),
            (trbl.2, values[2].clone()),
            (trbl.3, values[3].clone()),
        ];
        proof {
            if clone_copies::<V>() {
                lemma_copies_give_expansion(values@, trbl, res@);
            }
        }
        return Some(res);
    }
    None
}

} // verus!

//! The four edges of a box.

use vstd::prelude::*;

verus! {

/// An edge of a box.
#[derive(Debug)]
pub enum Edge {
    Top,
    Right,
    Bottom,
    Left,
}

} // verus!

//! Hash tokens: `#` and any number of identifier characters.

use vstd::prelude::*;
use super::ident::{ident_chars_end, ident_chars_end_exec};
use super::utils::{chars_of, substring};

verus! {

/// A hash at the start of `input`: the rest of the input and the characters
/// after the `#`, which may be none.
pub fn hash_str(input: &str) -> (res: Option<(&str, &str)>)
    ensures
        input@.len() > 0 && input@[0] == '#' ==> (res matches Some((rest, name)) && name@
            == input@.subrange(1, ident_chars_end(input@, 1)) && rest@ == input@.subrange(
            ident_chars_end(input@, 1),
            input@.len() as int,
        )),
        !(input@.len() > 0 && input@[0] == '#') ==> res is None,
{
    let cs = chars_of(input);
    let s = cs.as_slice();
    if s.len() > 0 && s[0] == '#' {
        let end = ident_chars_end_exec(s, 1);
        Some((substring(input, end, s.len()), substring(input, 1, end)))
    } else {
        None
    }
}

} // verus!

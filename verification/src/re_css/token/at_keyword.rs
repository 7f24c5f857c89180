//! At-keywords: `@` and an identifier.

use vstd::prelude::*;
use super::ident::{ident_at, ident_len};
use super::utils::{chars_of, substring};

verus! {

/// An at-keyword at the start of `input`: the rest of the input and the
/// identifier after the `@`.
pub fn at_keyword_str(input: &str) -> (res: Option<(&str, &str)>)
    ensures
        match (if input@.len() > 0 && input@[0] == '@' { ident_at(input@, 1) } else { None }) {
            Some(n) => res matches Some((rest, name)) && name@ == input@.subrange(1, 1 + n as int) && rest@
                == input@.subrange(1 + n as int, input@.len() as int),
            None => res is None,
        },
{
    let cs = chars_of(input);
    let s = cs.as_slice();
    if s.len() > 0 && s[0] == '@' {
        match ident_len(s, 1) {
            Some(n) => Some((substring(input, 1 + n, s.len()), substring(input, 1, 1 + n))),
            None => None,
        }
    } else {
        None
    }
}

} // verus!

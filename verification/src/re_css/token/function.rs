//! Function tokens: an identifier and `(`.

use vstd::prelude::*;
use super::ident::{ident_at, ident_len};
use super::utils::{chars_of, substring};

verus! {

/// The length of the identifier of a function token at the start of `s`,
/// where an identifier there is followed by `(`.
pub open spec fn function_at(s: Seq<char>) -> Option<nat> {
    match ident_at(s, 0) {
        Some(n) => if n < s.len() && s[n as int] == '(' {
            Some(n)
        } else {
            None
        },
        None => None,
    }
}

/// A function token at the start of `input`: the rest of the input after the
/// `(`, and the function's name.
pub fn function_token_str(input: &str) -> (res: Option<(&str, &str)>)
    ensures
        match function_at(input@) {
            Some(n) => res matches Some((rest, name)) && name@ == input@.subrange(0, n as int) && rest@
                == input@.subrange(n as int + 1, input@.len() as int),
            None => res is None,
        },
{
    let cs = chars_of(input);
    let s = cs.as_slice();
    match ident_len(s, 0) {
        Some(n) => if n < s.len() && s[n] == '(' {
            Some((substring(input, n + 1, s.len()), substring(input, 0, n)))
        } else {
            None
        },
        None => None,
    }
}

} // verus!

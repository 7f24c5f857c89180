//! Identifiers: a letter, `_`, a non-ASCII character, an escape or `-`, then
//! any number of letters, digits, `_`, `-`, non-ASCII characters and escapes.

use vstd::prelude::*;
use super::escape::{escape_at, escape_len, lemma_escape_bounds};
use super::utils::{
    is_alnum, is_alpha, is_non_ascii, split_spec, alnum, alpha, non_ascii, chars_of, split_at_char,
};

verus! {

pub open spec fn is_initial_ident_char(c: char) -> bool {
    is_alpha(c) || c == '_' || is_non_ascii(c)
}

pub open spec fn is_subsequent_ident_char(c: char) -> bool {
    is_alnum(c) || c == '_' || c == '-' || is_non_ascii(c)
}

/// The length of the first character of an identifier at `i`, if one starts there.
pub open spec fn initial_ident_char_at(s: Seq<char>, i: int) -> Option<nat> {
    if 0 <= i < s.len() && is_initial_ident_char(s[i]) {
        Some(1)
    } else if escape_at(s, i) is Some {
        escape_at(s, i)
    } else if 0 <= i < s.len() && s[i] == '-' {
        Some(1)
    } else {
        None
    }
}

/// The length of a further character of an identifier at `i`, if there is one.
pub open spec fn subsequent_ident_char_at(s: Seq<char>, i: int) -> Option<nat> {
    if 0 <= i < s.len() && is_subsequent_ident_char(s[i]) {
        Some(1)
    } else {
        escape_at(s, i)
    }
}

/// Where the run of further identifier characters from `i` ends.
pub open spec fn ident_chars_end(s: Seq<char>, i: int) -> int
    decreases s.len() - i,
{
    if 0 <= i <= s.len() {
        match subsequent_ident_char_at(s, i) {
            Some(k) => if k >= 1 && i + k <= s.len() {
                ident_chars_end(s, i + k)
            } else {
                i
            },
            None => i,
        }
    } else {
        i
    }
}

/// The length of the identifier at `i`, if one starts there.
pub open spec fn ident_at(s: Seq<char>, i: int) -> Option<nat> {
    match initial_ident_char_at(s, i) {
        Some(k) => Some((ident_chars_end(s, i + k) - i) as nat),
        None => None,
    }
}

pub proof fn lemma_ident_chars_end_bounds(s: Seq<char>, i: int)
    requires
        0 <= i <= s.len(),
    ensures
        i <= ident_chars_end(s, i) <= s.len(),
    decreases s.len() - i,
{
    match subsequent_ident_char_at(s, i) {
        Some(k) => if k >= 1 && i + k <= s.len() {
            lemma_ident_chars_end_bounds(s, i + k);
        },
        None => {},
    }
}

/// An identifier has at least one character and lies within the input.
pub proof fn lemma_ident_bounds(s: Seq<char>, i: int)
    requires
        0 <= i <= s.len(),
    ensures
        ident_at(s, i) matches Some(n) ==> 1 <= n && i + n <= s.len(),
{
    lemma_escape_bounds(s, i);
    match initial_ident_char_at(s, i) {
        Some(k) => lemma_ident_chars_end_bounds(s, i + k),
        None => {},
    }
}

/// The length of a further identifier character at `i`, if there is one.
pub(crate) fn subsequent_ident_char_len(s: &[char], i: usize) -> (res: Option<usize>)
    requires
        i <= s.len(),
    ensures
        res is None <==> subsequent_ident_char_at(s@, i as int) is None,
        res matches Some(n) ==> subsequent_ident_char_at(s@, i as int) == Some(n as nat) && 1 <= n && i + n
            <= s@.len(),
{
    proof {
        lemma_escape_bounds(s@, i as int);
    }
    if i < s.len() && (alnum(s[i]) || s[i] == '_' || s[i] == '-' || non_ascii(s[i])) {
        Some(1)
    } else {
        escape_len(s, i)
    }
}

/// Where the run of further identifier characters from `i` ends.
pub(crate) fn ident_chars_end_exec(s: &[char], i: usize) -> (res: usize)
    requires
        i <= s.len(),
    ensures
        res == ident_chars_end(s@, i as int),
        i <= res <= s@.len(),
{
    let mut j = i;
    loop
        invariant
            i <= j <= s.len(),
            ident_chars_end(s@, i as int) == ident_chars_end(s@, j as int),
        decreases s@.len() - j,
    {
        match subsequent_ident_char_len(s, j) {
            Some(k) => {
                j = j + k;
            },
            None => {
                return j;
            },
        }
    }
}

/// The length of the identifier at `i`, if one starts there.
pub(crate) fn ident_len(s: &[char], i: usize) -> (res: Option<usize>)
    requires
        i <= s.len(),
    ensures
        res is None <==> ident_at(s@, i as int) is None,
        res matches Some(n) ==> ident_at(s@, i as int) == Some(n as nat) && 1 <= n && i + n <= s.len(),
{
    proof {
        lemma_escape_bounds(s@, i as int);
        lemma_ident_bounds(s@, i as int);
    }
    let first = if i < s.len() && (alpha(s[i]) || s[i] == '_' || non_ascii(s[i])) {
        Some(1)
    } else {
        match escape_len(s, i) {
            Some(k) => Some(k),
            None => if i < s.len() && s[i] == '-' {
                Some(1)
            } else {
                None
            },
        }
    };
    match first {
        Some(k) => {
            let end = ident_chars_end_exec(s, i + k);
            Some(end - i)
        },
        None => None,
    }
}

/// An identifier at the start of `input`: the rest of the input and the identifier.
pub fn ident_token_str(input: &str) -> (res: Option<(&str, &str)>)
    ensures
        match ident_at(input@, 0) {
            Some(n) => res matches Some((rest, tok)) && (rest@, tok@) == split_spec(input@, n as int),
            None => res is None,
        },
{
    let cs = chars_of(input);
    match ident_len(cs.as_slice(), 0) {
        Some(n) => Some(split_at_char(input, n)),
        None => None,
    }
}

} // verus!

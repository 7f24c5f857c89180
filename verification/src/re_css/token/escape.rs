//! Escapes: a backslash and one character, or a backslash and up to six
//! hexadecimal digits with the whitespace after them.

use vstd::prelude::*;
use super::utils::{
    is_hex_digit, is_multispace, split_spec, hex_digit, multispace, chars_of, split_at_char,
    is_not_newline_or_hex_digit,
};

verus! {

/// The number of hexadecimal digits from `i` on, at most `max`.
pub open spec fn hex_run(s: Seq<char>, i: int, max: nat) -> nat
    decreases max,
{
    if max == 0 || i < 0 || i >= s.len() || !is_hex_digit(s[i]) {
        0
    } else {
        1 + hex_run(s, i + 1, (max - 1) as nat)
    }
}

/// The number of whitespace characters from `i` on.
pub open spec fn multispace_run(s: Seq<char>, i: int) -> nat
    decreases s.len() - i,
{
    if i < 0 || i >= s.len() || !is_multispace(s[i]) {
        0
    } else {
        1 + multispace_run(s, i + 1)
    }
}

/// The length of the escape at `i`, if one starts there: a backslash and a
/// character that is neither a hexadecimal digit nor a line feed; else a
/// backslash, one to six hexadecimal digits and any whitespace after them.
pub open spec fn escape_at(s: Seq<char>, i: int) -> Option<nat> {
    if 0 <= i < s.len() && s[i] == '\\' {
        if i + 1 < s.len() && !(is_hex_digit(s[i + 1]) || s[i + 1] == '\n') {
            Some(2)
        } else {
            let k = hex_run(s, i + 1, 6);
            if k >= 1 {
                Some(1 + k + multispace_run(s, i + 1 + k))
            } else {
                None
            }
        }
    } else {
        None
    }
}

pub proof fn lemma_hex_run_bounds(s: Seq<char>, i: int, max: nat)
    requires
        0 <= i <= s.len(),
    ensures
        hex_run(s, i, max) <= max,
        i + hex_run(s, i, max) <= s.len(),
    decreases max,
{
    if !(max == 0 || i >= s.len() || !is_hex_digit(s[i])) {
        lemma_hex_run_bounds(s, i + 1, (max - 1) as nat);
    }
}

pub proof fn lemma_multispace_run_bounds(s: Seq<char>, i: int)
    requires
        0 <= i <= s.len(),
    ensures
        i + multispace_run(s, i) <= s.len(),
    decreases s.len() - i,
{
    if !(i >= s.len() || !is_multispace(s[i])) {
        lemma_multispace_run_bounds(s, i + 1);
    }
}

/// An escape is at least two characters long and lies within the input.
pub proof fn lemma_escape_bounds(s: Seq<char>, i: int)
    requires
        0 <= i <= s.len(),
    ensures
        escape_at(s, i) matches Some(n) ==> 2 <= n && i + n <= s.len(),
{
    if 0 <= i < s.len() && s[i] == '\\' {
        lemma_hex_run_bounds(s, i + 1, 6);
        let k = hex_run(s, i + 1, 6);
        lemma_multispace_run_bounds(s, i + 1 + k);
    }
}

/// The number of hexadecimal digits from `i` on, at most `max`.
pub(crate) fn hex_run_exec(s: &[char], i: usize, max: usize) -> (res: usize)
    requires
        i <= s.len(),
    ensures
        res == hex_run(s@, i as int, max as nat),
        i + res <= s.len(),
{
    proof {
        lemma_hex_run_bounds(s@, i as int, max as nat);
    }
    let mut k: usize = 0;
    while k < max && i + k < s.len() && hex_digit(s[i + k])
        invariant
            i <= s.len(),
            k <= max,
            i + k <= s.len(),
            hex_run(s@, i as int, max as nat) == k + hex_run(s@, i + k, (max - k) as nat),
        decreases max - k,
    {
        k += 1;
    }
    k
}

/// The number of whitespace characters from `i` on.
pub(crate) fn multispace_run_exec(s: &[char], i: usize) -> (res: usize)
    requires
        i <= s.len(),
    ensures
        res == multispace_run(s@, i as int),
        i + res <= s.len(),
{
    let mut k: usize = 0;
    while i + k < s.len() && multispace(s[i + k])
        invariant
            i + k <= s.len(),
            multispace_run(s@, i as int) == k + multispace_run(s@, i + k),
        decreases s@.len() - i - k,
    {
        k += 1;
    }
    k
}

/// The length of the escape at `i`, if one starts there.
pub(crate) fn escape_len(s: &[char], i: usize) -> (res: Option<usize>)
    requires
        i <= s.len(),
    ensures
        res is None <==> escape_at(s@, i as int) is None,
        res matches Some(n) ==> escape_at(s@, i as int) == Some(n as nat) && 2 <= n && i + n <= s.len(),
{
    proof {
        lemma_escape_bounds(s@, i as int);
    }
    if i < s.len() && s[i] == '\\' {
        if i + 1 < s.len() && is_not_newline_or_hex_digit(s[i + 1]) {
            Some(2)
        } else {
            let k = hex_run_exec(s, i + 1, 6);
            if k >= 1 {
                let w = multispace_run_exec(s, i + 1 + k);
                Some(1 + k + w)
            } else {
                None
            }
        }
    } else {
        None
    }
}

/// An escape at the start of `input`: the rest of the input and the escape.
pub fn escape_str(input: &str) -> (res: Option<(&str, &str)>)
    ensures
        match escape_at(input@, 0) {
            Some(n) => res matches Some((rest, tok)) && (rest@, tok@) == split_spec(input@, n as int),
            None => res is None,
        },
{
    let cs = chars_of(input);
    match escape_len(cs.as_slice(), 0) {
        Some(n) => Some(split_at_char(input, n)),
        None => None,
    }
}

} // verus!

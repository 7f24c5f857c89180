//! Unicode ranges: `U+` followed by hexadecimal digits, by hexadecimal digits
//! and question marks, or by two runs of hexadecimal digits around `-`.

use vstd::prelude::*;
use super::utils::{is_hex_digit, hex_digit, chars_of, split_spec, split_at_char};

verus! {

/// The number of hexadecimal digits from `i` on.
pub open spec fn hex_digits(s: Seq<char>, i: int) -> nat
    decreases s.len() - i,
{
    if i < 0 || i >= s.len() || !is_hex_digit(s[i]) {
        0
    } else {
        1 + hex_digits(s, i + 1)
    }
}

/// The number of question marks from `i` on, at most `max`.
pub open spec fn qmark_run(s: Seq<char>, i: int, max: nat) -> nat
    decreases max,
{
    if max == 0 || i < 0 || i >= s.len() || s[i] != '?' {
        0
    } else {
        1 + qmark_run(s, i + 1, (max - 1) as nat)
    }
}

/// Whether `s` starts with `U+`, the `U` in either case.
pub open spec fn u_plus(s: Seq<char>) -> bool {
    s.len() >= 2 && (s[0] == 'U' || s[0] == 'u') && s[1] == '+'
}

/// `U+`, hexadecimal digits, `-`, hexadecimal digits.
pub open spec fn range_of_two(s: Seq<char>) -> Option<nat> {
    let h1 = hex_digits(s, 2) as int;
    if u_plus(s) && h1 >= 1 && 2 + h1 < s.len() && s[2 + h1] == '-' && hex_digits(s, 3 + h1) >= 1 {
        Some((3 + h1 + hex_digits(s, 3 + h1)) as nat)
    } else {
        None
    }
}

/// `U+`, hexadecimal digits, one to six question marks.
pub open spec fn range_with_wildcards(s: Seq<char>) -> Option<nat> {
    let h = hex_digits(s, 2) as int;
    if u_plus(s) && h >= 1 && qmark_run(s, 2 + h, 6) >= 1 {
        Some((2 + h + qmark_run(s, 2 + h, 6)) as nat)
    } else {
        None
    }
}

/// `U+` and hexadecimal digits.
pub open spec fn single_code_point(s: Seq<char>) -> Option<nat> {
    let h = hex_digits(s, 2);
    if u_plus(s) && h >= 1 {
        Some(2 + h)
    } else {
        None
    }
}

/// The length of the Unicode range at the start of `s`, the forms tried in
/// the order two runs, wildcards, single code point.
pub open spec fn unicode_range_at(s: Seq<char>) -> Option<nat> {
    if range_of_two(s) is Some {
        range_of_two(s)
    } else if range_with_wildcards(s) is Some {
        range_with_wildcards(s)
    } else {
        single_code_point(s)
    }
}

pub proof fn lemma_hex_digits_bounds(s: Seq<char>, i: int)
    requires
        0 <= i <= s.len(),
    ensures
        i + hex_digits(s, i) <= s.len(),
    decreases s.len() - i,
{
    if !(i >= s.len() || !is_hex_digit(s[i])) {
        lemma_hex_digits_bounds(s, i + 1);
    }
}

pub proof fn lemma_qmark_run_bounds(s: Seq<char>, i: int, max: nat)
    requires
        0 <= i <= s.len(),
    ensures
        i + qmark_run(s, i, max) <= s.len(),
    decreases max,
{
    if !(max == 0 || i >= s.len() || s[i] != '?') {
        lemma_qmark_run_bounds(s, i + 1, (max - 1) as nat);
    }
}

fn hex_digits_exec(s: &[char], i: usize) -> (res: usize)
    requires
        i <= s.len(),
    ensures
        res == hex_digits(s@, i as int),
        i + res <= s.len(),
{
    let mut k: usize = 0;
    while i + k < s.len() && hex_digit(s[i + k])
        invariant
            i + k <= s.len(),
            hex_digits(s@, i as int) == k + hex_digits(s@, i + k),
        decreases s@.len() - i - k,
    {
        k += 1;
    }
    k
}

fn qmark_run_exec(s: &[char], i: usize, max: usize) -> (res: usize)
    requires
        i <= s.len(),
    ensures
        res == qmark_run(s@, i as int, max as nat),
        i + res <= s.len(),
{
    let mut k: usize = 0;
    while k < max && i + k < s.len() && s[i + k] == '?'
        invariant
            i + k <= s.len(),
            k <= max,
            qmark_run(s@, i as int, max as nat) == k + qmark_run(s@, i + k, (max - k) as nat),
        decreases max - k,
    {
        k += 1;
    }
    k
}

/// A Unicode range at the start of `input`: the rest of the input and the range.
pub fn unicode_range_token(input: &str) -> (res: Option<(&str, &str)>)
    ensures
        match unicode_range_at(input@) {
            Some(n) => res matches Some((rest, tok)) && (rest@, tok@) == split_spec(input@, n as int),
            None => res is None,
        },
{
    let cs = chars_of(input);
    let s = cs.as_slice();
    if !(s.len() >= 2 && (s[0] == 'U' || s[0] == 'u') && s[1] == '+') {
        return None;
    }
    let h1 = hex_digits_exec(s, 2);
    if h1 >= 1 && 2 + h1 < s.len() && s[2 + h1] == '-' {
        let h2 = hex_digits_exec(s, 3 + h1);
        if h2 >= 1 {
            return Some(split_at_char(input, 3 + h1 + h2));
        }
    }
    if h1 >= 1 {
        let q = qmark_run_exec(s, 2 + h1, 6);
        if q >= 1 {
            return Some(split_at_char(input, 2 + h1 + q));
        }
        return Some(split_at_char(input, 2 + h1));
    }
    None
}

} // verus!

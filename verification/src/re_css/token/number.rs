//! Numbers, and the number parts of dimensions and percentages.

use vstd::prelude::*;
use super::ident::{ident_at, ident_len};
use super::utils::{is_digit, digit, chars_of, substring};

verus! {

/// One for a sign at `i`, else zero.
pub open spec fn sign_len(s: Seq<char>, i: int) -> nat {
    if 0 <= i < s.len() && (s[i] == '+' || s[i] == '-') {
        1
    } else {
        0
    }
}

/// The number of decimal digits from `i` on.
pub open spec fn digit_run(s: Seq<char>, i: int) -> nat
    decreases s.len() - i,
{
    if i < 0 || i >= s.len() || !is_digit(s[i]) {
        0
    } else {
        1 + digit_run(s, i + 1)
    }
}

/// An integer at `i`: an optional sign and at least one digit.
pub open spec fn integer_at(s: Seq<char>, i: int) -> Option<nat> {
    let sg = sign_len(s, i);
    let d = digit_run(s, i + sg);
    if d >= 1 {
        Some(sg + d)
    } else {
        None
    }
}

/// A decimal at `i`: an optional integer part, `.`, and at least one digit.
pub open spec fn decimal_at(s: Seq<char>, i: int) -> Option<nat> {
    let p: nat = match integer_at(s, i) {
        Some(k) => k,
        None => 0,
    };
    let j = i + p;
    if 0 <= j < s.len() && s[j] == '.' {
        let d = digit_run(s, j + 1);
        if d >= 1 {
            Some(p + 1 + d)
        } else {
            None
        }
    } else {
        None
    }
}

/// An exponent at `i`: `e` or `E`, an optional sign, and at least one digit.
pub open spec fn exponent_at(s: Seq<char>, i: int) -> Option<nat> {
    if 0 <= i < s.len() && (s[i] == 'e' || s[i] == 'E') {
        let sg = sign_len(s, i + 1);
        let d = digit_run(s, i + 1 + sg);
        if d >= 1 {
            Some(1 + sg + d)
        } else {
            None
        }
    } else {
        None
    }
}

/// A number at `i`: a decimal, or else an integer, then an optional exponent.
pub open spec fn number_at(s: Seq<char>, i: int) -> Option<nat> {
    let m = if decimal_at(s, i) is Some {
        decimal_at(s, i)
    } else {
        integer_at(s, i)
    };
    match m {
        Some(k) => Some(
            k + match exponent_at(s, i + k) {
                Some(e) => e,
                None => 0,
            },
        ),
        None => None,
    }
}

pub proof fn lemma_digit_run_bounds(s: Seq<char>, i: int)
    requires
        0 <= i <= s.len(),
    ensures
        i + digit_run(s, i) <= s.len(),
    decreases s.len() - i,
{
    if !(i >= s.len() || !is_digit(s[i])) {
        lemma_digit_run_bounds(s, i + 1);
    }
}

/// Whether a digit follows position `k`: `k` is inside the input and holds one.
pub open spec fn digit_at(s: Seq<char>, k: int) -> bool {
    0 <= k < s.len() && is_digit(s[k])
}

/// The digits from `i` on are digits, and the one after them is not.
proof fn lemma_digit_run_maximal(s: Seq<char>, i: int)
    requires
        0 <= i,
    ensures
        forall|k: int| i <= k < i + digit_run(s, i) ==> #[trigger] digit_at(s, k),
        !digit_at(s, i + digit_run(s, i)),
    decreases s.len() - i,
{
    if !(i >= s.len() || !is_digit(s[i])) {
        lemma_digit_run_maximal(s, i + 1);
    }
}

/// A number takes every digit it can: the character after an integer, a
/// decimal or a number is never a digit. A decimal is the part before its
/// point, the point, and only digits after it, at least one.
pub proof fn law_numbers_take_every_digit(s: Seq<char>, i: int)
    requires
        0 <= i <= s.len(),
    ensures
        integer_at(s, i) matches Some(n) ==> !digit_at(s, i + n),
        decimal_at(s, i) matches Some(n) ==> !digit_at(s, i + n) && exists|j: int|
            #![trigger s[j]]
            i <= j < i + n - 1 && s[j] == '.' && forall|k: int| j < k < i + n ==> #[trigger] digit_at(s, k),
        number_at(s, i) matches Some(n) ==> !digit_at(s, i + n),
{
    let sg = sign_len(s, i);
    lemma_digit_run_maximal(s, i + sg);
    let p: nat = match integer_at(s, i) {
        Some(k) => k,
        None => 0,
    };
    lemma_digit_run_maximal(s, i + p + 1);
    if let Some(n) = decimal_at(s, i) {
        let j = i + p;
        assert(s[j] == '.');
    }
    let m = if decimal_at(s, i) is Some {
        decimal_at(s, i)
    } else {
        integer_at(s, i)
    };
    if let Some(k) = m {
        let sg2 = sign_len(s, i + k + 1);
        lemma_digit_run_maximal(s, i + k + 1 + sg2);
        if 0 <= i + k < s.len() && (s[i + k] == 'e' || s[i + k] == 'E') {
            assert(!is_digit(s[i + k]));
        }
    }
}

/// A number has at least one character and lies within the input.
pub proof fn lemma_number_bounds(s: Seq<char>, i: int)
    requires
        0 <= i <= s.len(),
    ensures
        integer_at(s, i) matches Some(n) ==> i + n <= s.len(),
        decimal_at(s, i) matches Some(n) ==> i + n <= s.len(),
        number_at(s, i) matches Some(n) ==> 1 <= n && i + n <= s.len(),
{
    let sg = sign_len(s, i);
    lemma_digit_run_bounds(s, i + sg);
    let p: nat = match integer_at(s, i) {
        Some(k) => k,
        None => 0,
    };
    if 0 <= i + p < s.len() {
        lemma_digit_run_bounds(s, i + p + 1);
    }
    let m = if decimal_at(s, i) is Some {
        decimal_at(s, i)
    } else {
        integer_at(s, i)
    };
    match m {
        Some(k) => {
            if 0 <= i + k < s.len() {
                let sg2 = sign_len(s, i + k + 1);
                lemma_digit_run_bounds(s, i + k + 1 + sg2);
            }
        },
        None => {},
    }
}

fn sign_len_exec(s: &[char], i: usize) -> (res: usize)
    requires
        i <= s.len(),
    ensures
        res == sign_len(s@, i as int),
        i + res <= s.len(),
{
    if i < s.len() && (s[i] == '+' || s[i] == '-') {
        1
    } else {
        0
    }
}

fn digit_run_exec(s: &[char], i: usize) -> (res: usize)
    requires
        i <= s.len(),
    ensures
        res == digit_run(s@, i as int),
        i + res <= s.len(),
{
    let mut k: usize = 0;
    while i + k < s.len() && digit(s[i + k])
        invariant
            i + k <= s.len(),
            digit_run(s@, i as int) == k + digit_run(s@, i + k),
        decreases s@.len() - i - k,
    {
        k += 1;
    }
    k
}

fn integer_len(s: &[char], i: usize) -> (res: Option<usize>)
    requires
        i <= s.len(),
    ensures
        res is None <==> integer_at(s@, i as int) is None,
        res matches Some(n) ==> integer_at(s@, i as int) == Some(n as nat) && i + n <= s.len(),
{
    let sg = sign_len_exec(s, i);
    let d = digit_run_exec(s, i + sg);
    if d >= 1 {
        Some(sg + d)
    } else {
        None
    }
}

fn decimal_len(s: &[char], i: usize) -> (res: Option<usize>)
    requires
        i <= s.len(),
    ensures
        res is None <==> decimal_at(s@, i as int) is None,
        res matches Some(n) ==> decimal_at(s@, i as int) == Some(n as nat) && i + n <= s.len(),
{
    let p = match integer_len(s, i) {
        Some(k) => k,
        None => 0,
    };
    let j = i + p;
    if j < s.len() && s[j] == '.' {
        let d = digit_run_exec(s, j + 1);
        if d >= 1 {
            Some(p + 1 + d)
        } else {
            None
        }
    } else {
        None
    }
}

fn exponent_len(s: &[char], i: usize) -> (res: Option<usize>)
    requires
        i <= s.len(),
    ensures
        res is None <==> exponent_at(s@, i as int) is None,
        res matches Some(n) ==> exponent_at(s@, i as int) == Some(n as nat) && i + n <= s.len(),
{
    if i < s.len() && (s[i] == 'e' || s[i] == 'E') {
        let sg = sign_len_exec(s, i + 1);
        let d = digit_run_exec(s, i + 1 + sg);
        if d >= 1 {
            Some(1 + sg + d)
        } else {
            None
        }
    } else {
        None
    }
}

/// The length of the number at `i`, if one starts there.
pub(crate) fn number_len(s: &[char], i: usize) -> (res: Option<usize>)
    requires
        i <= s.len(),
    ensures
        res is None <==> number_at(s@, i as int) is None,
        res matches Some(n) ==> number_at(s@, i as int) == Some(n as nat) && 1 <= n && i + n <= s.len(),
{
    proof {
        lemma_number_bounds(s@, i as int);
    }
    let m = match decimal_len(s, i) {
        Some(k) => Some(k),
        None => integer_len(s, i),
    };
    match m {
        Some(k) => {
            let e = match exponent_len(s, i + k) {
                Some(e) => e,
                None => 0,
            };
            Some(k + e)
        },
        None => None,
    }
}

/// A number at the start of `input`: the rest of the input and the number.
pub fn number_str(input: &str) -> (res: Option<(&str, &str)>)
    ensures
        match number_at(input@, 0) {
            Some(n) => res matches Some((rest, num)) && num@ == input@.subrange(0, n as int) && rest@
                == input@.subrange(n as int, input@.len() as int),
            None => res is None,
        },
{
    let cs = chars_of(input);
    let s = cs.as_slice();
    match number_len(s, 0) {
        Some(n) => Some((substring(input, n, s.len()), substring(input, 0, n))),
        None => None,
    }
}

/// The lengths of the number and of the unit of a dimension at the start of `s`.
pub open spec fn dimension_at(s: Seq<char>) -> Option<(nat, nat)> {
    match number_at(s, 0) {
        Some(n) => match ident_at(s, n as int) {
            Some(u) => Some((n, u)),
            None => None,
        },
        None => None,
    }
}

/// A dimension at the start of `input`: the rest of the input, and the
/// number and the unit.
pub fn dimension_pair(input: &str) -> (res: Option<(&str, (&str, &str))>)
    ensures
        match dimension_at(input@) {
            Some((n, u)) => res matches Some((rest, (num, unit))) && num@ == input@.subrange(0, n as int)
                && unit@ == input@.subrange(n as int, (n + u) as int) && rest@ == input@.subrange(
                (n + u) as int,
                input@.len() as int,
            ),
            None => res is None,
        },
{
    let cs = chars_of(input);
    let s = cs.as_slice();
    match number_len(s, 0) {
        Some(n) => match ident_len(s, n) {
            Some(u) => Some(
                (substring(input, n + u, s.len()), (substring(input, 0, n), substring(input, n, n + u))),
            ),
            None => None,
        },
        None => None,
    }
}

/// The length of the number of a percentage at the start of `s`.
pub open spec fn percentage_at(s: Seq<char>) -> Option<nat> {
    match number_at(s, 0) {
        Some(n) => if n < s.len() && s[n as int] == '%' {
            Some(n)
        } else {
            None
        },
        None => None,
    }
}

/// A percentage at the start of `input`: the rest of the input, and the
/// number and the `%`.
pub fn percentage_pair(input: &str) -> (res: Option<(&str, (&str, char))>)
    ensures
        match percentage_at(input@) {
            Some(n) => res matches Some((rest, (num, pct))) && num@ == input@.subrange(0, n as int) && pct
                == '%' && rest@ == input@.subrange(n as int + 1, input@.len() as int),
            None => res is None,
        },
{
    let cs = chars_of(input);
    let s = cs.as_slice();
    match number_len(s, 0) {
        Some(n) => if n < s.len() && s[n] == '%' {
            Some((substring(input, n + 1, s.len()), (substring(input, 0, n), '%')))
        } else {
            None
        },
        None => None,
    }
}

} // verus!

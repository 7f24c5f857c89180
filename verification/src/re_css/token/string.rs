//! Strings: text between double or between single quotes.

use vstd::prelude::*;
use super::utils::chars_of;

verus! {

pub open spec fn is_not_newline_or_quote(c: char) -> bool {
    c != '"' && c != '\'' && c != '\n'
}

/// The number of characters from `i` on that are neither quotes nor line feeds.
pub open spec fn plain_run(s: Seq<char>, i: int) -> nat
    decreases s.len() - i,
{
    if i < 0 || i >= s.len() || !is_not_newline_or_quote(s[i]) {
        0
    } else {
        1 + plain_run(s, i + 1)
    }
}

/// The content of a string from `i`: repeated runs, each the first of
/// two alternatives, a run of plain characters or a backslash escape, that
/// matches. The run matches everywhere, if only the empty text, so the
/// repetition ends on a run that takes nothing; a repetition that makes no
/// progress is an error, so there is no content.
pub open spec fn string_content_at(s: Seq<char>, i: int) -> Option<nat>
    decreases s.len() - i,
{
    let t = plain_run(s, i);
    if t == 0 || i < 0 || i + t > s.len() {
        None
    } else {
        string_content_at(s, i + t)
    }
}

/// A string at the start of `s`: a quote, content, and the same quote.
pub open spec fn string_at(s: Seq<char>) -> Option<nat> {
    if s.len() > 0 && (s[0] == '"' || s[0] == '\'') {
        match string_content_at(s, 1) {
            Some(n) => if 1 + n < s.len() && s[1 + n as int] == s[0] {
                Some(n)
            } else {
                None
            },
            None => None,
        }
    } else {
        None
    }
}

/// There is never any content, so never a string.
pub proof fn lemma_no_string_content(s: Seq<char>, i: int)
    ensures
        string_content_at(s, i) is None,
    decreases s.len() - i,
{
    let t = plain_run(s, i);
    if !(t == 0 || i < 0 || i + t > s.len()) {
        lemma_no_string_content(s, i + t);
    }
}

fn plain_run_exec(s: &[char], i: usize) -> (res: usize)
    requires
        i <= s.len(),
    ensures
        res == plain_run(s@, i as int),
        i + res <= s.len(),
{
    let mut k: usize = 0;
    while i + k < s.len() && s[i + k] != '"' && s[i + k] != '\'' && s[i + k] != '\n'
        invariant
            i + k <= s.len(),
            plain_run(s@, i as int) == k + plain_run(s@, i + k),
        decreases s@.len() - i - k,
    {
        k += 1;
    }
    k
}

/// The length of the content of a string from `i`, if there is any.
fn string_content_len(s: &[char], i: usize) -> (res: Option<usize>)
    requires
        i <= s.len(),
    ensures
        res is None <==> string_content_at(s@, i as int) is None,
        res matches Some(n) ==> string_content_at(s@, i as int) == Some(n as nat),
{
    let mut j = i;
    loop
        invariant
            i <= j <= s.len(),
            string_content_at(s@, i as int) == string_content_at(s@, j as int),
        decreases s@.len() - j,
    {
        let t = plain_run_exec(s, j);
        if t == 0 {
            return None;
        }
        j = j + t;
    }
}

/// A string at the start of `input`: the rest of the input and the content
/// between the quotes. As `string_content_at` shows, no input has one.
pub fn string_token(input: &str) -> (res: Option<(&str, &str)>)
    ensures
        string_at(input@) is None,
        res is None,
{
    proof {
        lemma_no_string_content(input@, 1);
    }
    let cs = chars_of(input);
    let s = cs.as_slice();
    if s.len() > 0 && (s[0] == '"' || s[0] == '\'') {
        match string_content_len(s, 1) {
            Some(_) => vstd::pervasive::unreached(),
            None => None,
        }
    } else {
        None
    }
}

} // verus!

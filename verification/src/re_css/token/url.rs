//! URL tokens: `url(`, the address, and `)`, with whitespace allowed inside
//! the parentheses.

use vstd::prelude::*;
use crate::html::tokenizer::is_whitespace_char;
use crate::html::tokenizer::transition::is_unicode_ws;
use super::escape::multispace_run;
use super::escape::multispace_run_exec;
use super::utils::chars_of;

verus! {

/// Control characters: U+0000 to U+001F and U+007F to U+009F.
pub open spec fn is_control(c: char) -> bool {
    (c as u32) <= 0x1F || (0x7F <= (c as u32) && (c as u32) <= 0x9F)
}

pub open spec fn is_non_printable(c: char) -> bool {
    is_control(c) && !is_unicode_ws(c)
}

/// The characters an address may hold unescaped.
pub open spec fn is_url_char(c: char) -> bool {
    !is_unicode_ws(c) && c != '"' && c != '\'' && c != '(' && c != ')' && !is_non_printable(c)
}

/// The number of address characters from `i` on.
pub open spec fn url_char_run(s: Seq<char>, i: int) -> nat
    decreases s.len() - i,
{
    if i < 0 || i >= s.len() || !is_url_char(s[i]) {
        0
    } else {
        1 + url_char_run(s, i + 1)
    }
}

/// The address from `i`: repeated runs, each the first of two alternatives,
/// a run of address characters or an escape, that matches. The run matches
/// everywhere, if only the empty text, so the repetition ends on a run that
/// takes nothing; a repetition that makes no progress is an error, so there
/// is no address.
pub open spec fn url_content_at(s: Seq<char>, i: int) -> Option<nat>
    decreases s.len() - i,
{
    let t = url_char_run(s, i);
    if t == 0 || i < 0 || i + t > s.len() {
        None
    } else {
        url_content_at(s, i + t)
    }
}

/// There is never an address.
pub proof fn lemma_no_url_content(s: Seq<char>, i: int)
    ensures
        url_content_at(s, i) is None,
    decreases s.len() - i,
{
    let t = url_char_run(s, i);
    if !(t == 0 || i < 0 || i + t > s.len()) {
        lemma_no_url_content(s, i + t);
    }
}

fn is_url_char_exec(c: char) -> (res: bool)
    ensures
        res == is_url_char(c),
{
    let u = c as u32;
    let ws = is_whitespace_char(c);
    let control = u <= 0x1F || (0x7F <= u && u <= 0x9F);
    !ws && c != '"' && c != '\'' && c != '(' && c != ')' && !(control && !ws)
}

fn url_char_run_exec(s: &[char], i: usize) -> (res: usize)
    requires
        i <= s.len(),
    ensures
        res == url_char_run(s@, i as int),
        i + res <= s.len(),
{
    let mut k: usize = 0;
    while i + k < s.len() && is_url_char_exec(s[i + k])
        invariant
            i + k <= s.len(),
            url_char_run(s@, i as int) == k + url_char_run(s@, i + k),
        decreases s@.len() - i - k,
    {
        k += 1;
    }
    k
}

/// The length of the address from `i`, if there is one.
fn url_content_len(s: &[char], i: usize) -> (res: Option<usize>)
    requires
        i <= s.len(),
    ensures
        res is None <==> url_content_at(s@, i as int) is None,
        res matches Some(n) ==> url_content_at(s@, i as int) == Some(n as nat),
{
    let mut j = i;
    loop
        invariant
            i <= j <= s.len(),
            url_content_at(s@, i as int) == url_content_at(s@, j as int),
        decreases s@.len() - j,
    {
        let t = url_char_run_exec(s, j);
        if t == 0 {
            return None;
        }
        j = j + t;
    }
}

/// A URL token at the start of `input`: the rest of the input and the
/// address. As `url_content_at` shows, no input has one.
pub fn url_token(input: &str) -> (res: Option<(&str, &str)>)
    ensures
        res is None,
{
    let cs = chars_of(input);
    let s = cs.as_slice();
    if s.len() >= 3 && s[0] == 'u' && s[1] == 'r' && s[2] == 'l' {
        let j = 3 + multispace_run_exec(s, 3);
        if j < s.len() && s[j] == '(' {
            let start = j + 1 + multispace_run_exec(s, j + 1);
            proof {
                lemma_no_url_content(s@, start as int);
            }
            match url_content_len(s, start) {
                Some(_) => vstd::pervasive::unreached(),
                None => None,
            }
        } else {
            None
        }
    } else {
        None
    }
}

} // verus!

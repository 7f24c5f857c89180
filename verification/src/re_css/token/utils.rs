//! Character classes of CSS syntax, and the pieces every token recognizer uses.

use vstd::prelude::*;
use vstd::string::StrSliceExecFns;

verus! {

/// Whether `c` is an ASCII hexadecimal digit.
pub open spec fn is_hex_digit(c: char) -> bool {
    ('0' <= c && c <= '9') || ('a' <= c && c <= 'f') || ('A' <= c && c <= 'F')
}

pub open spec fn is_digit(c: char) -> bool {
    '0' <= c && c <= '9'
}

pub open spec fn is_alpha(c: char) -> bool {
    ('a' <= c && c <= 'z') || ('A' <= c && c <= 'Z')
}

pub open spec fn is_alnum(c: char) -> bool {
    is_alpha(c) || is_digit(c)
}

pub open spec fn is_non_ascii(c: char) -> bool {
    c as u32 > 127
}

/// The whitespace that `multispace0` takes: space, tab, carriage return, line feed.
pub open spec fn is_multispace(c: char) -> bool {
    c == ' ' || c == '\t' || c == '\r' || c == '\n'
}

/// Whether `c` can follow a backslash in a one-character escape: neither a
/// hexadecimal digit nor a line feed.
pub fn is_not_newline_or_hex_digit(c: char) -> (res: bool)
    ensures
        res == !(is_hex_digit(c) || c == '\n'),
{
    !(('0' <= c && c <= '9') || ('a' <= c && c <= 'f') || ('A' <= c && c <= 'F') || c == '\n')
}

/// Whether `c` lies outside ASCII.
pub fn non_ascii(c: char) -> (res: bool)
    ensures
        res == is_non_ascii(c),
{
    c as u32 > 127
}

pub(crate) fn hex_digit(c: char) -> (res: bool)
    ensures
        res == is_hex_digit(c),
{
    ('0' <= c && c <= '9') || ('a' <= c && c <= 'f') || ('A' <= c && c <= 'F')
}

pub(crate) fn digit(c: char) -> (res: bool)
    ensures
        res == is_digit(c),
{
    '0' <= c && c <= '9'
}

pub(crate) fn alpha(c: char) -> (res: bool)
    ensures
        res == is_alpha(c),
{
    ('a' <= c && c <= 'z') || ('A' <= c && c <= 'Z')
}

pub(crate) fn alnum(c: char) -> (res: bool)
    ensures
        res == is_alnum(c),
{
    alpha(c) || digit(c)
}

pub(crate) fn multispace(c: char) -> (res: bool)
    ensures
        res == is_multispace(c),
{
    c == ' ' || c == '\t' || c == '\r' || c == '\n'
}

/// The characters of a string.
pub(crate) fn chars_of(s: &str) -> (res: Vec<char>)
    ensures
        res@ == s@,
{
    let n = s.unicode_len();
    let mut out: Vec<char> = Vec::new();
    let mut i: usize = 0;
    while i < n
        invariant
            n == s@.len(),
            i <= n,
            out@ == s@.subrange(0, i as int),
        decreases n - i,
    {
        out.push(s.get_char(i));
        i += 1;
        assert(out@ =~= s@.subrange(0, i as int));
    }
    assert(s@.subrange(0, n as int) =~= s@);
    out
}

/// What a recognizer hands back for a prefix of `s` of `n` characters: the
/// rest of the input and the prefix.
pub open spec fn split_spec(s: Seq<char>, n: int) -> (Seq<char>, Seq<char>) {
    (s.subrange(n, s.len() as int), s.subrange(0, n))
}

/// The rest of `s` after its first `n` characters, and those characters.
pub(crate) fn split_at_char(s: &str, n: usize) -> (res: (&str, &str))
    requires
        n <= s@.len(),
    ensures
        (res.0@, res.1@) == split_spec(s@, n as int),
{
    let len = s.unicode_len();
    (s.substring_char(n, len), s.substring_char(0, n))
}

/// The characters from `from` up to `to`.
pub(crate) fn substring(s: &str, from: usize, to: usize) -> (res: &str)
    requires
        from <= to <= s@.len(),
    ensures
        res@ == s@.subrange(from as int, to as int),
{
    s.substring_char(from, to)
}

} // verus!

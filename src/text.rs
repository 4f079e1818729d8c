//! Character-level helpers on strings.

use vstd::prelude::*;
use vstd::string::*;

verus! {

/// Compares two strings character by character.
pub fn str_eq(a: &str, b: &str) -> (r: bool)
    ensures
        r == (a@ == b@),
{
    let n = a.unicode_len();
    if n != b.unicode_len() {
        return false;
    }
    let mut i: usize = 0;
    while i < n
        invariant
            n == a@.len(),
            n == b@.len(),
            i <= n,
            a@.subrange(0, i as int) == b@.subrange(0, i as int),
        decreases n - i,
    {
        if a.get_char(i) != b.get_char(i) {
            return false;
        }
        assert(a@.subrange(0, i + 1) =~= a@.subrange(0, i as int).push(a@[i as int]));
        assert(b@.subrange(0, i + 1) =~= b@.subrange(0, i as int).push(b@[i as int]));
        i = i + 1;
    }
    assert(a@ =~= a@.subrange(0, n as int));
    assert(b@ =~= b@.subrange(0, n as int));
    true
}

/// The characters that `char::is_ascii_whitespace` accepts.
pub open spec fn is_ws(c: char) -> bool {
    c == ' ' || c == '\t' || c == '\n' || c == '\u{000C}' || c == '\r'
}

fn char_is_ws(c: char) -> (r: bool)
    ensures
        r == is_ws(c),
{
    c == ' ' || c == '\t' || c == '\n' || c == '\u{000C}' || c == '\r'
}

/// The end of the run of whitespace that starts at `from`.
pub open spec fn ws_run(s: Seq<char>, from: int) -> int
    decreases s.len() - from,
{
    if 0 <= from < s.len() && is_ws(s[from]) {
        ws_run(s, from + 1)
    } else {
        from
    }
}

/// The end of the run of non-whitespace that starts at `from`.
pub open spec fn word_run(s: Seq<char>, from: int) -> int
    decreases s.len() - from,
{
    if 0 <= from < s.len() && !is_ws(s[from]) {
        word_run(s, from + 1)
    } else {
        from
    }
}

/// The start of the run of whitespace that ends at `to`, not going below `lo`.
pub open spec fn ws_back(s: Seq<char>, lo: int, to: int) -> int
    decreases to - lo,
{
    if lo < to <= s.len() && is_ws(s[to - 1]) {
        ws_back(s, lo, to - 1)
    } else {
        to
    }
}

/// A command line split into its path, the first word after any leading
/// whitespace, and its arguments, the rest with whitespace trimmed at both
/// ends, or `None` where nothing is left.
pub open spec fn split_line_of(line: Seq<char>) -> (Seq<char>, Option<Seq<char>>) {
    let a = ws_run(line, 0);
    let b = word_run(line, a);
    let c = ws_run(line, b);
    let d = ws_back(line, c, line.len() as int);
    (line.subrange(a, b), if c < d { Some(line.subrange(c, d)) } else { None })
}

fn skip_ws(s: &str, n: usize, from: usize) -> (r: usize)
    requires
        n == s@.len(),
        from <= n,
    ensures
        r == ws_run(s@, from as int),
        from <= r <= n,
{
    let mut i = from;
    while i < n && char_is_ws(s.get_char(i))
        invariant
            n == s@.len(),
            from <= i <= n,
            ws_run(s@, i as int) == ws_run(s@, from as int),
        decreases n - i,
    {
        i = i + 1;
    }
    i
}

fn skip_word(s: &str, n: usize, from: usize) -> (r: usize)
    requires
        n == s@.len(),
        from <= n,
    ensures
        r == word_run(s@, from as int),
        from <= r <= n,
{
    let mut i = from;
    while i < n && !char_is_ws(s.get_char(i))
        invariant
            n == s@.len(),
            from <= i <= n,
            word_run(s@, i as int) == word_run(s@, from as int),
        decreases n - i,
    {
        i = i + 1;
    }
    i
}

fn skip_ws_back(s: &str, lo: usize, n: usize) -> (r: usize)
    requires
        n == s@.len(),
        lo <= n,
    ensures
        r == ws_back(s@, lo as int, n as int),
        lo <= r <= n,
{
    let mut i = n;
    while i > lo && char_is_ws(s.get_char(i - 1))
        invariant
            n == s@.len(),
            lo <= i <= n,
            ws_back(s@, lo as int, i as int) == ws_back(s@, lo as int, n as int),
        decreases i - lo,
    {
        i = i - 1;
    }
    i
}

/// Splits a command line into its path and its optional arguments.
pub fn split_line(line: &str) -> (r: (&str, Option<&str>))
    ensures
        r.0@ == split_line_of(line@).0,
        r.1 is Some == split_line_of(line@).1 is Some,
        r.1 is Some ==> r.1->Some_0@ == split_line_of(line@).1->Some_0,
{
    let n = line.unicode_len();
    let a = skip_ws(line, n, 0);
    let b = skip_word(line, n, a);
    let c = skip_ws(line, n, b);
    let d = skip_ws_back(line, c, n);
    let path = line.substring_char(a, b);
    if c < d {
        (path, Some(line.substring_char(c, d)))
    } else {
        (path, None)
    }
}

} // verus!

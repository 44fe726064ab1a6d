//! Extraction of the tag name from an HTML-like tag string: the characters
//! after the opening angle brackets, up to and including the first slash,
//! closing bracket or space, with whitespace trimmed from both ends.

use vstd::prelude::*;
use vstd::string::StrSliceExecFns;

use crate::chars::is_space_char;
use crate::chars::space_char;

verus! {

/// The first position at or after `i` whose character is not an opening
/// bracket, or the length of `s` when every one from `i` on is.
pub open spec fn first_non_bracket_from(s: Seq<char>, i: int) -> int
    decreases s.len() - i,
{
    if i < 0 || i >= s.len() {
        s.len() as int
    } else if s[i] != '<' {
        i
    } else {
        first_non_bracket_from(s, i + 1)
    }
}

/// Where the tag name starts: at the first character that is not an opening
/// bracket, or at the very front when the string is all brackets or empty.
pub open spec fn tag_start(s: Seq<char>) -> int {
    if first_non_bracket_from(s, 0) == s.len() {
        0
    } else {
        first_non_bracket_from(s, 0)
    }
}

/// A character that terminates a tag name.
pub open spec fn is_tag_sep(c: char) -> bool {
    c == '/' || c == '>' || c == ' '
}

/// The first position at or after `i` holding a tag-name terminator, or the
/// length of `s` when there is none.
pub open spec fn first_sep_from(s: Seq<char>, i: int) -> int
    decreases s.len() - i,
{
    if i < 0 || i >= s.len() {
        s.len() as int
    } else if is_tag_sep(s[i]) {
        i
    } else {
        first_sep_from(s, i + 1)
    }
}

/// Where the extracted region ends: one past the distance from the start to
/// the first terminator, or the length of `s` when no terminator follows.
pub open spec fn tag_end(s: Seq<char>) -> int {
    if first_sep_from(s, tag_start(s)) == s.len() {
        s.len() as int
    } else {
        first_sep_from(s, tag_start(s)) + 1 - tag_start(s)
    }
}

/// `s[lo..hi]` with whitespace removed from both ends.
pub open spec fn trim_chars_from(s: Seq<char>, lo: int, hi: int) -> Seq<char>
    recommends
        0 <= lo,
        hi <= s.len(),
    decreases hi - lo,
{
    if lo >= hi {
        Seq::empty()
    } else if is_space_char(s[lo]) {
        trim_chars_from(s, lo + 1, hi)
    } else if is_space_char(s[hi - 1]) {
        trim_chars_from(s, lo, hi - 1)
    } else {
        s.subrange(lo, hi)
    }
}

/// The tag name extracted from `s`: the region between the opening brackets
/// and the end position, trimmed of whitespace.
pub open spec fn spec_html_tag(s: Seq<char>) -> Seq<char> {
    trim_chars_from(s, tag_start(s), tag_end(s))
}

/// Extract the tag name from an HTML-like tag string.
///
/// Inputs whose first terminator stands before the tag-name start, as in a
/// string of several opening brackets ended at once, have no extractable
/// region and are left out.
pub fn html_tag<'a>(string: &'a str) -> (r: &'a str)
    requires
        tag_end(string@) >= tag_start(string@),
    ensures
        r@ == spec_html_tag(string@),
{
    let n = string.unicode_len();
    let ghost v = string@;
    let mut i: usize = 0;
    while i < n && string.get_char(i) == '<'
        invariant
            i <= n,
            n == v.len(),
            v == string@,
            first_non_bracket_from(v, 0) == first_non_bracket_from(v, i as int),
        decreases n - i,
    {
        i = i + 1;
    }
    let start: usize = if i < n {
        i
    } else {
        0
    };
    assert(start == tag_start(v));
    let mut j: usize = start;
    while j < n && !(string.get_char(j) == '/' || string.get_char(j) == '>' || string.get_char(j)
        == ' ')
        invariant
            start <= j <= n,
            n == v.len(),
            v == string@,
            first_sep_from(v, start as int) == first_sep_from(v, j as int),
        decreases n - j,
    {
        j = j + 1;
    }
    let end: usize = if j < n {
        j + 1 - start
    } else {
        n
    };
    assert(end == tag_end(v));
    let mut a = start;
    let mut b = end;
    while a < b && space_char(string.get_char(a))
        invariant
            start <= a <= b,
            b <= n,
            n == v.len(),
            v == string@,
            trim_chars_from(v, a as int, b as int) == trim_chars_from(
                v,
                start as int,
                end as int,
            ),
        decreases b - a,
    {
        a = a + 1;
    }
    while b > a && space_char(string.get_char(b - 1))
        invariant
            start <= a <= b,
            b <= n,
            n == v.len(),
            v == string@,
            a < b ==> !is_space_char(v[a as int]),
            trim_chars_from(v, a as int, b as int) == trim_chars_from(
                v,
                start as int,
                end as int,
            ),
        decreases b,
    {
        b = b - 1;
    }
    let r = string.substring_char(a, b);
    proof {
        if a < b {
            assert(trim_chars_from(v, a as int, b as int) == v.subrange(a as int, b as int));
        } else {
            assert(trim_chars_from(v, a as int, b as int) =~= v.subrange(a as int, a as int));
        }
    }
    r
}

} // verus!

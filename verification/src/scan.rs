//! Scanning a template: the executable counterparts of the grammar's
//! functions, each on a vector of characters and an offset into it.

use vstd::prelude::*;
use vstd::string::StrSliceExecFns;
use crate::grammar::{
    has_char, ignored_line_len, is_whitespace, lemma_matched_prefix, line_break_len, line_end,
    matched_prefix, matches_at, skip_ignored_lines, skip_whitespace,
};

verus! {

/// How many leading characters of `literal` stand at `i`.
pub(crate) fn match_prefix(chars: &Vec<char>, i: usize, literal: &str) -> (n: usize)
    requires
        i <= chars.len(),
    ensures
        n == matched_prefix(chars@, i as int, literal@),
        n <= literal@.len(),
        i + n <= chars.len(),
        n == literal@.len() <==> matches_at(chars@, i as int, literal@),
{
    let len = literal.unicode_len();
    let room = chars.len() - i;
    let mut n: usize = 0;
    proof {
        assert(literal@.skip(0) =~= literal@);
    }
    while n < len && n < room
        invariant
            i + room == chars.len(),
            len == literal@.len(),
            n <= len,
            n <= room,
            matched_prefix(chars@, i as int, literal@) == n + matched_prefix(
                chars@,
                i + n,
                literal@.skip(n as int),
            ),
        ensures
            n <= len,
            n <= room,
            matched_prefix(chars@, i as int, literal@) == n,
        decreases len - n,
    {
        proof {
            assert(literal@.skip(n as int).drop_first() =~= literal@.skip(n + 1));
            assert(literal@.skip(n as int)[0] == literal@[n as int]);
        }
        if chars[i + n] != literal.get_char(n) {
            break ;
        }
        n += 1;
    }
    proof {
        lemma_matched_prefix(chars@, i as int, literal@);
    }
    n
}

/// Whether `literal` stands at `i`.
pub(crate) fn starts_with(chars: &Vec<char>, i: usize, literal: &str) -> (found: bool)
    requires
        i <= chars.len(),
    ensures
        found == matches_at(chars@, i as int, literal@),
{
    match_prefix(chars, i, literal) == literal.unicode_len()
}

/// Whether `c` stands at `i`.
pub(crate) fn char_is(chars: &Vec<char>, i: usize, c: char) -> (found: bool)
    ensures
        found == has_char(chars@, i as int, c),
{
    i < chars.len() && chars[i] == c
}

/// Whether `c` is whitespace.
pub(crate) fn whitespace(c: char) -> (white: bool)
    ensures
        white == is_whitespace(c),
{
    ('\u{9}' <= c && c <= '\u{D}') || c == ' ' || c == '\u{85}' || c == '\u{A0}' || c
        == '\u{1680}' || ('\u{2000}' <= c && c <= '\u{200A}') || c == '\u{2028}' || c
        == '\u{2029}' || c == '\u{202F}' || c == '\u{205F}' || c == '\u{3000}'
}

/// The first offset from `i` on that is no whitespace.
pub(crate) fn after_whitespace(chars: &Vec<char>, i: usize) -> (end: usize)
    requires
        i <= chars.len(),
    ensures
        end == skip_whitespace(chars@, i as int),
        i <= end <= chars.len(),
{
    let mut end: usize = i;
    while end < chars.len() && whitespace(chars[end])
        invariant
            i <= end <= chars.len(),
            skip_whitespace(chars@, i as int) == skip_whitespace(chars@, end as int),
        decreases chars.len() - end,
    {
        end += 1;
    }
    end
}

/// The length of the line break at `i`, 0 where there is none.
pub(crate) fn line_break(chars: &Vec<char>, i: usize) -> (n: usize)
    requires
        i <= chars.len(),
    ensures
        n == line_break_len(chars@, i as int),
        i + n <= chars.len(),
{
    if i >= chars.len() {
        return 0;
    }
    let c = chars[i];
    if c == '\r' && i + 1 < chars.len() && chars[i + 1] == '\n' {
        2
    } else if c == '\n' || c == '\r' || c == '\u{B}' || c == '\u{C}' || c == '\u{85}' || c
        == '\u{2028}' || c == '\u{2029}' {
        1
    } else {
        0
    }
}

/// The first offset from `i` on at which a line break stands, or the length of
/// the template.
pub(crate) fn end_of_line(chars: &Vec<char>, i: usize) -> (end: usize)
    requires
        i <= chars.len(),
    ensures
        end == line_end(chars@, i as int),
        i <= end <= chars.len(),
{
    let mut end: usize = i;
    while end < chars.len() && line_break(chars, end) == 0
        invariant
            i <= end <= chars.len(),
            line_end(chars@, i as int) == line_end(chars@, end as int),
        decreases chars.len() - end,
    {
        end += 1;
    }
    end
}

/// The length of the ignored line at `i`, 0 where there is none.
pub(crate) fn ignored_line(chars: &Vec<char>, i: usize) -> (n: usize)
    requires
        i <= chars.len(),
    ensures
        n == ignored_line_len(chars@, i as int),
        i + n <= chars.len(),
{
    let n = line_break(chars, i);
    if n > 0 {
        n
    } else if char_is(chars, i, '#') {
        let end = end_of_line(chars, i + 1);
        let n = line_break(chars, end);
        if n > 0 {
            end + n - i
        } else {
            0
        }
    } else {
        0
    }
}

/// The first offset from `i` on at which no ignored line starts.
pub(crate) fn after_ignored_lines(chars: &Vec<char>, i: usize) -> (end: usize)
    requires
        i <= chars.len(),
    ensures
        end == skip_ignored_lines(chars@, i as int),
        i <= end <= chars.len(),
{
    let mut end: usize = i;
    loop
        invariant
            i <= end <= chars.len(),
            skip_ignored_lines(chars@, i as int) == skip_ignored_lines(chars@, end as int),
        ensures
            end == skip_ignored_lines(chars@, i as int),
        decreases chars.len() - end,
    {
        let n = ignored_line(chars, end);
        if n == 0 {
            break ;
        }
        end += n;
    }
    end
}

} // verus!

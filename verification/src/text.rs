//! Conversions between strings and sequences of characters.

use vstd::prelude::*;
use crate::grammar::{is_whitespace, skip_whitespace};
use crate::scan::{after_whitespace, whitespace};

verus! {

/// `String::push` appends one character to the end of the string.
pub assume_specification[ String::push ](s: &mut String, ch: char)
    ensures
        final(s)@ == old(s)@.push(ch),
;

/// The characters of `s`, in order.
pub(crate) fn chars_of(s: &str) -> (chars: Vec<char>)
    ensures
        chars@ == s@,
{
    let mut chars: Vec<char> = Vec::new();
    for c in it: s.chars()
        invariant
            chars@ == it.history(),
            it.seq() == s@,
    {
        chars.push(c);
    }
    chars
}

/// The characters of `chars` from `from` up to `to`, as a string.
pub(crate) fn string_of(chars: &Vec<char>, from: usize, to: usize) -> (s: String)
    requires
        from <= to <= chars.len(),
    ensures
        s@ == chars@.subrange(from as int, to as int),
{
    let mut s = String::new();
    let mut i: usize = from;
    while i < to
        invariant
            from <= i <= to <= chars.len(),
            s@ == chars@.subrange(from as int, i as int),
        decreases to - i,
    {
        s.push(chars[i]);
        i += 1;
    }
    s
}

/// `text` without the whitespace at its end.
pub open spec fn without_trailing_whitespace(text: Seq<char>) -> Seq<char>
    decreases text.len(),
{
    if text.len() > 0 && is_whitespace(text.last()) {
        without_trailing_whitespace(text.drop_last())
    } else {
        text
    }
}

/// `text` without the whitespace at its start and at its end.
pub open spec fn trimmed(text: Seq<char>) -> Seq<char> {
    without_trailing_whitespace(text.skip(skip_whitespace(text, 0)))
}

/// `text` without the whitespace at its start and at its end.
pub fn trim(text: &str) -> (kept: String)
    ensures
        kept@ == trimmed(text@),
{
    let chars = chars_of(text);
    let start = after_whitespace(&chars, 0);
    let mut end = chars.len();
    proof {
        assert(chars@.skip(start as int) =~= chars@.subrange(start as int, end as int));
    }
    while end > start && whitespace(chars[end - 1])
        invariant
            start <= end <= chars.len(),
            without_trailing_whitespace(chars@.subrange(start as int, end as int)) == trimmed(
                chars@,
            ),
        decreases end,
    {
        proof {
            let line = chars@.subrange(start as int, end as int);
            assert(line.last() == chars@[end - 1]);
            assert(line.drop_last() =~= chars@.subrange(start as int, end - 1));
        }
        end -= 1;
    }
    proof {
        let line = chars@.subrange(start as int, end as int);
        if end > start {
            assert(line.last() == chars@[end - 1]);
        }
    }
    string_of(&chars, start, end)
}

} // verus!

//! Splitting a message into the lines of a bubble.

use vstd::prelude::*;
use crate::text::{chars_of, string_of};

verus! {

/// The lines that `textwrap::wrap` makes of `text` for `width` columns when it
/// fills each line with as many words as fit, takes spaces alone for word
/// boundaries, and never cuts a word.
pub uninterp spec fn wrapped_lines(text: Seq<char>, width: nat) -> Seq<Seq<char>>;

/// The characters of each line.
pub open spec fn line_views(lines: Seq<String>) -> Seq<Seq<char>> {
    lines.map_values(|line: String| line@)
}

/// `text` without the spaces at its end.
pub open spec fn without_trailing_spaces(text: Seq<char>) -> Seq<char>
    decreases text.len(),
{
    if text.len() > 0 && text.last() == ' ' {
        without_trailing_spaces(text.drop_last())
    } else {
        text
    }
}

/// Whether `text` is a single line of fewer characters than `width`: such a
/// text is never broken.
pub open spec fn fits_one_line(text: Seq<char>, width: nat) -> bool {
    !text.contains('\n') && text.len() < width
}

/// Calls `textwrap::wrap` with the first-fit algorithm, the ASCII space as the
/// only word separator, no hyphenation and no breaking of long words, and
/// copies each line it returns into a `String`.
///
/// The contract gives the result its name. It claims one thing more: there
/// is at least one line, since `textwrap` wraps each line of the text by
/// itself and gives at least one line for each.
#[verifier::external_body]
fn first_fit(text: &str, width: usize) -> (lines: Vec<String>)
    ensures
        line_views(lines@) == wrapped_lines(text@, width as nat),
        lines@.len() >= 1,
{
    let options = textwrap::Options::new(width)
        .wrap_algorithm(textwrap::WrapAlgorithm::FirstFit)
        .word_separator(textwrap::WordSeparator::AsciiSpace)
        .word_splitter(textwrap::WordSplitter::NoHyphenation)
        .break_words(false);
    textwrap::wrap(text, options).into_iter().map(|line| line.into_owned()).collect()
}

/// The lines of a bubble. Without wrapping the text is the one line, however
/// long. With wrapping a single line of fewer characters than the width stays
/// as it is, but for the spaces at its end; any other text has the lines of
/// `wrapped_lines`.
pub open spec fn bubble_lines(text: Seq<char>, max_width: nat, enabled: bool) -> Seq<Seq<char>> {
    if !enabled {
        seq![text]
    } else if fits_one_line(text, max_width) {
        seq![without_trailing_spaces(text)]
    } else {
        wrapped_lines(text, max_width)
    }
}

/// A single line of fewer characters than the width stays one line when it
/// is wrapped: the text itself where no space stands at its end.
pub proof fn lemma_short_line_stays_one_line(text: Seq<char>, max_width: nat)
    requires
        fits_one_line(text, max_width),
    ensures
        bubble_lines(text, max_width, true) == seq![without_trailing_spaces(text)],
        text.len() == 0 || text.last() != ' ' ==> bubble_lines(text, max_width, true) == seq![
            text,
        ],
        without_trailing_spaces(text).len() <= text.len(),
{
    lemma_without_trailing_spaces(text);
}

/// Dropping the spaces at the end gives a start of the text.
pub proof fn lemma_without_trailing_spaces(text: Seq<char>)
    ensures
        without_trailing_spaces(text).len() <= text.len(),
        without_trailing_spaces(text) == text.take(without_trailing_spaces(text).len() as int),
    decreases text.len(),
{
    if text.len() > 0 && text.last() == ' ' {
        lemma_without_trailing_spaces(text.drop_last());
        let kept = without_trailing_spaces(text);
        assert(text.drop_last().take(kept.len() as int) =~= text.take(kept.len() as int));
    } else {
        assert(text.take(text.len() as int) =~= text);
    }
}

/// Whether `chars` holds a line feed.
fn has_line_feed(chars: &Vec<char>) -> (found: bool)
    ensures
        found == chars@.contains('\n'),
{
    let mut i: usize = 0;
    while i < chars.len()
        invariant
            i <= chars.len(),
            forall|k: int| 0 <= k < i ==> chars@[k] != '\n',
        decreases chars.len() - i,
    {
        if chars[i] == '\n' {
            return true;
        }
        i += 1;
    }
    false
}

/// Splits `text` into the lines of a bubble, at least one.
pub fn wrap(text: &str, max_width: usize, enabled: bool) -> (lines: Vec<String>)
    ensures
        line_views(lines@) == bubble_lines(text@, max_width as nat, enabled),
        lines@.len() >= 1,
{
    if !enabled {
        let mut lines: Vec<String> = Vec::new();
        lines.push(text.to_owned());
        proof {
            assert(line_views(lines@) =~= seq![text@]);
        }
        return lines;
    }
    let chars = chars_of(text);
    if chars.len() < max_width && !has_line_feed(&chars) {
        let mut end = chars.len();
        proof {
            assert(chars@.subrange(0, end as int) =~= chars@);
        }
        while end > 0 && chars[end - 1] == ' '
            invariant
                end <= chars.len(),
                without_trailing_spaces(chars@.subrange(0, end as int))
                    == without_trailing_spaces(chars@),
            decreases end,
        {
            proof {
                let line = chars@.subrange(0, end as int);
                assert(line.last() == chars@[end - 1]);
                assert(line.drop_last() =~= chars@.subrange(0, end - 1));
            }
            end -= 1;
        }
        proof {
            let line = chars@.subrange(0, end as int);
            if end > 0 {
                assert(line.last() == chars@[end - 1]);
            }
        }
        let mut lines: Vec<String> = Vec::new();
        lines.push(string_of(&chars, 0, end));
        proof {
            assert(line_views(lines@) =~= seq![without_trailing_spaces(text@)]);
        }
        return lines;
    }
    first_fit(text, max_width)
}

} // verus!

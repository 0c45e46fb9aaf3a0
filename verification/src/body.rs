//! The body by itself and the body within its cowfile have the same tokens.

use vstd::prelude::*;
use crate::grammar::{
    body_end, body_span, body_tokens, comment_at, ends_run, lemma_body_end, lemma_body_start,
    lemma_body_step, lemma_lexeme, lemma_line_end, lemma_literals, lexeme_len, line_break_len,
    line_end, marker_len, matches_at, run_len, starts_line, template_body, template_tokens,
    terminator_at, token_at, tokenized, Mismatch,
};

verus! {

/// Whether `start` and `end` can be the bounds of a body in `s`: both start a
/// line, and the letter `E` stands at `end`.
pub open spec fn encloses(s: Seq<char>, start: int, end: int) -> bool {
    &&& 0 <= start <= end < s.len()
    &&& starts_line(s, start)
    &&& starts_line(s, end)
    &&& s[end] == 'E'
}

/// Line breaks are the same in the body by itself.
proof fn lemma_line_break_within(s: Seq<char>, start: int, end: int, k: int)
    requires
        encloses(s, start, end),
        0 <= k <= end - start,
    ensures
        line_break_len(s.subrange(start, end), k) == line_break_len(s, start + k),
{
}

/// Line starts are the same in the body by itself.
proof fn lemma_starts_line_within(s: Seq<char>, start: int, end: int, k: int)
    requires
        encloses(s, start, end),
        0 <= k <= end - start,
    ensures
        starts_line(s.subrange(start, end), k) == starts_line(s, start + k),
{
}

/// A literal that holds no `E` after its first character stands in the body
/// by itself exactly where it stands in the whole text.
proof fn lemma_matches_within(s: Seq<char>, start: int, end: int, k: int, literal: Seq<char>)
    requires
        encloses(s, start, end),
        0 <= k < end - start,
        literal.len() > 0,
        forall|p: int| 1 <= p < literal.len() ==> literal[p] != 'E',
    ensures
        matches_at(s.subrange(start, end), k, literal) == matches_at(s, start + k, literal),
{
    let b = s.subrange(start, end);
    let n = end - start;
    if k + literal.len() <= n {
        assert(b.subrange(k, k + literal.len()) =~= s.subrange(
            start + k,
            start + k + literal.len(),
        ));
    } else if matches_at(s, start + k, literal) {
        assert(s.subrange(start + k, start + k + literal.len())[n - k] == s[end]);
    }
}

/// The end of a line is the same in the body by itself.
proof fn lemma_line_end_within(s: Seq<char>, start: int, end: int, k: int)
    requires
        encloses(s, start, end),
        0 <= k < end - start,
    ensures
        line_end(s.subrange(start, end), k) + start == line_end(s, start + k),
        line_end(s, start + k) < end,
    decreases end - start - k,
{
    lemma_line_break_within(s, start, end, k);
    if line_break_len(s, start + k) == 0 {
        lemma_line_end_within(s, start, end, k + 1);
    }
}

/// Markers are the same in the body by itself.
proof fn lemma_marker_within(s: Seq<char>, start: int, end: int, k: int)
    requires
        encloses(s, start, end),
        0 <= k < end - start,
    ensures
        marker_len(s.subrange(start, end), k) == marker_len(s, start + k),
{
    lemma_literals();
    lemma_matches_within(s, start, end, k, "$thoughts"@);
    lemma_matches_within(s, start, end, k, "${thoughts}"@);
    lemma_matches_within(s, start, end, k, "$tongue"@);
    lemma_matches_within(s, start, end, k, "${tongue}"@);
    lemma_matches_within(s, start, end, k, "$eyes"@);
    lemma_matches_within(s, start, end, k, "$eye"@);
    lemma_matches_within(s, start, end, k, "${eyes}"@);
    lemma_matches_within(s, start, end, k, "${eye}"@);
}

/// The terminator line stands in the body by itself exactly where it stands
/// in the whole text.
proof fn lemma_terminator_within(s: Seq<char>, start: int, end: int, k: int)
    requires
        encloses(s, start, end),
        0 <= k < end - start,
    ensures
        terminator_at(s.subrange(start, end), k) == terminator_at(s, start + k),
{
    lemma_literals();
    lemma_matches_within(s, start, end, k, "EOC"@);
    lemma_starts_line_within(s, start, end, k);
    if matches_at(s.subrange(start, end), k, "EOC"@) {
        lemma_line_break_within(s, start, end, k + 3);
    }
}

/// A run of plain text is the same in the body by itself, where no
/// terminator line stands inside the body.
proof fn lemma_run_within(s: Seq<char>, start: int, end: int, k: int)
    requires
        encloses(s, start, end),
        terminator_at(s, end),
        0 <= k <= end - start,
    ensures
        run_len(s.subrange(start, end), k) == run_len(s, start + k),
    decreases end - start - k,
{
    if k < end - start {
        lemma_terminator_within(s, start, end, k);
        lemma_starts_line_within(s, start, end, k);
        if !ends_run(s, start + k) {
            lemma_run_within(s, start, end, k + 1);
        }
    }
}

/// A lexeme and its token are the same in the body by itself.
proof fn lemma_lexeme_within(s: Seq<char>, start: int, end: int, k: int)
    requires
        encloses(s, start, end),
        terminator_at(s, end),
        0 <= k < end - start,
        lexeme_len(s, start + k) <= end - start - k,
    ensures
        lexeme_len(s.subrange(start, end), k) == lexeme_len(s, start + k),
        token_at(s.subrange(start, end), k) == token_at(s, start + k),
{
    let b = s.subrange(start, end);
    let n = lexeme_len(s, start + k);
    lemma_literals();
    lemma_terminator_within(s, start, end, k);
    lemma_starts_line_within(s, start, end, k);
    lemma_marker_within(s, start, end, k);
    lemma_run_within(s, start, end, k);
    lemma_lexeme(s, start + k);
    if comment_at(s, start + k) && !terminator_at(s, start + k) {
        assert(k + 1 < end - start);
        lemma_line_end(b, k + 1);
        lemma_line_end(s, start + k + 1);
        lemma_line_end_within(s, start, end, k + 1);
        lemma_line_break_within(s, start, end, line_end(b, k + 1));
        assert(b.subrange(k + 1, line_end(b, k + 1)) =~= s.subrange(
            start + k + 1,
            line_end(s, start + k + 1),
        ));
    } else {
        assert(b.subrange(k, k + n) =~= s.subrange(start + k, start + k + n));
    }
}

/// From any lexeme of the body on, the tokens are the same in the body by
/// itself, and the body by itself goes up to its end.
proof fn lemma_tokens_within(s: Seq<char>, start: int, end: int, k: int)
    requires
        encloses(s, start, end),
        terminator_at(s, end),
        0 <= k <= end - start,
        body_end(s, start + k) == end,
    ensures
        body_tokens(s.subrange(start, end), k) == body_tokens(s, start + k),
        body_end(s.subrange(start, end), k) == end - start,
    decreases end - start - k,
{
    let b = s.subrange(start, end);
    lemma_body_step(s, start + k);
    lemma_body_step(b, k);
    lemma_lexeme(s, start + k);
    lemma_lexeme(b, k);
    if k < end - start {
        let n = lexeme_len(s, start + k);
        lemma_body_end(s, start + k + n);
        lemma_lexeme_within(s, start, end, k);
        lemma_tokens_within(s, start, end, k + n);
    }
}

/// The tokens of a cowfile are the tokens of its body by itself: reading the
/// body out first and tokenizing it then gives what parsing the whole gives.
pub proof fn lemma_body_alone_has_the_same_tokens(s: Seq<char>)
    ensures
        match body_span(s) {
            Ok((start, end)) => tokenized(s.subrange(start, end)) == template_tokens(s),
            Err(m) => template_body(s) == Err::<Seq<char>, Mismatch>(m),
        },
{
    lemma_literals();
    lemma_body_start(s);
    if let Ok((start, end)) = body_span(s) {
        lemma_body_end(s, start);
        assert(s.subrange(end, end + 3)[0] == s[end]);
        lemma_tokens_within(s, start, end, 0);
    }
}

} // verus!

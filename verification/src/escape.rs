//! Escape sequences, from the cowfile to the picture.

use vstd::prelude::*;
use crate::grammar::{
    body_end, body_tokens, comment_at, ends_run, escape_at, has_char, lemma_body_end,
    lemma_body_step, lemma_lexeme, lemma_literals, lemma_run, lexeme_len, marker_len, token_at,
    token_of,
};
use crate::options::OptionsView;
use crate::render::figure_from;
use crate::token::TokenView;

verus! {

/// `text` with each escape sequence, read from the left, replaced by its
/// second character.
pub open spec fn unescaped(text: Seq<char>) -> Seq<char>
    decreases text.len(),
{
    if text.len() == 0 {
        Seq::empty()
    } else if escape_at(text, 0) {
        seq![text[1]] + unescaped(text.skip(2))
    } else {
        seq![text[0]] + unescaped(text.skip(1))
    }
}

/// Characters before the first backslash stay as they are.
proof fn lemma_unescaped_plain(text: Seq<char>, n: int)
    requires
        0 <= n <= text.len(),
        forall|k: int| 0 <= k < n ==> text[k] != '\\',
    ensures
        unescaped(text) == text.take(n) + unescaped(text.skip(n)),
    decreases n,
{
    if n == 0 {
        assert(text.skip(0) =~= text);
        assert(text.take(0) + unescaped(text) =~= unescaped(text));
    } else {
        let rest = text.skip(1);
        assert forall|k: int| 0 <= k < n - 1 implies rest[k] != '\\' by {
            assert(rest[k] == text[k + 1]);
        }
        lemma_unescaped_plain(rest, n - 1);
        assert(rest.skip(n - 1) =~= text.skip(n));
        assert(seq![text[0]] + rest.take(n - 1) =~= text.take(n));
        assert(unescaped(text) =~= text.take(n) + unescaped(text.skip(n)));
    }
}

/// A body whose tokens are all text is drawn as it stands, but for its escape
/// sequences: of each of them only the second character is drawn.
pub proof fn lemma_plain_body_is_drawn_unescaped(
    s: Seq<char>,
    start: int,
    left: bool,
    options: OptionsView,
)
    requires
        0 <= start <= s.len(),
        forall|k: int|
            0 <= k < body_tokens(s, start).len() ==> #[trigger] body_tokens(s, start)[k] is Text,
    ensures
        figure_from(body_tokens(s, start), left, options) == unescaped(
            s.subrange(start, body_end(s, start)),
        ),
    decreases s.len() - start,
{
    lemma_literals();
    lemma_lexeme(s, start);
    lemma_body_end(s, start);
    lemma_body_step(s, start);
    lemma_run(s, start);
    let n = lexeme_len(s, start);
    let end = body_end(s, start);
    let body = s.subrange(start, end);
    let tokens = body_tokens(s, start);
    if 0 < n {
        lemma_body_end(s, start + n);
        let lexeme = s.subrange(start, start + n);
        let rest = body_tokens(s, start + n);
        assert(tokens[0] == token_at(s, start));
        assert(tokens.drop_first() =~= rest);
        assert forall|k: int| 0 <= k < rest.len() implies #[trigger] rest[k] is Text by {
            assert(rest[k] == tokens[k + 1]);
        }
        lemma_plain_body_is_drawn_unescaped(s, start + n, left, options);
        assert(body.skip(n) =~= s.subrange(start + n, end));
        assert(body.take(n) =~= lexeme);
        assert(forall|k: int| 0 <= k < n ==> body[k] == s[start + k]);
        assert(!comment_at(s, start));
        assert(marker_len(s, start) == 0);
        if escape_at(s, start) {
            assert(escape_at(body, 0));
            assert(lexeme =~= seq![s[start], s[start + 1]]);
            assert(lexeme.drop_first() =~= seq![body[1]]);
            assert(token_of(lexeme) == TokenView::Text(seq![body[1]]));
        } else if has_char(s, start, '\\') {
            assert(!escape_at(body, 0));
            assert(lexeme =~= seq![body[0]]);
            assert(body.skip(1) =~= s.subrange(start + 1, end));
        } else {
            assert forall|k: int| 0 <= k < n implies body[k] != '\\' by {
                if !has_char(s, start, '$') {
                    assert(!ends_run(s, start + k));
                }
            }
            lemma_unescaped_plain(body, n);
            assert(lexeme[0] == s[start]);
            assert(token_of(lexeme) == TokenView::Text(lexeme));
        }
    } else {
        assert(body =~= Seq::<char>::empty());
    }
}

/// In a body that holds no marker and no comment line every token is text.
pub proof fn lemma_body_without_markers_is_text(s: Seq<char>, start: int)
    requires
        0 <= start <= s.len(),
        forall|i: int|
            start <= i < body_end(s, start) ==> marker_len(s, i) == 0 && !comment_at(s, i),
    ensures
        forall|k: int|
            0 <= k < body_tokens(s, start).len() ==> #[trigger] body_tokens(s, start)[k] is Text,
    decreases s.len() - start,
{
    lemma_literals();
    lemma_lexeme(s, start);
    lemma_body_end(s, start);
    lemma_body_step(s, start);
    let n = lexeme_len(s, start);
    if 0 < n {
        lemma_body_end(s, start + n);
        lemma_body_without_markers_is_text(s, start + n);
        let tokens = body_tokens(s, start);
        let rest = body_tokens(s, start + n);
        assert forall|k: int| 0 <= k < tokens.len() implies #[trigger] tokens[k] is Text by {
            if k > 0 {
                assert(tokens[k] == rest[k - 1]);
            } else {
                assert(tokens[0] == token_at(s, start));
                assert(marker_len(s, start) == 0 && !comment_at(s, start));
            }
        }
    }
}

/// A body in whose text no marker stands anywhere and no line starts with
/// `#` is drawn as it stands, but for its escape sequences: of each of them
/// only the second character is drawn.
pub proof fn lemma_body_without_markers_is_drawn_unescaped(
    s: Seq<char>,
    start: int,
    left: bool,
    options: OptionsView,
)
    requires
        0 <= start <= s.len(),
        forall|i: int|
            start <= i < body_end(s, start) ==> marker_len(s, i) == 0 && !comment_at(s, i),
    ensures
        figure_from(body_tokens(s, start), left, options) == unescaped(
            s.subrange(start, body_end(s, start)),
        ),
{
    lemma_body_without_markers_is_text(s, start);
    lemma_plain_body_is_drawn_unescaped(s, start, left, options);
}

} // verus!

//! Parsing a cowfile into the tokens of its body.

use vstd::prelude::*;
use crate::grammar::{
    body_end, body_span, body_start, body_tokens, lemma_body_step, lemma_lexeme, lemma_literals,
    lexeme_len, line_break_len, literal_mismatch, marker_len, matches_at, mismatch, optional_char,
    run_len, starts_line, template_body, template_tokens, terminator_at, token_at, token_of,
    tokenized, Expected, Mismatch,
};
use crate::scan::{
    after_ignored_lines, after_whitespace, char_is, end_of_line, line_break, match_prefix,
    starts_with,
};
use crate::text::{chars_of, string_of};
use crate::token::{token_views, Token, TokenView};

verus! {

/// Why a template is no cowfile: the offset, counted in characters, at which
/// it stops matching the grammar, what was wanted there, and the character
/// that stands there (`None` at the end of the template).
#[derive(Debug, Clone, Copy, PartialEq, Eq)]
pub struct ParseError {
    pub offset: usize,
    pub expected: Expected,
    pub found: Option<char>,
}

impl View for ParseError {
    type V = Mismatch;

    open spec fn view(&self) -> Mismatch {
        Mismatch { offset: self.offset as int, expected: self.expected, found: self.found }
    }
}

/// The error for a mismatch at `offset`.
fn error_at(chars: &Vec<char>, offset: usize, expected: Expected) -> (error: ParseError)
    ensures
        error@ == mismatch(chars@, offset as int, expected),
{
    let found = if offset < chars.len() {
        Some(chars[offset])
    } else {
        None
    };
    ParseError { offset, expected, found }
}

/// Checks that `literal` stands at `i`; the error lies at the first character
/// that differs.
fn expect_literal(chars: &Vec<char>, i: usize, literal: &str, expected: Expected) -> (result:
    Result<(), ParseError>)
    requires
        i <= chars.len(),
    ensures
        result is Ok <==> matches_at(chars@, i as int, literal@),
        result matches Err(error) ==> error@ == literal_mismatch(
            chars@,
            i as int,
            literal@,
            expected,
        ),
{
    let n = match_prefix(chars, i, literal);
    if n == literal.unicode_len() {
        Ok(())
    } else {
        Err(error_at(chars, i + n, expected))
    }
}

/// 1 if `c` stands at `i`, else 0.
fn optional(chars: &Vec<char>, i: usize, c: char) -> (n: usize)
    requires
        i <= chars.len(),
    ensures
        n == optional_char(chars@, i as int, c),
        i + n <= chars.len(),
{
    if char_is(chars, i, c) {
        1
    } else {
        0
    }
}

/// Reads the ignored lines and the prelude: the offset at which the body
/// starts, or the first mismatch.
pub(crate) fn read_prelude(chars: &Vec<char>) -> (result: Result<usize, ParseError>)
    ensures
        match result {
            Ok(start) => body_start(chars@) == Ok::<int, Mismatch>(start as int) && start
                <= chars.len(),
            Err(error) => body_start(chars@) == Err::<int, Mismatch>(error@),
        },
{
    proof {
        lemma_literals();
    }
    let declaration = after_whitespace(chars, after_ignored_lines(chars, 0));
    match expect_literal(chars, declaration, "$the_cow", Expected::Declaration) {
        Err(error) => {
            return Err(error);
        },
        Ok(_) => {},
    }
    let after = after_whitespace(chars, declaration + 8);
    let opener = if char_is(chars, after, '=') {
        after_whitespace(chars, after + 1)
    } else {
        after
    };
    match expect_literal(chars, opener, "<<", Expected::HeredocOpener) {
        Err(error) => {
            return Err(error);
        },
        Ok(_) => {},
    }
    let quote = after_whitespace(chars, opener + 2);
    let keyword = quote + optional(chars, quote, '"');
    match expect_literal(chars, keyword, "EOC", Expected::Terminator) {
        Err(error) => {
            return Err(error);
        },
        Ok(_) => {},
    }
    let closing = keyword + 3;
    let blank = closing + optional(chars, closing, '"');
    let semicolon = blank + if char_is(chars, blank, ' ') || char_is(chars, blank, '\t') {
        1
    } else {
        0
    };
    let end = semicolon + optional(chars, semicolon, ';');
    let n = line_break(chars, end);
    if n == 0 {
        Err(error_at(chars, end, Expected::LineBreak))
    } else {
        Ok(end + n)
    }
}

/// The length of the marker at `i` with its token, or `None` where no marker
/// stands.
fn marker_at(chars: &Vec<char>, i: usize) -> (found: Option<(Token, usize)>)
    requires
        i <= chars.len(),
    ensures
        match found {
            Some((token, n)) => n == marker_len(chars@, i as int) && 0 < n && i + n
                <= chars.len() && token@ == token_of(chars@.subrange(i as int, i + n)),
            None => marker_len(chars@, i as int) == 0,
        },
{
    proof {
        lemma_literals();
    }
    if starts_with(chars, i, "$thoughts") {
        Some((Token::Thoughts, 9))
    } else if starts_with(chars, i, "${thoughts}") {
        Some((Token::Thoughts, 11))
    } else if starts_with(chars, i, "$tongue") {
        Some((Token::Tongue, 7))
    } else if starts_with(chars, i, "${tongue}") {
        Some((Token::Tongue, 9))
    } else if starts_with(chars, i, "$eyes") {
        Some((Token::Eye(2), 5))
    } else if starts_with(chars, i, "$eye") {
        Some((Token::Eye(1), 4))
    } else if starts_with(chars, i, "${eyes}") {
        Some((Token::Eye(2), 7))
    } else if starts_with(chars, i, "${eye}") {
        Some((Token::Eye(1), 6))
    } else {
        None
    }
}

/// Whether a line starts at `i`.
fn line_starts(chars: &Vec<char>, i: usize) -> (starts: bool)
    requires
        i <= chars.len(),
    ensures
        starts == starts_line(chars@, i as int),
{
    if i == 0 {
        true
    } else {
        let c = chars[i - 1];
        c == '\n' || c == '\r' || c == '\u{B}' || c == '\u{C}' || c == '\u{85}' || c == '\u{2028}'
            || c == '\u{2029}'
    }
}

/// Whether the terminator line stands at `i`.
fn terminator(chars: &Vec<char>, i: usize) -> (found: bool)
    requires
        i <= chars.len(),
    ensures
        found == terminator_at(chars@, i as int),
        found ==> i + 3 + line_break_len(chars@, i + 3) <= chars.len(),
{
    proof {
        lemma_literals();
    }
    char_is(chars, i, 'E') && line_starts(chars, i) && starts_with(chars, i, "EOC") && line_break(
        chars,
        i + 3,
    ) > 0
}

/// The length of the longest run of plain text from `i` on.
fn run(chars: &Vec<char>, i: usize) -> (n: usize)
    requires
        i <= chars.len(),
    ensures
        n == run_len(chars@, i as int),
        i + n <= chars.len(),
{
    let mut end: usize = i;
    loop
        invariant
            i <= end <= chars.len(),
            run_len(chars@, i as int) == end - i + run_len(chars@, end as int),
        ensures
            i <= end <= chars.len(),
            run_len(chars@, i as int) == end - i,
        decreases chars.len() - end,
    {
        if end >= chars.len() {
            break ;
        }
        let c = chars[end];
        if c == '$' || c == '\\' {
            break ;
        }
        if c == '#' && line_starts(chars, end) {
            break ;
        }
        if terminator(chars, end) {
            break ;
        }
        proof {
            lemma_literals();
            if matches_at(chars@, end as int, "EOC"@) {
                assert(chars@.subrange(end as int, end + 3)[0] == chars@[end as int]);
            }
        }
        end += 1;
    }
    end - i
}

/// The lexeme at `i`: its token and its length, or `None` where the body ends.
fn lexeme_at(chars: &Vec<char>, i: usize) -> (found: Option<(Token, usize)>)
    requires
        i <= chars.len(),
    ensures
        match found {
            Some((token, n)) => n == lexeme_len(chars@, i as int) && 0 < n && i + n
                <= chars.len() && token@ == token_at(chars@, i as int),
            None => lexeme_len(chars@, i as int) == 0,
        },
{
    proof {
        lemma_literals();
        lemma_lexeme(chars@, i as int);
    }
    if i >= chars.len() || terminator(chars, i) {
        return None;
    }
    if chars[i] == '#' && line_starts(chars, i) {
        let end = end_of_line(chars, i + 1);
        let n = line_break(chars, end);
        return Some((Token::Comment(string_of(chars, i + 1, end)), end + n - i));
    }
    let marker = marker_at(chars, i);
    if marker.is_some() {
        return marker;
    }
    if char_is(chars, i, '\\') {
        if char_is(chars, i + 1, '\\') || char_is(chars, i + 1, '@') || char_is(
            chars,
            i + 1,
            '$',
        ) {
            proof {
                let lexeme = chars@.subrange(i as int, i + 2);
                assert(lexeme =~= seq![chars@[i as int], chars@[i + 1]]);
                assert(lexeme.drop_first() =~= chars@.subrange(i + 1, i + 2));
            }
            Some((Token::Text(string_of(chars, i + 1, i + 2)), 2))
        } else {
            proof {
                assert(chars@.subrange(i as int, i + 1).len() == 1);
            }
            Some((Token::Text(string_of(chars, i, i + 1)), 1))
        }
    } else if char_is(chars, i, '$') {
        proof {
            assert(chars@.subrange(i as int, i + 1).len() == 1);
        }
        Some((Token::Text(string_of(chars, i, i + 1)), 1))
    } else {
        let n = run(chars, i);
        proof {
            let lexeme = chars@.subrange(i as int, i + n);
            assert(lexeme[0] == chars@[i as int]);
        }
        Some((Token::Text(string_of(chars, i, i + n)), n))
    }
}

/// Reads the body that starts at `start`: its tokens and the offset at which
/// it ends.
pub(crate) fn read_body(chars: &Vec<char>, start: usize) -> (body: (Vec<Token>, usize))
    requires
        start <= chars.len(),
    ensures
        token_views(body.0@) == body_tokens(chars@, start as int),
        body.1 == body_end(chars@, start as int),
        start <= body.1 <= chars.len(),
{
    let mut tokens: Vec<Token> = Vec::new();
    let mut end: usize = start;
    proof {
        assert(token_views(tokens@) + body_tokens(chars@, end as int) =~= body_tokens(
            chars@,
            start as int,
        ));
    }
    loop
        invariant
            start <= end <= chars.len(),
            token_views(tokens@) + body_tokens(chars@, end as int) == body_tokens(
                chars@,
                start as int,
            ),
            body_end(chars@, end as int) == body_end(chars@, start as int),
        ensures
            start <= end <= chars.len(),
            token_views(tokens@) == body_tokens(chars@, start as int),
            end == body_end(chars@, start as int),
        decreases chars.len() - end,
    {
        proof {
            lemma_body_step(chars@, end as int);
        }
        match lexeme_at(chars, end) {
            None => {
                proof {
                    assert(token_views(tokens@) + Seq::<TokenView>::empty() =~= token_views(
                        tokens@,
                    ));
                }
                break ;
            },
            Some((token, n)) => {
                proof {
                    assert(token_views(tokens@.push(token)) =~= token_views(tokens@) + seq![
                        token@,
                    ]);
                    assert((token_views(tokens@) + seq![token@]) + body_tokens(chars@, end + n)
                        =~= token_views(tokens@) + (seq![token@] + body_tokens(
                        chars@,
                        end + n,
                    )));
                }
                tokens.push(token);
                end += n;
            },
        }
    }
    (tokens, end)
}

/// Reads a whole template: the tokens of its body and the offsets at which
/// the body starts and ends, or the first mismatch.
fn read_template(chars: &Vec<char>) -> (result: Result<(Vec<Token>, usize, usize), ParseError>)
    ensures
        match result {
            Ok((tokens, start, end)) => {
                &&& body_span(chars@) == Ok::<(int, int), Mismatch>((start as int, end as int))
                &&& token_views(tokens@) == body_tokens(chars@, start as int)
                &&& start <= end <= chars.len()
            },
            Err(error) => body_span(chars@) == Err::<(int, int), Mismatch>(error@),
        },
{
    let start = match read_prelude(chars) {
        Err(error) => {
            return Err(error);
        },
        Ok(start) => start,
    };
    let (tokens, end) = read_body(chars, start);
    if !terminator(chars, end) {
        return Err(error_at(chars, end, Expected::Terminator));
    }
    let rest = after_ignored_lines(chars, end + 3 + line_break(chars, end + 3));
    if rest < chars.len() {
        Err(error_at(chars, rest, Expected::EndOfInput))
    } else {
        Ok((tokens, start, end))
    }
}

/// Tokenizes a body that stands by itself, up to its end.
///
/// Every body has its tokens but one that holds a terminator line, a line
/// of `EOC` and nothing else: the error lies at that line.
pub fn tokenize(body: &str) -> (result: Result<Vec<Token>, ParseError>)
    ensures
        match result {
            Ok(tokens) => tokenized(body@) == Ok::<Seq<TokenView>, Mismatch>(
                token_views(tokens@),
            ),
            Err(error) => tokenized(body@) == Err::<Seq<TokenView>, Mismatch>(error@),
        },
{
    let chars = chars_of(body);
    let (tokens, end) = read_body(&chars, 0);
    if end < chars.len() {
        Err(error_at(&chars, end, Expected::EndOfInput))
    } else {
        Ok(tokens)
    }
}

/// Parses a cowfile: the tokens of its body, or where and why it is none.
///
/// The template must be ignored lines (blank lines and `#` comments), the
/// prelude that opens the here-document, the body, the terminator line, and
/// ignored lines up to the end. The body ends at the first line that holds the
/// keyword `EOC` and nothing else.
pub fn parse(template: &str) -> (result: Result<Vec<Token>, ParseError>)
    ensures
        match result {
            Ok(tokens) => template_tokens(template@) == Ok::<Seq<TokenView>, Mismatch>(
                token_views(tokens@),
            ),
            Err(error) => template_tokens(template@) == Err::<Seq<TokenView>, Mismatch>(error@),
        },
{
    let chars = chars_of(template);
    match read_template(&chars) {
        Ok((tokens, _, _)) => Ok(tokens),
        Err(error) => Err(error),
    }
}

/// Takes the body out of a cowfile as it stands, between the prelude and the
/// terminator; or says where and why the template is no cowfile, as `parse`
/// does.
pub fn extract_body(template: &str) -> (result: Result<String, ParseError>)
    ensures
        match result {
            Ok(body) => template_body(template@) == Ok::<Seq<char>, Mismatch>(body@),
            Err(error) => template_body(template@) == Err::<Seq<char>, Mismatch>(error@),
        },
{
    let chars = chars_of(template);
    match read_template(&chars) {
        Ok((_, start, end)) => Ok(string_of(&chars, start, end)),
        Err(error) => Err(error),
    }
}

} // verus!

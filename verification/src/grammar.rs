//! The cowfile grammar, stated over sequences of characters.
//!
//! A cowfile is
//!
//! ```text
//! ignored-line*  prelude  lexeme*  terminator-line  ignored-line*  end
//! ```
//!
//! where an ignored line is a line break or a `#` comment that runs up to and
//! including its line break, the prelude is
//!
//! ```text
//! ws* "$the_cow" ws* ( "=" ws* )? "<<" ws* '"'? "EOC" '"'? (" " | "\t")? ";"? line-break
//! ```
//!
//! and the terminator line is `EOC` at the start of a line with a line break
//! directly after it. The body is what the lexemes cover: comment lines
//! (`#` at the start of a line), markers, escape sequences, sigils by
//! themselves and runs of plain text.
//!
//! Every choice is ordered and greedy: the first alternative that matches is
//! taken, and nothing is tried again after it.

use vstd::prelude::*;
use crate::token::TokenView;

verus! {

/// What the grammar wants at the offset where a template stops matching it.
#[derive(Debug, Clone, Copy, PartialEq, Eq, Structural)]
pub enum Expected {
    /// The declaration `$the_cow`.
    Declaration,
    /// The here-document opener `<<`.
    HeredocOpener,
    /// The terminator keyword `EOC`.
    Terminator,
    /// A line break.
    LineBreak,
    /// The end of the template.
    EndOfInput,
}

/// Where a template stops matching the grammar, counted in characters, with
/// what was wanted there and the character that stands there (`None` at the
/// end of the template).
pub struct Mismatch {
    pub offset: int,
    pub expected: Expected,
    pub found: Option<char>,
}

/// The character at `i`, if there is one.
pub open spec fn char_at(s: Seq<char>, i: int) -> Option<char> {
    if 0 <= i < s.len() {
        Some(s[i])
    } else {
        None
    }
}

/// The mismatch at `offset` of `s`.
pub open spec fn mismatch(s: Seq<char>, offset: int, expected: Expected) -> Mismatch {
    Mismatch { offset, expected, found: char_at(s, offset) }
}

/// Whether `c` stands at `i`.
pub open spec fn has_char(s: Seq<char>, i: int, c: char) -> bool {
    char_at(s, i) == Some(c)
}

/// Whether `literal` stands at `i`.
pub open spec fn matches_at(s: Seq<char>, i: int, literal: Seq<char>) -> bool {
    0 <= i && i + literal.len() <= s.len() && s.subrange(i, i + literal.len()) == literal
}

/// How many leading characters of `literal` stand at `i`.
pub open spec fn matched_prefix(s: Seq<char>, i: int, literal: Seq<char>) -> int
    decreases literal.len(),
{
    if literal.len() > 0 && has_char(s, i, literal[0]) {
        1 + matched_prefix(s, i + 1, literal.drop_first())
    } else {
        0
    }
}

/// The mismatch that a missing `literal` at `i` gives: it lies at the first
/// character that differs.
pub open spec fn literal_mismatch(
    s: Seq<char>,
    i: int,
    literal: Seq<char>,
    expected: Expected,
) -> Mismatch {
    mismatch(s, i + matched_prefix(s, i, literal), expected)
}

/// The characters with the Unicode property `White_Space`.
pub open spec fn is_whitespace(c: char) -> bool {
    ||| '\u{9}' <= c <= '\u{D}'
    ||| c == ' '
    ||| c == '\u{85}'
    ||| c == '\u{A0}'
    ||| c == '\u{1680}'
    ||| '\u{2000}' <= c <= '\u{200A}'
    ||| c == '\u{2028}'
    ||| c == '\u{2029}'
    ||| c == '\u{202F}'
    ||| c == '\u{205F}'
    ||| c == '\u{3000}'
}

/// The characters that are a line break by themselves.
pub open spec fn is_line_break(c: char) -> bool {
    ||| c == '\n'
    ||| c == '\r'
    ||| c == '\u{B}'
    ||| c == '\u{C}'
    ||| c == '\u{85}'
    ||| c == '\u{2028}'
    ||| c == '\u{2029}'
}

/// The length of the line break at `i`: 2 for a carriage return with a line
/// feed, 1 for a single line-break character, 0 where there is none.
pub open spec fn line_break_len(s: Seq<char>, i: int) -> int {
    if has_char(s, i, '\r') && has_char(s, i + 1, '\n') {
        2
    } else if 0 <= i < s.len() && is_line_break(s[i]) {
        1
    } else {
        0
    }
}

/// The first offset from `i` on that is no whitespace.
pub open spec fn skip_whitespace(s: Seq<char>, i: int) -> int
    decreases s.len() - i,
{
    if 0 <= i < s.len() && is_whitespace(s[i]) {
        skip_whitespace(s, i + 1)
    } else {
        i
    }
}

/// The first offset from `i` on at which a line break stands, or the length
/// of `s` if there is none.
pub open spec fn line_end(s: Seq<char>, i: int) -> int
    decreases s.len() - i,
{
    if 0 <= i < s.len() && line_break_len(s, i) == 0 {
        line_end(s, i + 1)
    } else {
        i
    }
}

/// The length of the ignored line at `i`, or 0 if there is none: a line break,
/// or `#` with all that follows up to and including the next line break. A
/// comment that the end of the template cuts short is no ignored line.
pub open spec fn ignored_line_len(s: Seq<char>, i: int) -> int {
    if line_break_len(s, i) > 0 {
        line_break_len(s, i)
    } else if has_char(s, i, '#') {
        let end = line_end(s, i + 1);
        if line_break_len(s, end) > 0 {
            end + line_break_len(s, end) - i
        } else {
            0
        }
    } else {
        0
    }
}

/// The first offset from `i` on at which no ignored line starts.
pub open spec fn skip_ignored_lines(s: Seq<char>, i: int) -> int
    decreases s.len() - i,
{
    let n = ignored_line_len(s, i);
    if 0 <= i && 0 < n && i + n <= s.len() {
        skip_ignored_lines(s, i + n)
    } else {
        i
    }
}

/// 1 if `c` stands at `i`, else 0.
pub open spec fn optional_char(s: Seq<char>, i: int, c: char) -> int {
    if has_char(s, i, c) {
        1
    } else {
        0
    }
}

/// The offset at which the body starts, after the ignored lines and the
/// prelude; or the first mismatch.
pub open spec fn body_start(s: Seq<char>) -> Result<int, Mismatch> {
    let declaration = skip_whitespace(s, skip_ignored_lines(s, 0));
    if !matches_at(s, declaration, "$the_cow"@) {
        Err(literal_mismatch(s, declaration, "$the_cow"@, Expected::Declaration))
    } else {
        let after = skip_whitespace(s, declaration + 8);
        let opener = if has_char(s, after, '=') {
            skip_whitespace(s, after + 1)
        } else {
            after
        };
        if !matches_at(s, opener, "<<"@) {
            Err(literal_mismatch(s, opener, "<<"@, Expected::HeredocOpener))
        } else {
            let quote = skip_whitespace(s, opener + 2);
            let keyword = quote + optional_char(s, quote, '"');
            if !matches_at(s, keyword, "EOC"@) {
                Err(literal_mismatch(s, keyword, "EOC"@, Expected::Terminator))
            } else {
                let closing = keyword + 3;
                let blank = closing + optional_char(s, closing, '"');
                let semicolon = blank + if has_char(s, blank, ' ') || has_char(s, blank, '\t') {
                    1int
                } else {
                    0int
                };
                let line_break = semicolon + optional_char(s, semicolon, ';');
                if line_break_len(s, line_break) == 0 {
                    Err(mismatch(s, line_break, Expected::LineBreak))
                } else {
                    Ok(line_break + line_break_len(s, line_break))
                }
            }
        }
    }
}

/// Whether a line starts at `i`: at the very start, and right after a line
/// break.
pub open spec fn starts_line(s: Seq<char>, i: int) -> bool {
    i == 0 || (0 < i <= s.len() && is_line_break(s[i - 1]))
}

/// Whether the terminator line stands at `i`: the keyword `EOC` at the start
/// of a line, with a line break directly after it.
pub open spec fn terminator_at(s: Seq<char>, i: int) -> bool {
    starts_line(s, i) && matches_at(s, i, "EOC"@) && line_break_len(s, i + 3) > 0
}

/// Whether a comment line stands at `i`: `#` at the start of a line.
pub open spec fn comment_at(s: Seq<char>, i: int) -> bool {
    starts_line(s, i) && has_char(s, i, '#')
}

/// The length of the comment line at `i`: the `#`, all up to the end of the
/// line, and the line break where there is one.
pub open spec fn comment_len(s: Seq<char>, i: int) -> int {
    let end = line_end(s, i + 1);
    end + line_break_len(s, end) - i
}

/// The length of the marker at `i`, or 0 if there is none. Both the bare and
/// the braced form are markers, and the plural of `eye` is tried before the
/// singular.
pub open spec fn marker_len(s: Seq<char>, i: int) -> int {
    if matches_at(s, i, "$thoughts"@) {
        9
    } else if matches_at(s, i, "${thoughts}"@) {
        11
    } else if matches_at(s, i, "$tongue"@) {
        7
    } else if matches_at(s, i, "${tongue}"@) {
        9
    } else if matches_at(s, i, "$eyes"@) {
        5
    } else if matches_at(s, i, "$eye"@) {
        4
    } else if matches_at(s, i, "${eyes}"@) {
        7
    } else if matches_at(s, i, "${eye}"@) {
        6
    } else {
        0
    }
}

/// Whether an escape sequence stands at `i`: a backslash before a backslash,
/// an at-sign or a dollar sign.
pub open spec fn escape_at(s: Seq<char>, i: int) -> bool {
    has_char(s, i, '\\') && (has_char(s, i + 1, '\\') || has_char(s, i + 1, '@') || has_char(
        s,
        i + 1,
        '$',
    ))
}

/// Whether a run of plain text cannot go on at `i`: at the end of the text,
/// at a sigil, and where the terminator line or a comment line starts.
pub open spec fn ends_run(s: Seq<char>, i: int) -> bool {
    ||| !(0 <= i < s.len())
    ||| s[i] == '$'
    ||| s[i] == '\\'
    ||| terminator_at(s, i)
    ||| comment_at(s, i)
}

/// The length of the longest run of plain text from `i` on.
pub open spec fn run_len(s: Seq<char>, i: int) -> int
    decreases s.len() - i,
{
    if !ends_run(s, i) {
        1 + run_len(s, i + 1)
    } else {
        0
    }
}

/// The length of the lexeme at `i`, or 0 where the body ends: at the
/// terminator line and at the end of the text. A comment line is one lexeme.
/// Within a line the alternatives in their order are: a marker; an escape
/// sequence; a sigil by itself; a run of plain text, as long as it can be.
pub open spec fn lexeme_len(s: Seq<char>, i: int) -> int {
    if terminator_at(s, i) {
        0
    } else if comment_at(s, i) {
        comment_len(s, i)
    } else if marker_len(s, i) > 0 {
        marker_len(s, i)
    } else if escape_at(s, i) {
        2
    } else if has_char(s, i, '\\') || has_char(s, i, '$') {
        1
    } else {
        run_len(s, i)
    }
}

/// The token that a lexeme within a line stands for.
pub open spec fn token_of(lexeme: Seq<char>) -> TokenView {
    if lexeme == "$thoughts"@ || lexeme == "${thoughts}"@ {
        TokenView::Thoughts
    } else if lexeme == "$tongue"@ || lexeme == "${tongue}"@ {
        TokenView::Tongue
    } else if lexeme == "$eyes"@ || lexeme == "${eyes}"@ {
        TokenView::Eye(2)
    } else if lexeme == "$eye"@ || lexeme == "${eye}"@ {
        TokenView::Eye(1)
    } else if lexeme == "\\\\"@ || lexeme == "\\@"@ || lexeme == "\\$"@ {
        TokenView::Text(lexeme.drop_first())
    } else {
        TokenView::Text(lexeme)
    }
}

/// The token of the lexeme at `i`. A comment line gives a comment that holds
/// the line without its `#` and without its line break.
pub open spec fn token_at(s: Seq<char>, i: int) -> TokenView {
    if comment_at(s, i) {
        TokenView::Comment(s.subrange(i + 1, line_end(s, i + 1)))
    } else {
        token_of(s.subrange(i, i + lexeme_len(s, i)))
    }
}

/// The lexemes from `i` on, up to where the body ends.
pub open spec fn lexemes(s: Seq<char>, i: int) -> Seq<Seq<char>>
    decreases s.len() - i,
{
    let n = lexeme_len(s, i);
    if 0 <= i && 0 < n && i + n <= s.len() {
        seq![s.subrange(i, i + n)] + lexemes(s, i + n)
    } else {
        Seq::empty()
    }
}

/// The offset at which the body that starts at `i` ends: the first at which
/// no lexeme starts.
pub open spec fn body_end(s: Seq<char>, i: int) -> int
    decreases s.len() - i,
{
    let n = lexeme_len(s, i);
    if 0 <= i && 0 < n && i + n <= s.len() {
        body_end(s, i + n)
    } else {
        i
    }
}

/// The tokens of the body that starts at `i`, one for each lexeme.
pub open spec fn body_tokens(s: Seq<char>, i: int) -> Seq<TokenView>
    decreases s.len() - i,
{
    let n = lexeme_len(s, i);
    if 0 <= i && 0 < n && i + n <= s.len() {
        seq![token_at(s, i)] + body_tokens(s, i + n)
    } else {
        Seq::empty()
    }
}

/// The tokens of a body that stands by itself, or the mismatch where it holds
/// a terminator line: a body goes up to its end.
pub open spec fn tokenized(body: Seq<char>) -> Result<Seq<TokenView>, Mismatch> {
    if body_end(body, 0) < body.len() {
        Err(mismatch(body, body_end(body, 0), Expected::EndOfInput))
    } else {
        Ok(body_tokens(body, 0))
    }
}

/// The offsets at which the body of a whole template starts and ends, or the
/// first mismatch: after the ignored lines and the prelude comes the body,
/// then the terminator line, then ignored lines up to the end.
pub open spec fn body_span(s: Seq<char>) -> Result<(int, int), Mismatch> {
    match body_start(s) {
        Err(m) => Err(m),
        Ok(start) => {
            let end = body_end(s, start);
            if !terminator_at(s, end) {
                Err(mismatch(s, end, Expected::Terminator))
            } else {
                let rest = skip_ignored_lines(s, end + 3 + line_break_len(s, end + 3));
                if rest < s.len() {
                    Err(mismatch(s, rest, Expected::EndOfInput))
                } else {
                    Ok((start, end))
                }
            }
        },
    }
}

/// The tokens of a whole template, or the first mismatch.
pub open spec fn template_tokens(s: Seq<char>) -> Result<Seq<TokenView>, Mismatch> {
    match body_span(s) {
        Err(m) => Err(m),
        Ok((start, _)) => Ok(body_tokens(s, start)),
    }
}

/// The body of a whole template as it stands, or the first mismatch.
pub open spec fn template_body(s: Seq<char>) -> Result<Seq<char>, Mismatch> {
    match body_span(s) {
        Err(m) => Err(m),
        Ok((start, end)) => Ok(s.subrange(start, end)),
    }
}

/// The literals of the grammar, character by character.
pub proof fn lemma_literals()
    ensures
        "$the_cow"@ == seq!['$', 't', 'h', 'e', '_', 'c', 'o', 'w'],
        "<<"@ == seq!['<', '<'],
        "EOC"@ == seq!['E', 'O', 'C'],
        "$thoughts"@ == seq!['$', 't', 'h', 'o', 'u', 'g', 'h', 't', 's'],
        "${thoughts}"@ == seq!['$', '{', 't', 'h', 'o', 'u', 'g', 'h', 't', 's', '}'],
        "$tongue"@ == seq!['$', 't', 'o', 'n', 'g', 'u', 'e'],
        "${tongue}"@ == seq!['$', '{', 't', 'o', 'n', 'g', 'u', 'e', '}'],
        "$eyes"@ == seq!['$', 'e', 'y', 'e', 's'],
        "$eye"@ == seq!['$', 'e', 'y', 'e'],
        "${eyes}"@ == seq!['$', '{', 'e', 'y', 'e', 's', '}'],
        "${eye}"@ == seq!['$', '{', 'e', 'y', 'e', '}'],
        "\\\\"@ == seq!['\\', '\\'],
        "\\@"@ == seq!['\\', '@'],
        "\\$"@ == seq!['\\', '$'],
{
    reveal_strlit("$the_cow");
    reveal_strlit("<<");
    reveal_strlit("EOC");
    reveal_strlit("$thoughts");
    reveal_strlit("${thoughts}");
    reveal_strlit("$tongue");
    reveal_strlit("${tongue}");
    reveal_strlit("$eyes");
    reveal_strlit("$eye");
    reveal_strlit("${eyes}");
    reveal_strlit("${eye}");
    reveal_strlit("\\\\");
    reveal_strlit("\\@");
    reveal_strlit("\\$");
    assert("$the_cow"@ =~= seq!['$', 't', 'h', 'e', '_', 'c', 'o', 'w']);
    assert("<<"@ =~= seq!['<', '<']);
    assert("EOC"@ =~= seq!['E', 'O', 'C']);
    assert("$thoughts"@ =~= seq!['$', 't', 'h', 'o', 'u', 'g', 'h', 't', 's']);
    assert("${thoughts}"@ =~= seq!['$', '{', 't', 'h', 'o', 'u', 'g', 'h', 't', 's', '}']);
    assert("$tongue"@ =~= seq!['$', 't', 'o', 'n', 'g', 'u', 'e']);
    assert("${tongue}"@ =~= seq!['$', '{', 't', 'o', 'n', 'g', 'u', 'e', '}']);
    assert("$eyes"@ =~= seq!['$', 'e', 'y', 'e', 's']);
    assert("$eye"@ =~= seq!['$', 'e', 'y', 'e']);
    assert("${eyes}"@ =~= seq!['$', '{', 'e', 'y', 'e', 's', '}']);
    assert("${eye}"@ =~= seq!['$', '{', 'e', 'y', 'e', '}']);
    assert("\\\\"@ =~= seq!['\\', '\\']);
    assert("\\@"@ =~= seq!['\\', '@']);
    assert("\\$"@ =~= seq!['\\', '$']);
}

/// A literal stands at an offset exactly when all of its characters match
/// there, and the matched prefix never runs past the template.
pub proof fn lemma_matched_prefix(s: Seq<char>, i: int, literal: Seq<char>)
    requires
        0 <= i <= s.len(),
    ensures
        0 <= matched_prefix(s, i, literal) <= literal.len(),
        i + matched_prefix(s, i, literal) <= s.len(),
        matched_prefix(s, i, literal) == literal.len() <==> matches_at(s, i, literal),
    decreases literal.len(),
{
    if literal.len() > 0 && has_char(s, i, literal[0]) {
        let rest = literal.drop_first();
        lemma_matched_prefix(s, i + 1, rest);
        if matches_at(s, i + 1, rest) {
            assert(s.subrange(i, i + literal.len()) =~= literal) by {
                assert forall|k: int| 0 <= k < literal.len() implies s.subrange(
                    i,
                    i + literal.len(),
                )[k] == literal[k] by {
                    if k > 0 {
                        assert(s.subrange(i + 1, i + 1 + rest.len())[k - 1] == rest[k - 1]);
                    }
                }
            }
        }
        if matches_at(s, i, literal) {
            assert(s.subrange(i + 1, i + 1 + rest.len()) =~= rest) by {
                assert forall|k: int| 0 <= k < rest.len() implies s.subrange(
                    i + 1,
                    i + 1 + rest.len(),
                )[k] == rest[k] by {
                    assert(s.subrange(i, i + literal.len())[k + 1] == literal[k + 1]);
                }
            }
        }
    } else if literal.len() > 0 {
        if matches_at(s, i, literal) {
            assert(s.subrange(i, i + literal.len())[0] == literal[0]);
        }
    } else {
        assert(s.subrange(i, i) =~= literal);
    }
}

/// Skipping whitespace moves forward and stays inside the template.
pub proof fn lemma_skip_whitespace(s: Seq<char>, i: int)
    requires
        0 <= i <= s.len(),
    ensures
        i <= skip_whitespace(s, i) <= s.len(),
    decreases s.len() - i,
{
    if i < s.len() && is_whitespace(s[i]) {
        lemma_skip_whitespace(s, i + 1);
    }
}

/// Skipping ignored lines moves forward and stays inside the template.
pub proof fn lemma_skip_ignored_lines(s: Seq<char>, i: int)
    requires
        0 <= i <= s.len(),
    ensures
        i <= skip_ignored_lines(s, i) <= s.len(),
    decreases s.len() - i,
{
    let n = ignored_line_len(s, i);
    if 0 < n && i + n <= s.len() {
        lemma_skip_ignored_lines(s, i + n);
    }
}

/// The body starts inside the template, at the start of a line.
pub proof fn lemma_body_start(s: Seq<char>)
    ensures
        body_start(s) matches Ok(start) ==> 0 < start <= s.len() && starts_line(s, start),
{
    lemma_literals();
    lemma_skip_ignored_lines(s, 0);
    let declaration = skip_whitespace(s, skip_ignored_lines(s, 0));
    lemma_skip_whitespace(s, skip_ignored_lines(s, 0));
    if matches_at(s, declaration, "$the_cow"@) {
        let after = skip_whitespace(s, declaration + 8);
        lemma_skip_whitespace(s, declaration + 8);
        if has_char(s, after, '=') {
            lemma_skip_whitespace(s, after + 1);
        }
        let opener = if has_char(s, after, '=') {
            skip_whitespace(s, after + 1)
        } else {
            after
        };
        if matches_at(s, opener, "<<"@) {
            lemma_skip_whitespace(s, opener + 2);
        }
    }
}

/// A mismatch in the prelude lies inside the template or at its end.
proof fn lemma_prelude_mismatch(s: Seq<char>)
    ensures
        body_start(s) matches Err(m) ==> 0 <= m.offset <= s.len() && m.found == char_at(
            s,
            m.offset,
        ),
{
    lemma_literals();
    lemma_skip_ignored_lines(s, 0);
    let declaration = skip_whitespace(s, skip_ignored_lines(s, 0));
    lemma_skip_whitespace(s, skip_ignored_lines(s, 0));
    lemma_matched_prefix(s, declaration, "$the_cow"@);
    if matches_at(s, declaration, "$the_cow"@) {
        let after = skip_whitespace(s, declaration + 8);
        lemma_skip_whitespace(s, declaration + 8);
        if has_char(s, after, '=') {
            lemma_skip_whitespace(s, after + 1);
        }
        let opener = if has_char(s, after, '=') {
            skip_whitespace(s, after + 1)
        } else {
            after
        };
        lemma_matched_prefix(s, opener, "<<"@);
        if matches_at(s, opener, "<<"@) {
            let quote = skip_whitespace(s, opener + 2);
            lemma_skip_whitespace(s, opener + 2);
            let keyword = quote + optional_char(s, quote, '"');
            lemma_matched_prefix(s, keyword, "EOC"@);
        }
    }
}

/// The end of a line lies inside the text, no line break stands before it,
/// and a line break or the end of the text stands at it.
pub proof fn lemma_line_end(s: Seq<char>, i: int)
    requires
        0 <= i <= s.len(),
    ensures
        i <= line_end(s, i) <= s.len(),
        forall|k: int| i <= k < line_end(s, i) ==> !is_line_break(#[trigger] s[k]),
        line_end(s, i) == s.len() || line_break_len(s, line_end(s, i)) > 0,
        line_end(s, i) + line_break_len(s, line_end(s, i)) <= s.len(),
    decreases s.len() - i,
{
    if i < s.len() && line_break_len(s, i) == 0 {
        lemma_line_end(s, i + 1);
    }
}

/// A run of plain text holds no sigil, no comment line and no terminator
/// line starts inside it, and right after it comes one of these or the end
/// of the text: no run can be made longer, and none is followed by another.
pub proof fn lemma_run(s: Seq<char>, i: int)
    requires
        0 <= i <= s.len(),
    ensures
        0 <= run_len(s, i) <= s.len() - i,
        forall|k: int| i <= k < i + run_len(s, i) ==> !#[trigger] ends_run(s, k),
        ends_run(s, i + run_len(s, i)),
    decreases s.len() - i,
{
    if !ends_run(s, i) {
        lemma_run(s, i + 1);
    }
}

/// Where plain text can go on everywhere from `i` on, the run from `i` goes
/// up to the end of the text.
pub proof fn lemma_run_to_the_end(s: Seq<char>, i: int)
    requires
        0 <= i <= s.len(),
        forall|k: int| i <= k < s.len() ==> !ends_run(s, k),
    ensures
        run_len(s, i) == s.len() - i,
    decreases s.len() - i,
{
    if i < s.len() {
        lemma_run_to_the_end(s, i + 1);
    }
}

/// A body that holds no sigil, no comment line and no terminator line is one
/// text token, however many lines and whatever letters it holds.
pub proof fn lemma_body_without_sigils_is_one_text(body: Seq<char>)
    requires
        body.len() > 0,
        forall|k: int| 0 <= k < body.len() ==> !ends_run(body, k),
    ensures
        tokenized(body) == Ok::<Seq<TokenView>, Mismatch>(seq![TokenView::Text(body)]),
{
    lemma_literals();
    lemma_run_to_the_end(body, 0);
    lemma_body_step(body, 0);
    lemma_body_step(body, body.len() as int);
    lemma_lexeme(body, body.len() as int);
    assert(!ends_run(body, 0));
    if marker_len(body, 0) > 0 {
        assert(body.subrange(0, marker_len(body, 0))[0] == body[0]);
    }
    assert(lexeme_len(body, 0) == body.len());
    assert(body.subrange(0, body.len() as int) =~= body);
    assert(token_at(body, 0) == TokenView::Text(body));
    assert(body_tokens(body, 0) =~= seq![TokenView::Text(body)]);
}

/// A lexeme lies inside the text, and there is one wherever the text goes on
/// and no terminator line stands.
pub proof fn lemma_lexeme(s: Seq<char>, i: int)
    requires
        0 <= i <= s.len(),
    ensures
        0 <= lexeme_len(s, i) <= s.len() - i,
        lexeme_len(s, i) == 0 <==> i == s.len() || terminator_at(s, i),
{
    lemma_literals();
    lemma_run(s, i);
    if i < s.len() {
        lemma_line_end(s, i + 1);
    }
}

/// The body ends inside the text: at the first terminator line, or at the end
/// of the text where there is none.
pub proof fn lemma_body_end(s: Seq<char>, start: int)
    requires
        0 <= start <= s.len(),
    ensures
        start <= body_end(s, start) <= s.len(),
        lexeme_len(s, body_end(s, start)) == 0,
        body_end(s, start) == s.len() || terminator_at(s, body_end(s, start)),
    decreases s.len() - start,
{
    lemma_lexeme(s, start);
    let n = lexeme_len(s, start);
    if 0 < n {
        lemma_body_end(s, start + n);
    }
}

/// The lexemes are what the body is made of: none is empty, and one after
/// the other they give the body back, from where it starts to where it ends.
pub proof fn lemma_lexemes_rebuild_body(s: Seq<char>, start: int)
    requires
        0 <= start <= s.len(),
    ensures
        forall|k: int|
            0 <= k < lexemes(s, start).len() ==> (#[trigger] lexemes(s, start)[k]).len() > 0,
        lexemes(s, start).flatten() == s.subrange(start, body_end(s, start)),
    decreases s.len() - start,
{
    lemma_lexeme(s, start);
    lemma_body_end(s, start);
    let n = lexeme_len(s, start);
    let all = lexemes(s, start);
    if 0 < n {
        let rest = lexemes(s, start + n);
        lemma_lexemes_rebuild_body(s, start + n);
        lemma_body_end(s, start + n);
        assert(all.first() == s.subrange(start, start + n));
        assert(all.drop_first() =~= rest);
        assert(all.flatten() =~= s.subrange(start, start + n) + rest.flatten());
        assert(s.subrange(start, start + n) + s.subrange(start + n, body_end(s, start))
            =~= s.subrange(start, body_end(s, start)));
    } else {
        assert(all.flatten() =~= s.subrange(start, start));
    }
}

/// No terminator line stands inside the body: the body ends at the first
/// line that holds the keyword `EOC` and nothing else. The keyword in the
/// middle of a line, or with more after it on its line, is text.
pub proof fn lemma_no_terminator_in_body(s: Seq<char>, start: int, i: int)
    requires
        0 <= start <= i < body_end(s, start),
        start <= s.len(),
    ensures
        !terminator_at(s, i),
    decreases s.len() - start,
{
    lemma_literals();
    lemma_lexeme(s, start);
    lemma_run(s, start);
    let n = lexeme_len(s, start);
    if terminator_at(s, i) {
        assert(s.subrange(i, i + 3)[0] == s[i]);
        if i == start {
        } else if i < start + n {
            if comment_at(s, start) {
                lemma_line_end(s, start + 1);
                let end = line_end(s, start + 1);
                if i <= end {
                    assert(!is_line_break(s[i - 1]));
                }
            } else if marker_len(s, start) > 0 {
                assert(s.subrange(start, start + n)[i - start] == s[i]);
            } else if escape_at(s, start) {
            } else if has_char(s, start, '\\') || has_char(s, start, '$') {
            } else {
                assert(!ends_run(s, i));
            }
        } else {
            lemma_no_terminator_in_body(s, start + n, i);
        }
    }
}

/// A template that parses holds the terminator line right where its body
/// ends.
pub proof fn lemma_parsed_template_is_terminated(s: Seq<char>)
    requires
        body_span(s) is Ok,
    ensures
        body_span(s) matches Ok((start, end)) && 0 <= start <= end <= s.len() && end
            == body_end(s, start) && terminator_at(s, end),
{
    lemma_body_start(s);
    let start = body_start(s)->Ok_0;
    lemma_body_end(s, start);
}

/// The offset of a mismatch lies inside the template or at its end, and what
/// was found is the character at that offset.
pub proof fn lemma_mismatch_lies_in_template(s: Seq<char>)
    ensures
        body_span(s) matches Err(m) ==> 0 <= m.offset <= s.len() && m.found == char_at(
            s,
            m.offset,
        ),
{
    lemma_literals();
    lemma_prelude_mismatch(s);
    lemma_body_start(s);
    if let Ok(start) = body_start(s) {
        lemma_body_end(s, start);
        let end = body_end(s, start);
        if terminator_at(s, end) {
            lemma_skip_ignored_lines(s, end + 3 + line_break_len(s, end + 3));
        }
    }
}

/// A template does not parse where no terminator line stands from the start
/// of its body on.
pub proof fn lemma_unterminated_template_fails(s: Seq<char>)
    requires
        body_start(s) matches Ok(start) ==> forall|i: int| start <= i ==> !terminator_at(s, i),
    ensures
        body_span(s) is Err,
        template_tokens(s) is Err,
        template_body(s) is Err,
{
    if body_span(s) is Ok {
        lemma_parsed_template_is_terminated(s);
    }
}

/// The body from `i` on is its first lexeme with the body after that lexeme.
pub proof fn lemma_body_step(s: Seq<char>, i: int)
    requires
        0 <= i <= s.len(),
    ensures
        ({
            let n = lexeme_len(s, i);
            if 0 < n && i + n <= s.len() {
                &&& body_tokens(s, i) == seq![token_at(s, i)] + body_tokens(s, i + n)
                &&& lexemes(s, i) == seq![s.subrange(i, i + n)] + lexemes(s, i + n)
                &&& body_end(s, i) == body_end(s, i + n)
            } else {
                &&& body_tokens(s, i) == Seq::<TokenView>::empty()
                &&& lexemes(s, i) == Seq::<Seq<char>>::empty()
                &&& body_end(s, i) == i
            }
        }),
{
}

/// The tokens and the body of a template agree: both are there or the same
/// mismatch stands for both, and the lexemes that the tokens stand for give
/// the body back.
pub proof fn lemma_tokens_cover_body(s: Seq<char>)
    ensures
        match body_span(s) {
            Ok((start, end)) => {
                &&& template_tokens(s) == Ok::<Seq<TokenView>, Mismatch>(body_tokens(s, start))
                &&& template_body(s) == Ok::<Seq<char>, Mismatch>(lexemes(s, start).flatten())
            },
            Err(m) => {
                &&& template_tokens(s) == Err::<Seq<TokenView>, Mismatch>(m)
                &&& template_body(s) == Err::<Seq<char>, Mismatch>(m)
            },
        },
{
    if body_span(s) is Ok {
        lemma_parsed_template_is_terminated(s);
        lemma_lexemes_rebuild_body(s, body_span(s)->Ok_0.0);
    }
}

/// A lexeme within a line never stands for a comment, and the eyes it can
/// stand for are one or two.
pub proof fn lemma_token_of(lexeme: Seq<char>)
    ensures
        !(token_of(lexeme) is Comment),
        token_of(lexeme) matches TokenView::Eye(count) ==> count == 1 || count == 2,
{
}

/// A comment token holds no line break, and what it holds is what stands
/// after the `#` on its line.
pub proof fn lemma_comment(s: Seq<char>, i: int)
    requires
        0 <= i < s.len(),
        comment_at(s, i),
        !terminator_at(s, i),
    ensures
        token_at(s, i) matches TokenView::Comment(text) && text.len() + 1 <= lexeme_len(s, i)
            <= text.len() + 3 && text == s.subrange(i + 1, i + 1 + text.len()) && forall|k: int|
            0 <= k < text.len() ==> !is_line_break(#[trigger] text[k]),
{
    lemma_line_end(s, i + 1);
}

/// The tokens of a body stand one for one for its lexemes, and the eyes
/// among them are one or two.
pub proof fn lemma_body_tokens(s: Seq<char>, start: int)
    requires
        0 <= start <= s.len(),
    ensures
        body_tokens(s, start).len() == lexemes(s, start).len(),
        forall|k: int|
            0 <= k < body_tokens(s, start).len() ==> (#[trigger] body_tokens(
                s,
                start,
            )[k] matches TokenView::Eye(count) ==> count == 1 || count == 2),
    decreases s.len() - start,
{
    lemma_lexeme(s, start);
    lemma_body_step(s, start);
    let n = lexeme_len(s, start);
    if 0 < n {
        lemma_body_tokens(s, start + n);
        let rest = body_tokens(s, start + n);
        assert forall|k: int| 0 <= k < body_tokens(s, start).len() implies (#[trigger] body_tokens(
            s,
            start,
        )[k] matches TokenView::Eye(count) ==> count == 1 || count == 2) by {
            if k > 0 {
                assert(body_tokens(s, start)[k] == rest[k - 1]);
            }
        }
    }
}

} // verus!

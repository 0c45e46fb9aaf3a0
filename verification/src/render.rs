//! Drawing: the bubble around the text, then the figure that the tokens of
//! the cowfile describe.

use vstd::prelude::*;
use vstd::string::StringExecFns;
use crate::bubble::{bubble, push_bubble};
use crate::options::{Options, OptionsView};
use crate::token::{token_views, Token, TokenView};
use crate::wrap::line_views;

verus! {

/// The glyph between the figure and its bubble: `o` for a thought, a
/// backslash for speech.
pub open spec fn connector(thought: bool) -> char {
    if thought {
        'o'
    } else {
        '\\'
    }
}

/// The eye that is drawn next.
pub open spec fn eye_glyph(left: bool, options: OptionsView) -> char {
    if left {
        options.left_eye
    } else {
        options.right_eye
    }
}

/// `count` eyes, left and right in turn, starting with the left one exactly
/// if `left` holds.
pub open spec fn eye_glyphs(count: nat, left: bool, options: OptionsView) -> Seq<char>
    decreases count,
{
    if count == 0 {
        Seq::empty()
    } else {
        seq![eye_glyph(left, options)] + eye_glyphs((count - 1) as nat, !left, options)
    }
}

/// What is drawn for one token when the next eye is the left one exactly if
/// `left` holds. Nothing is drawn for a comment.
pub open spec fn glyphs(token: TokenView, left: bool, options: OptionsView) -> Seq<char> {
    match token {
        TokenView::Comment(_) => Seq::empty(),
        TokenView::Text(text) => text,
        TokenView::Thoughts => seq![connector(options.thought)],
        TokenView::Tongue => options.tongue,
        TokenView::Eye(count) => eye_glyphs(count as nat, left, options),
    }
}

/// Whether the next eye after `token` is the left one: each eye drawn
/// changes sides.
pub open spec fn left_after(token: TokenView, left: bool) -> bool {
    match token {
        TokenView::Eye(count) => if count % 2 == 0 {
            left
        } else {
            !left
        },
        _ => left,
    }
}

/// What is drawn for `tokens` when the next eye is the left one exactly if
/// `left` holds.
pub open spec fn figure_from(tokens: Seq<TokenView>, left: bool, options: OptionsView) -> Seq<
    char,
>
    decreases tokens.len(),
{
    if tokens.len() == 0 {
        Seq::empty()
    } else {
        glyphs(tokens[0], left, options) + figure_from(
            tokens.drop_first(),
            left_after(tokens[0], left),
            options,
        )
    }
}

/// The figure: what is drawn for `tokens`, the first eye being the left one.
pub open spec fn figure(tokens: Seq<TokenView>, options: OptionsView) -> Seq<char> {
    figure_from(tokens, true, options)
}

/// The whole picture: the bubble around `lines`, then the figure.
pub open spec fn picture(
    lines: Seq<Seq<char>>,
    tokens: Seq<TokenView>,
    options: OptionsView,
) -> Seq<char> {
    bubble(lines, options.thought) + figure(tokens, options)
}

/// Appends `count` eyes, left and right in turn; returns whether the next eye
/// after them is the left one.
fn push_eyes(out: &mut String, count: u8, left: bool, options: &Options) -> (next: bool)
    ensures
        final(out)@ == old(out)@ + eye_glyphs(count as nat, left, options@),
        next == left_after(TokenView::Eye(count), left),
{
    let mut left_eye = left;
    let mut n: u8 = count;
    proof {
        assert(out@ + eye_glyphs(n as nat, left_eye, options@) =~= old(out)@ + eye_glyphs(
            count as nat,
            left,
            options@,
        ));
    }
    while n > 0
        invariant
            n <= count,
            out@ + eye_glyphs(n as nat, left_eye, options@) == old(out)@ + eye_glyphs(
                count as nat,
                left,
                options@,
            ),
            left_eye == (if (count - n) % 2 == 0 {
                left
            } else {
                !left
            }),
        decreases n,
    {
        let ghost before = out@;
        let glyph = if left_eye {
            options.left_eye()
        } else {
            options.right_eye()
        };
        out.push(glyph);
        proof {
            assert(before.push(glyph) + eye_glyphs((n - 1) as nat, !left_eye, options@)
                =~= before + eye_glyphs(n as nat, left_eye, options@));
        }
        left_eye = !left_eye;
        n -= 1;
    }
    proof {
        assert(out@ + eye_glyphs(0, left_eye, options@) =~= out@);
    }
    left_eye
}

/// Appends what is drawn for one token; returns whether the next eye after it
/// is the left one.
fn push_token(out: &mut String, token: &Token, left: bool, options: &Options) -> (next: bool)
    ensures
        final(out)@ == old(out)@ + glyphs(token@, left, options@),
        next == left_after(token@, left),
{
    match token {
        Token::Comment(_) => {
            proof {
                assert(out@ =~= old(out)@ + Seq::<char>::empty());
            }
            left
        },
        Token::Text(text) => {
            out.append(text.as_str());
            left
        },
        Token::Thoughts => {
            let glyph = if options.thought() {
                'o'
            } else {
                '\\'
            };
            out.push(glyph);
            proof {
                assert(out@ =~= old(out)@ + seq![connector(options@.thought)]);
            }
            left
        },
        Token::Tongue => {
            out.append(options.tongue());
            left
        },
        Token::Eye(count) => push_eyes(out, *count, left, options),
    }
}

/// Appends the figure that `tokens` describe.
pub fn push_figure(out: &mut String, tokens: &Vec<Token>, options: &Options)
    ensures
        final(out)@ == old(out)@ + figure(token_views(tokens@), options@),
{
    let ghost views = token_views(tokens@);
    let mut left_eye = true;
    let mut i: usize = 0;
    proof {
        assert(views.skip(0) =~= views);
    }
    while i < tokens.len()
        invariant
            i <= tokens.len(),
            views == token_views(tokens@),
            out@ + figure_from(views.skip(i as int), left_eye, options@) == old(out)@ + figure(
                views,
                options@,
            ),
        decreases tokens.len() - i,
    {
        let ghost before = out@;
        let ghost rest = views.skip(i as int);
        proof {
            assert(rest[0] == tokens@[i as int]@);
            assert(rest.drop_first() =~= views.skip(i + 1));
        }
        let next = push_token(out, &tokens[i], left_eye, options);
        proof {
            assert((before + glyphs(rest[0], left_eye, options@)) + figure_from(
                views.skip(i + 1),
                next,
                options@,
            ) =~= before + figure_from(rest, left_eye, options@));
        }
        left_eye = next;
        i += 1;
    }
    proof {
        assert(out@ + Seq::<char>::empty() =~= out@);
    }
}

/// Draws the bubble around `lines` and, right after it, the figure that
/// `tokens` describe.
pub fn render(lines: &Vec<String>, tokens: &Vec<Token>, options: &Options) -> (out: String)
    ensures
        out@ == picture(line_views(lines@), token_views(tokens@), options@),
{
    let mut out = String::new();
    push_bubble(&mut out, lines, options.thought());
    push_figure(&mut out, tokens, options);
    proof {
        assert(out@ =~= picture(line_views(lines@), token_views(tokens@), options@));
    }
    out
}

/// How many eyes `tokens` draw.
pub open spec fn eye_count(tokens: Seq<TokenView>) -> nat
    decreases tokens.len(),
{
    if tokens.len() == 0 {
        0
    } else {
        eye_count(tokens.drop_last()) + match tokens.last() {
            TokenView::Eye(count) => count as nat,
            _ => 0,
        }
    }
}

/// Whether the next eye after all of `tokens` is the left one.
pub open spec fn left_after_all(tokens: Seq<TokenView>, left: bool) -> bool
    decreases tokens.len(),
{
    if tokens.len() == 0 {
        left
    } else {
        left_after(tokens.last(), left_after_all(tokens.drop_last(), left))
    }
}

/// Eyes change sides one by one: of `count` eyes the one at `k` is drawn on
/// the starting side exactly if `k` is even.
pub proof fn lemma_eyes_alternate(count: nat, left: bool, options: OptionsView, k: int)
    requires
        0 <= k < count,
    ensures
        eye_glyphs(count, left, options).len() == count,
        eye_glyphs(count, left, options)[k] == eye_glyph(
            if k % 2 == 0 {
                left
            } else {
                !left
            },
            options,
        ),
    decreases count,
{
    lemma_eye_glyphs_len(count, left, options);
    if k > 0 {
        lemma_eyes_alternate((count - 1) as nat, !left, options, k - 1);
    }
}

/// `count` eyes are `count` glyphs.
pub proof fn lemma_eye_glyphs_len(count: nat, left: bool, options: OptionsView)
    ensures
        eye_glyphs(count, left, options).len() == count,
    decreases count,
{
    if count > 0 {
        lemma_eye_glyphs_len((count - 1) as nat, !left, options);
    }
}

/// Eyes drawn one after the other are the same as all of them drawn at once.
pub proof fn lemma_eye_glyphs_split(a: nat, b: nat, left: bool, options: OptionsView)
    ensures
        eye_glyphs(a + b, left, options) == eye_glyphs(a, left, options) + eye_glyphs(
            b,
            if a % 2 == 0 {
                left
            } else {
                !left
            },
            options,
        ),
    decreases a,
{
    let next = if a % 2 == 0 {
        left
    } else {
        !left
    };
    if a == 0 {
        assert(eye_glyphs(b, left, options) =~= eye_glyphs(0, left, options) + eye_glyphs(
            b,
            left,
            options,
        ));
    } else {
        lemma_eye_glyphs_split((a - 1) as nat, b, !left, options);
        assert(eye_glyphs(a + b, left, options) =~= eye_glyphs(a, left, options) + eye_glyphs(
            b,
            next,
            options,
        ));
    }
}

/// The figure of two sequences of tokens, one after the other, is the figure
/// of the first followed by that of the second, drawn with the side that the
/// first has left the eyes on.
pub proof fn lemma_figure_concat(
    first: Seq<TokenView>,
    second: Seq<TokenView>,
    left: bool,
    options: OptionsView,
)
    ensures
        figure_from(first + second, left, options) == figure_from(first, left, options)
            + figure_from(second, left_after_all(first, left), options),
        left_after_all(first + second, left) == left_after_all(
            second,
            left_after_all(first, left),
        ),
    decreases first.len() + second.len(),
{
    lemma_figure_concat_glyphs(first, second, left, options);
    lemma_left_after_all_concat(first, second, left);
}

/// The side of the next eye after two sequences of tokens is the side after
/// the second, started from the side after the first.
pub proof fn lemma_left_after_all_concat(
    first: Seq<TokenView>,
    second: Seq<TokenView>,
    left: bool,
)
    ensures
        left_after_all(first + second, left) == left_after_all(
            second,
            left_after_all(first, left),
        ),
    decreases second.len(),
{
    if second.len() == 0 {
        assert(first + second =~= first);
    } else {
        lemma_left_after_all_concat(first, second.drop_last(), left);
        assert((first + second).drop_last() =~= first + second.drop_last());
        assert((first + second).last() == second.last());
    }
}

/// A single token leaves the eyes on its side.
proof fn lemma_single_side(token: TokenView, left: bool)
    ensures
        left_after_all(seq![token], left) == left_after(token, left),
{
    let one = seq![token];
    assert(one.drop_last() =~= Seq::<TokenView>::empty());
    assert(left_after_all(one.drop_last(), left) == left);
}

/// A single token draws its glyphs and leaves the eyes on its side.
pub proof fn lemma_single_token(token: TokenView, left: bool, options: OptionsView)
    ensures
        figure_from(seq![token], left, options) == glyphs(token, left, options),
        left_after_all(seq![token], left) == left_after(token, left),
{
    let one = seq![token];
    lemma_single_side(token, left);
    assert(one.drop_first() =~= Seq::<TokenView>::empty());
    assert(figure_from(one.drop_first(), left_after(token, left), options)
        =~= Seq::<char>::empty());
    assert(figure_from(one, left, options) =~= glyphs(token, left, options));
}

/// The side of the next eye after one token and then others.
proof fn lemma_left_after_all_first(tokens: Seq<TokenView>, left: bool)
    requires
        tokens.len() > 0,
    ensures
        left_after_all(tokens, left) == left_after_all(
            tokens.drop_first(),
            left_after(tokens[0], left),
        ),
{
    let head = seq![tokens[0]];
    assert(head + tokens.drop_first() =~= tokens);
    lemma_left_after_all_concat(head, tokens.drop_first(), left);
    lemma_single_side(tokens[0], left);
}

proof fn lemma_figure_concat_glyphs(
    first: Seq<TokenView>,
    second: Seq<TokenView>,
    left: bool,
    options: OptionsView,
)
    ensures
        figure_from(first + second, left, options) == figure_from(first, left, options)
            + figure_from(second, left_after_all(first, left), options),
    decreases first.len(),
{
    if first.len() == 0 {
        assert(first + second =~= second);
        assert(figure_from(second, left, options) =~= figure_from(first, left, options)
            + figure_from(second, left, options));
    } else {
        let next = left_after(first[0], left);
        lemma_figure_concat_glyphs(first.drop_first(), second, next, options);
        lemma_left_after_all_first(first, left);
        assert((first + second).drop_first() =~= first.drop_first() + second);
        assert((first + second)[0] == first[0]);
        assert(figure_from(first + second, left, options) =~= figure_from(first, left, options)
            + figure_from(second, left_after_all(first, left), options));
    }
}

/// The eyes keep changing sides across tokens: the next eye after `tokens`
/// is on the starting side exactly if they have drawn an even number of eyes.
pub proof fn lemma_eyes_alternate_across_tokens(tokens: Seq<TokenView>, left: bool)
    ensures
        left_after_all(tokens, left) == (if eye_count(tokens) % 2 == 0 {
            left
        } else {
            !left
        }),
    decreases tokens.len(),
{
    if tokens.len() > 0 {
        lemma_eyes_alternate_across_tokens(tokens.drop_last(), left);
    }
}

/// Two tokens of eyes in a row draw what one token of as many eyes draws,
/// wherever they stand: a pair of eyes is two single eyes.
pub proof fn lemma_adjacent_eyes_merge(
    before: Seq<TokenView>,
    a: u8,
    b: u8,
    after: Seq<TokenView>,
    left: bool,
    options: OptionsView,
)
    requires
        a + b <= u8::MAX,
    ensures
        figure_from(
            before + seq![TokenView::Eye(a), TokenView::Eye(b)] + after,
            left,
            options,
        ) == figure_from(before + seq![TokenView::Eye((a + b) as u8)] + after, left, options),
{
    let two = seq![TokenView::Eye(a), TokenView::Eye(b)];
    let one = seq![TokenView::Eye((a + b) as u8)];
    let side = left_after_all(before, left);
    let middle = left_after(TokenView::Eye(a), side);
    assert(two =~= seq![TokenView::Eye(a)] + seq![TokenView::Eye(b)]);
    lemma_single_token(TokenView::Eye(a), side, options);
    lemma_single_token(TokenView::Eye(b), middle, options);
    lemma_single_token(TokenView::Eye((a + b) as u8), side, options);
    lemma_figure_concat(seq![TokenView::Eye(a)], seq![TokenView::Eye(b)], side, options);
    lemma_eye_glyphs_split(a as nat, b as nat, side, options);
    assert(figure_from(two, side, options) == figure_from(one, side, options));
    assert(left_after_all(two, side) == left_after_all(one, side));
    lemma_figure_concat(before, two, left, options);
    lemma_figure_concat(before + two, after, left, options);
    lemma_figure_concat(before, one, left, options);
    lemma_figure_concat(before + one, after, left, options);
}

} // verus!

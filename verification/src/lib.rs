//! Speech and thought bubbles drawn above a figure that a cowfile describes.
//!
//! The text is split into lines and framed by a bubble; the cowfile is parsed
//! into tokens, and the figure is drawn from them below the bubble.

use vstd::prelude::*;

pub mod args;
pub mod body;
pub mod bubble;
pub mod cowfile;
pub mod diagnostics;
pub mod escape;
pub mod grammar;
pub mod options;
pub mod parse;
pub mod render;
pub mod scan;
pub mod text;
pub mod token;
pub mod wrap;

pub use args::{Args, Mode};
pub use bubble::{bubble_bottom, bubble_top};
pub use cowfile::{list_builtin_cowfiles, locate_cowfile, random_cowfile, CowfileSource};
pub use grammar::{template_tokens, Expected, Mismatch};
pub use options::{ConfigError, Options, OptionsBuilder, OptionsView, Setting};
pub use parse::{extract_body, parse, tokenize, ParseError};
pub use render::{picture, render};
pub use token::{Token, TokenView};
pub use wrap::{bubble_lines, fits_one_line, without_trailing_spaces, wrap};

verus! {

/// The lines of the bubble that `options` ask for.
pub open spec fn text_lines(options: OptionsView) -> Seq<Seq<char>> {
    bubble_lines(options.text, options.print_width, options.word_wrap)
}

/// Draws the text of `options` in a bubble above the figure of its cowfile.
///
/// The result is the whole picture or, where the template is no cowfile, the
/// error of the parser: nothing is drawn of a picture that cannot be
/// finished.
pub fn format(options: &Options) -> (result: Result<String, ParseError>)
    ensures
        match result {
            Ok(out) => template_tokens(options@.template) matches Ok(tokens) && out@ == picture(
                text_lines(options@),
                tokens,
                options@,
            ),
            Err(error) => template_tokens(options@.template) == Err::<Seq<TokenView>, Mismatch>(
                error@,
            ),
        },
{
    let lines = wrap(options.text(), options.print_width(), options.word_wrap());
    match parse(options.template()) {
        Ok(tokens) => Ok(render(&lines, &tokens, options)),
        Err(error) => Err(error),
    }
}

/// The picture of a short text: where the text is wrapped, is a single line
/// of fewer characters than the width and has no space at its end, the bubble
/// is the top border, one row that holds the text as it stands, and the
/// bottom border, each as wide as the text; the figure follows.
pub proof fn lemma_short_text_has_one_row(options: OptionsView, tokens: Seq<TokenView>)
    requires
        options.word_wrap,
        fits_one_line(options.text, options.print_width),
        options.text.len() == 0 || options.text.last() != ' ',
    ensures
        text_lines(options) == seq![options.text],
        picture(text_lines(options), tokens, options) == bubble::top_border(options.text.len())
            + bubble::row(
            options.text,
            options.text.len(),
            bubble::delimiters(options.thought, 1, 0),
        ) + bubble::bottom_border(options.text.len()) + render::figure(tokens, options),
{
    wrap::lemma_short_line_stays_one_line(options.text, options.print_width);
    bubble::lemma_single_line_bubble(options.text, options.thought);
}

} // verus!

//! The tokens of a cowfile body.

use vstd::prelude::*;

verus! {

/// One piece of a cowfile body.
#[derive(Debug, PartialEq, Eq)]
pub enum Token {
    /// A comment line of the body: what stands after its `#`, without the
    /// line break. Nothing is drawn for it.
    Comment(String),
    /// Literal characters, drawn as they are.
    Text(String),
    /// The connector between the figure and its bubble.
    Thoughts,
    /// The tongue.
    Tongue,
    /// One eye or a pair of eyes: the number of eye glyphs drawn here.
    Eye(u8),
}

/// A token as contracts see it: strings become sequences of characters.
pub enum TokenView {
    Comment(Seq<char>),
    Text(Seq<char>),
    Thoughts,
    Tongue,
    Eye(u8),
}

impl View for Token {
    type V = TokenView;

    open spec fn view(&self) -> TokenView {
        match self {
            Token::Comment(text) => TokenView::Comment(text@),
            Token::Text(text) => TokenView::Text(text@),
            Token::Thoughts => TokenView::Thoughts,
            Token::Tongue => TokenView::Tongue,
            Token::Eye(count) => TokenView::Eye(*count),
        }
    }
}

impl Clone for Token {
    /// A token that reads the same.
    fn clone(&self) -> (copy: Token)
        ensures
            copy@ == self@,
    {
        match self {
            Token::Comment(text) => Token::Comment(text.clone()),
            Token::Text(text) => Token::Text(text.clone()),
            Token::Thoughts => Token::Thoughts,
            Token::Tongue => Token::Tongue,
            Token::Eye(count) => Token::Eye(*count),
        }
    }
}

/// The views of a sequence of tokens, in order.
pub open spec fn token_views(tokens: Seq<Token>) -> Seq<TokenView> {
    tokens.map_values(|token: Token| token@)
}

} // verus!

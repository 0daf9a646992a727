//! The lexical units of the language.
use vstd::prelude::*;

verus! {

/// A lexical unit of one line of source.
#[derive(Debug, PartialEq, Eq)]
pub enum Token {
    /// An integer literal.
    Number(i64),
    /// `+`
    Plus,
    /// A string literal, without its quotes.
    String(String),
    /// `*`
    Star,
    /// A name.
    Identifier(String),
    /// The reserved word `let`.
    Let,
    /// `=`
    Equals,
}

/// What a token stands for, with text as a sequence of characters.
pub enum TokenModel {
    Number(i64),
    Plus,
    String(Seq<char>),
    Star,
    Identifier(Seq<char>),
    Let,
    Equals,
}

impl View for Token {
    type V = TokenModel;

    open spec fn view(&self) -> TokenModel {
        match self {
            Token::Number(n) => TokenModel::Number(*n),
            Token::Plus => TokenModel::Plus,
            Token::String(s) => TokenModel::String(s@),
            Token::Star => TokenModel::Star,
            Token::Identifier(s) => TokenModel::Identifier(s@),
            Token::Let => TokenModel::Let,
            Token::Equals => TokenModel::Equals,
        }
    }
}

impl Clone for Token {
    fn clone(&self) -> (r: Token)
        ensures
            r == *self,
    {
        match self {
            Token::Number(n) => Token::Number(*n),
            Token::Plus => Token::Plus,
            Token::String(s) => Token::String(s.clone()),
            Token::Star => Token::Star,
            Token::Identifier(s) => Token::Identifier(s.clone()),
            Token::Let => Token::Let,
            Token::Equals => Token::Equals,
        }
    }
}

/// The models of a sequence of tokens.
pub open spec fn tokens_view(ts: Seq<Token>) -> Seq<TokenModel> {
    ts.map_values(|t: Token| t@)
}

} // verus!

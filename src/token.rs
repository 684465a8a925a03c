use crate::value::{lexeme_text, Lexeme, Value};
use vstd::prelude::*;

verus! {

/// The unit that the scanner produces: a value or a run of whitespace.
#[derive(Clone, Copy, Debug, PartialEq, Eq)]
pub enum Token<'a> {
    Value(Value<'a>),
    Whitespace(&'a str),
}

impl<'a> View for Token<'a> {
    type V = Lexeme;

    open spec fn view(&self) -> Lexeme {
        match self {
            Token::Value(v) => v@,
            Token::Whitespace(s) => Lexeme::Whitespace(s@),
        }
    }
}

impl<'a> Token<'a> {
    /// The text of this token; a quoted value without its quotes.
    pub fn as_str(&self) -> (r: &'a str)
        ensures
            r@ == lexeme_text(self@),
    {
        match self {
            Token::Value(arg) => arg.as_str(),
            Token::Whitespace(string) => string,
        }
    }

    /// Whether this token is a value.
    pub fn is_value(&self) -> (r: bool)
        ensures
            r == !(self@ is Whitespace),
    {
        match self {
            Token::Value(_) => true,
            Token::Whitespace(_) => false,
        }
    }

    /// Whether this token is whitespace.
    pub fn is_whitespace(&self) -> (r: bool)
        ensures
            r == self@ is Whitespace,
    {
        match self {
            Token::Value(_) => false,
            Token::Whitespace(_) => true,
        }
    }
}

} // verus!

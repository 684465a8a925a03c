use crate::quote::Quote;
use vstd::prelude::*;

verus! {

/// What a lexical unit is, as characters: the model of `Value`, `Token`
/// and `Arg`.
pub enum Lexeme {
    Quoted(Quote, Seq<char>),
    IncompleteQuoted(Quote, Seq<char>),
    Word(Seq<char>),
    Whitespace(Seq<char>),
}

/// The text that a lexeme holds: a quoted value without its quotes.
pub open spec fn lexeme_text(l: Lexeme) -> Seq<char> {
    match l {
        Lexeme::Quoted(_, t) => t,
        Lexeme::IncompleteQuoted(_, t) => t,
        Lexeme::Word(t) => t,
        Lexeme::Whitespace(t) => t,
    }
}

/// The input that a lexeme was read from: its text with its quotes put back.
pub open spec fn lexeme_source(l: Lexeme) -> Seq<char> {
    match l {
        Lexeme::Quoted(q, t) => seq![crate::quote::quote_char(q)] + t + seq![
            crate::quote::quote_char(q),
        ],
        Lexeme::IncompleteQuoted(q, t) => seq![crate::quote::quote_char(q)] + t,
        Lexeme::Word(t) => t,
        Lexeme::Whitespace(t) => t,
    }
}

/// The quote of a lexeme, if it is quoted.
pub open spec fn lexeme_quote(l: Lexeme) -> Option<Quote> {
    match l {
        Lexeme::Quoted(q, _) => Some(q),
        Lexeme::IncompleteQuoted(q, _) => Some(q),
        _ => None,
    }
}

/// A parsed value: a quoted string, a quoted string that was never closed,
/// or a bare word. The text never holds the delimiting quotes.
#[derive(Clone, Copy, Debug, PartialEq, Eq)]
pub enum Value<'a> {
    Quoted(Quote, &'a str),
    IncompleteQuoted(Quote, &'a str),
    Word(&'a str),
}

impl<'a> View for Value<'a> {
    type V = Lexeme;

    open spec fn view(&self) -> Lexeme {
        match self {
            Value::Quoted(q, s) => Lexeme::Quoted(*q, s@),
            Value::IncompleteQuoted(q, s) => Lexeme::IncompleteQuoted(*q, s@),
            Value::Word(s) => Lexeme::Word(s@),
        }
    }
}

impl<'a> Value<'a> {
    /// The text of the value, without quotes.
    pub fn as_str(&self) -> (r: &'a str)
        ensures
            r@ == lexeme_text(self@),
    {
        match self {
            Value::Quoted(_quote, string) => string,
            Value::IncompleteQuoted(_quote, string) => string,
            Value::Word(string) => string,
        }
    }

    /// The quote of the value, if it is quoted.
    pub fn quote(&self) -> (r: Option<Quote>)
        ensures
            r == lexeme_quote(self@),
    {
        match self {
            Value::Quoted(quote, _string) => Some(*quote),
            Value::IncompleteQuoted(quote, _string) => Some(*quote),
            Value::Word(_string) => None,
        }
    }

    /// Whether the value is quoted, closed or not.
    pub fn is_quoted(&self) -> (r: bool)
        ensures
            r == (self@ is Quoted || self@ is IncompleteQuoted),
    {
        match self {
            Value::Word(_) => false,
            _ => true,
        }
    }

    /// Whether the value is a quoted string that was never closed.
    pub fn is_incomplete(&self) -> (r: bool)
        ensures
            r == self@ is IncompleteQuoted,
    {
        match self {
            Value::IncompleteQuoted(_, _) => true,
            _ => false,
        }
    }
}

} // verus!

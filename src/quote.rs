use vstd::prelude::*;

verus! {

/// The three quote characters that delimit a quoted value.
#[derive(Clone, Copy, Debug, PartialEq, Eq, Structural)]
pub enum Quote {
    Backtick,
    DoubleQuote,
    Quote,
}

/// The character that a quote variant stands for.
pub open spec fn quote_char(q: Quote) -> char {
    match q {
        Quote::Backtick => '`',
        Quote::DoubleQuote => '"',
        Quote::Quote => '\'',
    }
}

/// One of the three quote characters: backtick, double quote, single quote.
pub open spec fn is_quote_char(c: char) -> bool {
    c == '`' || c == '"' || c == '\''
}

/// The quote variant of a quote character.
pub open spec fn quote_of(c: char) -> Quote {
    if c == '`' {
        Quote::Backtick
    } else if c == '"' {
        Quote::DoubleQuote
    } else {
        Quote::Quote
    }
}

impl Quote {
    /// The character value of the quote variant.
    pub fn as_char(&self) -> (r: char)
        ensures
            r == quote_char(*self),
            is_quote_char(r),
            quote_of(r) == *self,
    {
        match self {
            Quote::Backtick => '`',
            Quote::DoubleQuote => '"',
            Quote::Quote => '\'',
        }
    }

    /// The variant for a quote character, or `None` for any other character.
    pub fn from_char(quote: char) -> (r: Option<Self>)
        ensures
            r == (if is_quote_char(quote) {
                Some(quote_of(quote))
            } else {
                None
            }),
            r matches Some(q) ==> quote_char(q) == quote,
    {
        if quote == '`' {
            Some(Quote::Backtick)
        } else if quote == '"' {
            Some(Quote::DoubleQuote)
        } else if quote == '\'' {
            Some(Quote::Quote)
        } else {
            None
        }
    }
}

} // verus!

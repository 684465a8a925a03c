use crate::common::Common;
use crate::quote::Quote;
use crate::scan::{lemma_lexeme_end, lexeme_at, lexeme_end, lexemes, lexemes_from};
use crate::text::{is_whitespace, utf8_len};
use crate::token::Token;
use crate::value::{lexeme_quote, lexeme_text, Lexeme, Value};
use vstd::prelude::*;

verus! {

/// An item of the argument stream: a value or a run of whitespace.
#[derive(Clone, Copy, Debug, PartialEq, Eq)]
pub enum Arg<'a> {
    Value(Value<'a>),
    Whitespace(&'a str),
}

impl<'a> View for Arg<'a> {
    type V = Lexeme;

    open spec fn view(&self) -> Lexeme {
        match self {
            Arg::Value(v) => v@,
            Arg::Whitespace(s) => Lexeme::Whitespace(s@),
        }
    }
}

impl<'a> Arg<'a> {
    /// Whether this is a value.
    pub fn is_value(&self) -> (r: bool)
        ensures
            r == !(self@ is Whitespace),
    {
        match self {
            Arg::Value(_) => true,
            Arg::Whitespace(_) => false,
        }
    }

    /// Whether this is whitespace.
    pub fn is_whitespace(&self) -> (r: bool)
        ensures
            r == self@ is Whitespace,
    {
        match self {
            Arg::Value(_) => false,
            Arg::Whitespace(_) => true,
        }
    }

    /// Whether this is a quoted value that was never closed.
    pub fn is_incomplete(&self) -> (r: bool)
        ensures
            r == self@ is IncompleteQuoted,
    {
        match self {
            Arg::Value(value) => value.is_incomplete(),
            _ => false,
        }
    }

    /// The text of this item; a quoted value without its quotes.
    pub fn as_str(&self) -> (r: &'a str)
        ensures
            r@ == lexeme_text(self@),
    {
        match self {
            Arg::Value(value) => value.as_str(),
            Arg::Whitespace(whitespace) => whitespace,
        }
    }

    /// The quote of this item, if it is a quoted value.
    pub fn quote(&self) -> (r: Option<Quote>)
        ensures
            r == lexeme_quote(self@),
    {
        match self {
            Arg::Value(value) => value.quote(),
            _ => None,
        }
    }
}

/// The argument tokenizer: yields the values and whitespace runs of a
/// string, in order, one per call of `next`.
#[derive(Clone, Debug)]
pub struct Args<'a> {
    iter: Common<'a>,
}

impl<'a> Args<'a> {
    /// The characters being tokenized.
    pub closed spec fn text(&self) -> Seq<char> {
        self.iter.text()
    }

    /// The position of the next character.
    pub closed spec fn pos(&self) -> int {
        self.iter.pos()
    }

    pub closed spec fn wf(&self) -> bool {
        self.iter.wf()
    }

    /// Starts tokenizing `string`.
    pub fn new(string: &'a str) -> (r: Self)
        ensures
            r.wf(),
            r.text() == string@,
            r.pos() == 0,
    {
        let iter = Common::new(string);
        Self { iter }
    }

    /// The number of bytes consumed so far.
    pub fn offset(&self) -> (r: usize)
        requires
            self.wf(),
        ensures
            r == utf8_len(self.text().take(self.pos())),
    {
        self.iter.offset()
    }

    /// The number of characters consumed so far.
    pub fn index(&self) -> (r: usize)
        requires
            self.wf(),
        ensures
            r == self.pos(),
            r <= self.text().len(),
    {
        self.iter.index()
    }

    /// The next item, which starts at the position; `None` at the end.
    pub fn next(&mut self) -> (r: Option<Arg<'a>>)
        requires
            old(self).wf(),
        ensures
            final(self).wf(),
            final(self).text() == old(self).text(),
            old(self).pos() < old(self).text().len() ==> r is Some,
            old(self).pos() < old(self).text().len() ==> r->0@ == lexeme_at(
                old(self).text(),
                old(self).pos(),
            ),
            old(self).pos() < old(self).text().len() ==> final(self).pos() == lexeme_end(
                old(self).text(),
                old(self).pos(),
            ),
            old(self).pos() >= old(self).text().len() ==> r is None && final(self).pos() == old(
                self,
            ).pos(),
    {
        proof {
            self.iter.lemma_bounds();
        }
        let character = match self.iter.next() {
            Some(c) => c,
            None => {
                return None;
            },
        };
        let token = match Quote::from_char(character) {
            Some(quote) => self.iter.next_string(quote),
            None => {
                if is_whitespace(character) {
                    self.iter.next_whitespace()
                } else {
                    self.iter.next_word()
                }
            },
        };
        let arg = match token {
            Token::Value(value) => Arg::Value(value),
            Token::Whitespace(string) => Arg::Whitespace(string),
        };
        Some(arg)
    }
}

/// The items of `input`, in order.
pub fn tokenize<'a>(input: &'a str) -> (r: Vec<Arg<'a>>)
    ensures
        r@.map_values(|a: Arg<'a>| a@) == lexemes(input@),
{
    let ghost s = input@;
    let mut iter = Args::new(input);
    let mut out: Vec<Arg<'a>> = Vec::new();
    loop
        invariant
            iter.wf(),
            iter.text() == s,
            0 <= iter.pos() <= s.len(),
            out@.map_values(|a: Arg<'a>| a@) + lexemes_from(s, iter.pos()) == lexemes(s),
        ensures
            out@.map_values(|a: Arg<'a>| a@) == lexemes(s),
        decreases s.len() - iter.pos(),
    {
        let ghost p = iter.pos();
        proof {
            if p < s.len() {
                lemma_lexeme_end(s, p);
            }
        }
        match iter.next() {
            Some(arg) => {
                proof {
                    lemma_lexeme_end(s, p);
                    assert(out@.push(arg).map_values(|a: Arg<'a>| a@) =~= out@.map_values(
                        |a: Arg<'a>| a@,
                    ).push(arg@));
                    assert(lexemes_from(s, p) == seq![lexeme_at(s, p)] + lexemes_from(
                        s,
                        lexeme_end(s, p),
                    ));
                    assert(out@.map_values(|a: Arg<'a>| a@).push(arg@) + lexemes_from(
                        s,
                        lexeme_end(s, p),
                    ) =~= out@.map_values(|a: Arg<'a>| a@) + lexemes_from(s, p));
                }
                out.push(arg);
            },
            None => {
                assert(lexemes_from(s, p) =~= Seq::<Lexeme>::empty());
                assert(out@.map_values(|a: Arg<'a>| a@) + lexemes_from(s, p) =~= out@.map_values(
                    |a: Arg<'a>| a@,
                ));
                break ;
            },
        }
    }
    out
}

} // verus!

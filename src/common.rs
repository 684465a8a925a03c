use crate::chars::Chars;
use crate::quote::{quote_char, Quote};
use crate::scan::{closes, lemma_string_end, lemma_word_end, lemma_ws_end, string_end, word_end, ws_end};
use crate::text::{is_whitespace, utf8_len};
use crate::token::Token;
use crate::value::{Lexeme, Value};
use vstd::prelude::*;
use vstd::string::StrSliceExecFns;

verus! {

/// The scanning engine shared by the argument and assignment tokenizers.
///
/// `next_whitespace` and `next_word` are called after the caller has taken
/// the first character of the run with `next`: their span starts one
/// character back, so that it holds that character.
#[derive(Clone, Debug)]
pub struct Common<'a> {
    iter: Chars<'a>,
    string: &'a str,
}

impl<'a> Common<'a> {
    /// The characters being scanned.
    pub closed spec fn text(&self) -> Seq<char> {
        self.iter.text()
    }

    /// The position of the next character.
    pub closed spec fn pos(&self) -> int {
        self.iter.pos()
    }

    pub proof fn lemma_bounds(&self)
        requires
            self.wf(),
        ensures
            0 <= self.pos() <= self.text().len(),
    {
        self.iter.lemma_bounds();
    }

    pub closed spec fn wf(&self) -> bool {
        &&& self.iter.wf()
        &&& self.iter.source() == self.string
        &&& self.iter.text() == self.string@
        &&& self.iter.back_pos() == self.iter.text().len()
    }

    /// Starts scanning `string` at its beginning.
    pub fn new(string: &'a str) -> (r: Self)
        ensures
            r.wf(),
            r.text() == string@,
            r.pos() == 0,
    {
        let iter = Chars::new(string);
        Self { iter, string }
    }

    /// The string being scanned.
    pub(crate) fn source(&self) -> (r: &'a str)
        requires
            self.wf(),
        ensures
            r@ == self.text(),
    {
        self.string
    }

    /// The byte position of the next character.
    pub fn offset(&self) -> (r: usize)
        requires
            self.wf(),
        ensures
            r == utf8_len(self.text().take(self.pos())),
    {
        self.iter.offset()
    }

    /// The number of characters scanned so far.
    pub fn index(&self) -> (r: usize)
        requires
            self.wf(),
        ensures
            r == self.pos(),
            r <= self.text().len(),
    {
        proof {
            self.iter.lemma_bounds();
        }
        self.iter.index()
    }

    /// Whether every character was scanned.
    pub(crate) fn is_at_end(&self) -> (r: bool)
        requires
            self.wf(),
        ensures
            r == (self.pos() == self.text().len()),
    {
        self.iter.index() == self.string.unicode_len()
    }

    /// Takes the next character.
    pub fn next(&mut self) -> (r: Option<char>)
        requires
            old(self).wf(),
        ensures
            final(self).wf(),
            final(self).text() == old(self).text(),
            old(self).pos() < old(self).text().len() ==> r == Some(old(self).text()[old(self).pos()])
                && final(self).pos() == old(self).pos() + 1,
            old(self).pos() >= old(self).text().len() ==> r is None && final(self).pos() == old(
                self,
            ).pos(),
    {
        self.iter.next()
    }

    /// The next character, without taking it.
    pub fn peek(&self) -> (r: Option<char>)
        requires
            self.wf(),
        ensures
            r == (if self.pos() < self.text().len() {
                Some(self.text()[self.pos()])
            } else {
                None
            }),
    {
        self.iter.peek()
    }

    /// Scans a quoted string whose opening quote was just taken: up to the
    /// matching quote that no backslash precedes, which is taken too, or to
    /// the end of the input when there is none.
    pub fn next_string(&mut self, quote: Quote) -> (r: Token<'a>)
        requires
            old(self).wf(),
        ensures
            final(self).wf(),
            final(self).text() == old(self).text(),
            ({
                let s = old(self).text();
                let p = old(self).pos();
                let j = string_end(s, quote_char(quote), p);
                if j < s.len() {
                    r@ == Lexeme::Quoted(quote, s.subrange(p, j)) && final(self).pos() == j + 1
                } else {
                    r@ == Lexeme::IncompleteQuoted(quote, s.subrange(p, s.len() as int))
                        && final(self).pos() == s.len()
                }
            }),
            r is Value,
    {
        let ghost s = self.text();
        let qc = quote.as_char();
        let start = self.iter.index();
        let mut terminated = false;
        proof {
            self.iter.lemma_bounds();
            lemma_string_end(s, qc, start as int);
        }
        loop
            invariant_except_break
                !terminated,
            invariant
                self.wf(),
                self.text() == s,
                start <= self.pos() <= s.len(),
                string_end(s, qc, self.pos()) == string_end(s, qc, start as int),
            ensures
                self.wf(),
                self.text() == s,
                start <= self.pos() <= s.len(),
                self.pos() == string_end(s, qc, start as int),
                terminated <==> self.pos() < s.len(),
            decreases s.len() - self.pos(),
        {
            match self.iter.peek() {
                Some(c) => {
                    if c == qc {
                        let escaped = match self.iter.peek_back() {
                            Some(b) => b == '\\',
                            None => false,
                        };
                        if !escaped {
                            assert(closes(s, qc, self.pos()));
                            terminated = true;
                            break ;
                        }
                    }
                    self.iter.next();
                    proof {
                        self.iter.lemma_bounds();
                    }
                },
                None => {
                    break ;
                },
            }
        }
        let end = self.iter.index();
        let string = self.string.substring_char(start, end);
        if terminated {
            self.iter.next();
            Token::Value(Value::Quoted(quote, string))
        } else {
            Token::Value(Value::IncompleteQuoted(quote, string))
        }
    }

    /// Scans a run of whitespace whose first character was just taken.
    pub fn next_whitespace(&mut self) -> (r: Token<'a>)
        requires
            old(self).wf(),
        ensures
            final(self).wf(),
            final(self).text() == old(self).text(),
            ({
                let s = old(self).text();
                let p = old(self).pos();
                let start = if p > 0 {
                    p - 1
                } else {
                    0
                };
                r@ == Lexeme::Whitespace(s.subrange(start, ws_end(s, p))) && final(self).pos()
                    == ws_end(s, p)
            }),
            r is Whitespace,
    {
        let ghost s = self.text();
        let p = self.iter.index();
        let start = if p > 0 {
            p - 1
        } else {
            0
        };
        proof {
            self.iter.lemma_bounds();
            lemma_ws_end(s, p as int);
        }
        loop
            invariant
                self.wf(),
                self.text() == s,
                p <= self.pos() <= s.len(),
                ws_end(s, self.pos()) == ws_end(s, p as int),
            ensures
                self.wf(),
                self.text() == s,
                self.pos() == ws_end(s, p as int),
            decreases s.len() - self.pos(),
        {
            match self.iter.peek() {
                Some(c) => {
                    if !is_whitespace(c) {
                        break ;
                    }
                    self.iter.next();
                    proof {
                        self.iter.lemma_bounds();
                    }
                },
                None => {
                    break ;
                },
            }
        }
        let end = self.iter.index();
        Token::Whitespace(self.string.substring_char(start, end))
    }

    /// Scans a bare word whose first character was just taken: up to a
    /// quote character or whitespace.
    pub fn next_word(&mut self) -> (r: Token<'a>)
        requires
            old(self).wf(),
        ensures
            final(self).wf(),
            final(self).text() == old(self).text(),
            ({
                let s = old(self).text();
                let p = old(self).pos();
                let start = if p > 0 {
                    p - 1
                } else {
                    0
                };
                r@ == Lexeme::Word(s.subrange(start, word_end(s, p))) && final(self).pos()
                    == word_end(s, p)
            }),
            r is Value,
    {
        let ghost s = self.text();
        let p = self.iter.index();
        let start = if p > 0 {
            p - 1
        } else {
            0
        };
        proof {
            self.iter.lemma_bounds();
            lemma_word_end(s, p as int);
        }
        loop
            invariant
                self.wf(),
                self.text() == s,
                p <= self.pos() <= s.len(),
                word_end(s, self.pos()) == word_end(s, p as int),
            ensures
                self.wf(),
                self.text() == s,
                self.pos() == word_end(s, p as int),
            decreases s.len() - self.pos(),
        {
            match self.iter.peek() {
                Some(c) => {
                    if Quote::from_char(c).is_some() || is_whitespace(c) {
                        break ;
                    }
                    self.iter.next();
                    proof {
                        self.iter.lemma_bounds();
                    }
                },
                None => {
                    break ;
                },
            }
        }
        let end = self.iter.index();
        Token::Value(Value::Word(self.string.substring_char(start, end)))
    }
}

} // verus!

use crate::common::Common;
use crate::quote::{is_quote_char, quote_of, Quote};
use crate::scan::{
    key_end, lemma_key_end, lemma_string_end, lemma_word_end, lemma_ws_end, string_end, word_end,
    ws_end,
};
use crate::text::{is_space, is_whitespace, utf8_len};
use crate::token::Token;
use crate::value::{Lexeme, Value};
use vstd::prelude::*;
use vstd::string::StrSliceExecFns;

verus! {

/// What an item of the assignment stream is, as characters.
pub enum VarModel {
    IncompletePair(Seq<char>),
    Pair(Seq<char>, Lexeme),
    UnexpectedChar(char),
    Whitespace(Seq<char>),
}

/// An item of the assignment stream.
#[derive(Clone, Copy, Debug, PartialEq, Eq)]
pub enum Var<'a> {
    /// A key followed by whitespace or the end of the input instead of a
    /// value.
    IncompletePair(&'a str),
    /// A key and its value.
    Pair(&'a str, Value<'a>),
    /// A quote character where a key or `=` was expected.
    UnexpectedChar(char),
    /// A run of whitespace.
    Whitespace(&'a str),
}

impl<'a> View for Var<'a> {
    type V = VarModel;

    open spec fn view(&self) -> VarModel {
        match self {
            Var::IncompletePair(k) => VarModel::IncompletePair(k@),
            Var::Pair(k, v) => VarModel::Pair(k@, v@),
            Var::UnexpectedChar(c) => VarModel::UnexpectedChar(*c),
            Var::Whitespace(s) => VarModel::Whitespace(s@),
        }
    }
}

/// The view of an optional item.
pub open spec fn var_opt_view(r: Option<Var>) -> Option<VarModel> {
    match r {
        Some(v) => Some(v@),
        None => None,
    }
}

/// One step of the assignment tokenizer at position `p` of `s`: the item
/// it yields, the position after it, and whether the stream stops with an
/// error.
pub open spec fn var_step(s: Seq<char>, p: int) -> (Option<VarModel>, int, bool) {
    if p >= s.len() {
        (None, p, false)
    } else if is_quote_char(s[p]) {
        (Some(VarModel::UnexpectedChar(s[p])), p + 1, true)
    } else if is_space(s[p]) {
        let e = ws_end(s, p + 1);
        (Some(VarModel::Whitespace(s.subrange(p, e))), e, false)
    } else {
        let k = key_end(s, p + 1);
        let key = s.subrange(p, k);
        if k >= s.len() {
            (None, k, false)
        } else if s[k] == '=' {
            if k + 1 >= s.len() {
                (Some(VarModel::IncompletePair(key)), k + 1, true)
            } else if is_quote_char(s[k + 1]) {
                let q = s[k + 1];
                let j = string_end(s, q, k + 2);
                if j < s.len() {
                    (
                        Some(VarModel::Pair(key, Lexeme::Quoted(quote_of(q), s.subrange(k + 2, j)))),
                        j + 1,
                        false,
                    )
                } else {
                    (
                        Some(
                            VarModel::Pair(
                                key,
                                Lexeme::IncompleteQuoted(quote_of(q), s.subrange(k + 2, s.len() as int)),
                            ),
                        ),
                        s.len() as int,
                        false,
                    )
                }
            } else if is_space(s[k + 1]) {
                (Some(VarModel::IncompletePair(key)), k + 2, true)
            } else {
                let w = word_end(s, k + 2);
                (Some(VarModel::Pair(key, Lexeme::Word(s.subrange(k + 1, w)))), w, false)
            }
        } else if is_space(s[k]) {
            (Some(VarModel::IncompletePair(key)), k, true)
        } else {
            (Some(VarModel::UnexpectedChar(s[k])), k + 1, true)
        }
    }
}

/// A step never moves backwards or past the end.
pub proof fn lemma_var_step(s: Seq<char>, p: int)
    requires
        0 <= p <= s.len(),
    ensures
        p <= var_step(s, p).1 <= s.len(),
        var_step(s, p).0 is Some ==> p < var_step(s, p).1,
{
    if p < s.len() {
        lemma_ws_end(s, p + 1);
        lemma_key_end(s, p + 1);
        let k = key_end(s, p + 1);
        if k + 2 <= s.len() {
            lemma_word_end(s, k + 2);
            lemma_string_end(s, s[k + 1], k + 2);
        }
    }
}

/// The assignment tokenizer: yields the `KEY=value` pairs and whitespace
/// that precede a command. After an `IncompletePair` or an
/// `UnexpectedChar` it yields nothing more.
#[derive(Clone, Debug)]
pub struct Vars<'a> {
    iter: Common<'a>,
    error: bool,
}

impl<'a> Var<'a> {
    /// Whether this is a key without a value.
    pub fn is_incomplete(&self) -> (r: bool)
        ensures
            r == self@ is IncompletePair,
    {
        match self {
            Var::IncompletePair(_) => true,
            _ => false,
        }
    }

    /// Whether this is whitespace.
    pub fn is_whitespace(&self) -> (r: bool)
        ensures
            r == self@ is Whitespace,
    {
        match self {
            Var::Whitespace(_) => true,
            _ => false,
        }
    }
}

impl<'a> Vars<'a> {
    /// The characters being tokenized.
    pub closed spec fn text(&self) -> Seq<char> {
        self.iter.text()
    }

    /// The position of the next character.
    pub closed spec fn pos(&self) -> int {
        self.iter.pos()
    }

    /// Whether the stream stopped on an error.
    pub closed spec fn failed(&self) -> bool {
        self.error
    }

    pub closed spec fn wf(&self) -> bool {
        self.iter.wf()
    }

    pub proof fn lemma_bounds(&self)
        requires
            self.wf(),
        ensures
            0 <= self.pos() <= self.text().len(),
    {
        self.iter.lemma_bounds();
    }

    /// Starts tokenizing `string`.
    pub fn new(string: &'a str) -> (r: Self)
        ensures
            r.wf(),
            r.text() == string@,
            r.pos() == 0,
            !r.failed(),
    {
        let iter = Common::new(string);
        Self { iter, error: false }
    }

    /// The number of bytes consumed so far.
    pub fn offset(&self) -> (r: usize)
        requires
            self.wf(),
        ensures
            r == utf8_len(self.text().take(self.pos())),
    {
        self.iter.offset()
    }

    /// The number of characters consumed so far.
    pub fn index(&self) -> (r: usize)
        requires
            self.wf(),
        ensures
            r == self.pos(),
            r <= self.text().len(),
    {
        self.iter.index()
    }

    /// Scans a key whose first character was just taken: up to a quote
    /// character, `=` or whitespace.
    fn next_word(&mut self) -> (r: &'a str)
        requires
            old(self).wf(),
            old(self).pos() > 0,
        ensures
            final(self).wf(),
            final(self).text() == old(self).text(),
            final(self).failed() == old(self).failed(),
            r@ == old(self).text().subrange(
                old(self).pos() - 1,
                key_end(old(self).text(), old(self).pos()),
            ),
            final(self).pos() == key_end(old(self).text(), old(self).pos()),
    {
        let ghost s = self.text();
        proof {
            self.iter.lemma_bounds();
        }
        let p = self.iter.index();
        let start = p - 1;
        proof {
            lemma_key_end(s, p as int);
        }
        loop
            invariant
                self.wf(),
                self.text() == s,
                self.failed() == old(self).failed(),
                p <= self.pos() <= s.len(),
                key_end(s, self.pos()) == key_end(s, p as int),
            ensures
                self.wf(),
                self.text() == s,
                self.failed() == old(self).failed(),
                self.pos() == key_end(s, p as int),
            decreases s.len() - self.pos(),
        {
            match self.iter.peek() {
                Some(c) => {
                    if Quote::from_char(c).is_some() || c == '=' || is_whitespace(c) {
                        break ;
                    }
                    self.iter.next();
                    proof {
                        self.iter.lemma_bounds();
                    }
                },
                None => {
                    break ;
                },
            }
        }
        let end = self.iter.index();
        self.iter.source().substring_char(start, end)
    }

    /// Scans a pair whose first key character was just taken.
    fn next_pair(&mut self) -> (r: Option<Var<'a>>)
        requires
            old(self).wf(),
            !old(self).failed(),
            0 < old(self).pos() <= old(self).text().len(),
            !is_quote_char(old(self).text()[old(self).pos() - 1]),
            !is_space(old(self).text()[old(self).pos() - 1]),
        ensures
            final(self).wf(),
            final(self).text() == old(self).text(),
            ({
                let st = var_step(old(self).text(), old(self).pos() - 1);
                var_opt_view(r) == st.0 && final(self).pos() == st.1 && final(self).failed()
                    == st.2
            }),
    {
        let ghost s = self.text();
        let key = self.next_word();
        proof {
            self.iter.lemma_bounds();
        }
        if self.iter.is_at_end() {
            return None;
        }
        let character = match self.iter.peek() {
            Some(c) => c,
            None => {
                return None;
            },
        };
        if character == '=' {
            self.iter.next();
            let value = match self.iter.next() {
                Some(c) => c,
                None => {
                    self.error = true;
                    return Some(Var::IncompletePair(key));
                },
            };
            let token = match Quote::from_char(value) {
                Some(quote) => self.iter.next_string(quote),
                None => {
                    if is_whitespace(value) {
                        self.error = true;
                        return Some(Var::IncompletePair(key));
                    }
                    self.iter.next_word()
                },
            };
            match token {
                Token::Value(val) => Some(Var::Pair(key, val)),
                Token::Whitespace(_) => None,
            }
        } else if is_whitespace(character) {
            self.error = true;
            Some(Var::IncompletePair(key))
        } else {
            self.iter.next();
            self.error = true;
            Some(Var::UnexpectedChar(character))
        }
    }

    /// The next item, which starts at the position; `None` at the end of
    /// the input, once the stream has stopped on an error, and where the
    /// input ends in a bare key.
    pub fn next(&mut self) -> (r: Option<Var<'a>>)
        requires
            old(self).wf(),
        ensures
            final(self).wf(),
            final(self).text() == old(self).text(),
            old(self).failed() ==> r is None && final(self).pos() == old(self).pos()
                && final(self).failed(),
            !old(self).failed() ==> ({
                let st = var_step(old(self).text(), old(self).pos());
                var_opt_view(r) == st.0 && final(self).pos() == st.1 && final(self).failed()
                    == st.2
            }),
    {
        if self.error {
            return None;
        }
        proof {
            self.iter.lemma_bounds();
        }
        let character = match self.iter.next() {
            Some(c) => c,
            None => {
                return None;
            },
        };
        if Quote::from_char(character).is_some() {
            self.error = true;
            return Some(Var::UnexpectedChar(character));
        }
        if is_whitespace(character) {
            match self.iter.next_whitespace() {
                Token::Whitespace(string) => Some(Var::Whitespace(string)),
                Token::Value(_) => None,
            }
        } else {
            self.next_pair()
        }
    }
}

} // verus!

//! A small lexer for shell input: identifiers, whitespace, quoted strings
//! and the punctuation `=`, newline and `;`.
use crate::edit::push_char;
use crate::text::{chars_of, is_space, is_whitespace};
use vstd::prelude::*;
use vstd::string::StrSliceExecFns;

verus! {

/// A lexeme of the input. Quoted lexemes hold their opening and closing
/// characters.
#[derive(Clone, Copy, Debug, Eq, Ord, PartialEq, PartialOrd)]
pub enum Lexme<'input> {
    Equals,
    Newline,
    Semicolon,
    Backtick(&'input str),
    DoubleQuote(&'input str),
    Ident(&'input str),
    Quote(&'input str),
    Space(&'input str),
}

/// What a lexeme is, as characters.
pub enum LexmeModel {
    Equals,
    Newline,
    Semicolon,
    Backtick(Seq<char>),
    DoubleQuote(Seq<char>),
    Ident(Seq<char>),
    Quote(Seq<char>),
    Space(Seq<char>),
}

impl<'input> View for Lexme<'input> {
    type V = LexmeModel;

    open spec fn view(&self) -> LexmeModel {
        match self {
            Lexme::Equals => LexmeModel::Equals,
            Lexme::Newline => LexmeModel::Newline,
            Lexme::Semicolon => LexmeModel::Semicolon,
            Lexme::Backtick(s) => LexmeModel::Backtick(s@),
            Lexme::DoubleQuote(s) => LexmeModel::DoubleQuote(s@),
            Lexme::Ident(s) => LexmeModel::Ident(s@),
            Lexme::Quote(s) => LexmeModel::Quote(s@),
            Lexme::Space(s) => LexmeModel::Space(s@),
        }
    }
}

/// A character that may start an identifier.
pub open spec fn ident_start(c: char) -> bool {
    ('a' <= c && c <= 'z') || ('A' <= c && c <= 'Z') || c == '_'
}

/// A character that may continue an identifier.
pub open spec fn ident_cont(c: char) -> bool {
    ident_start(c) || ('0' <= c && c <= '9')
}

/// Where a run ends that starts at `i`: at the first character that is not
/// an identifier character (`ident`), not whitespace (`space`), or that is
/// `term` (otherwise); at the length of `s` when there is none.
pub open spec fn run_end(s: Seq<char>, i: int, ident: bool, space: bool, term: char) -> int
    decreases s.len() - i,
{
    if 0 <= i < s.len() && !(if ident {
        !ident_cont(s[i])
    } else if space {
        !is_space(s[i])
    } else {
        s[i] == term
    }) {
        run_end(s, i + 1, ident, space, term)
    } else {
        i
    }
}

pub proof fn lemma_run_end(s: Seq<char>, i: int, ident: bool, space: bool, term: char)
    requires
        0 <= i <= s.len(),
    ensures
        i <= run_end(s, i, ident, space, term) <= s.len(),
    decreases s.len() - i,
{
    if i < s.len() && !(if ident {
        !ident_cont(s[i])
    } else if space {
        !is_space(s[i])
    } else {
        s[i] == term
    }) {
        lemma_run_end(s, i + 1, ident, space, term);
    }
}

/// The character that closes a quoted lexeme opened by `c`: a backtick or
/// a double quote closes itself; a single quote runs to a backslash.
pub open spec fn closer(c: char) -> char {
    if c == '\'' {
        '\\'
    } else {
        c
    }
}

/// One step of the lexer at position `i` of `s`: the lexeme, and the
/// position after it. No lexeme comes at the end of the input, at a
/// character that starts none, or where an identifier, a run of whitespace
/// or a quoted lexeme reaches the end of the input.
pub open spec fn lex_step(s: Seq<char>, i: int) -> (Option<LexmeModel>, int) {
    if i < 0 || i >= s.len() {
        (None, i)
    } else {
        let c = s[i];
        if c == '=' {
            (Some(LexmeModel::Equals), i + 1)
        } else if c == '\n' {
            (Some(LexmeModel::Newline), i + 1)
        } else if c == ';' {
            (Some(LexmeModel::Semicolon), i + 1)
        } else if c == '`' || c == '\'' || c == '"' {
            let j = run_end(s, i + 1, false, false, closer(c));
            if j < s.len() {
                let t = s.subrange(i, j + 1);
                (
                    Some(
                        if c == '`' {
                            LexmeModel::Backtick(t)
                        } else if c == '"' {
                            LexmeModel::DoubleQuote(t)
                        } else {
                            LexmeModel::Quote(t)
                        },
                    ),
                    j + 1,
                )
            } else {
                (None, s.len() as int)
            }
        } else if ident_start(c) || is_space(c) {
            let j = run_end(s, i + 1, ident_start(c), !ident_start(c), ' ');
            if j < s.len() {
                let t = s.subrange(i, j);
                (
                    Some(
                        if ident_start(c) {
                            LexmeModel::Ident(t)
                        } else {
                            LexmeModel::Space(t)
                        },
                    ),
                    j,
                )
            } else {
                (None, s.len() as int)
            }
        } else {
            (None, i)
        }
    }
}

/// The view of an optional lexeme.
pub open spec fn lexme_opt_view(r: Option<Lexme>) -> Option<LexmeModel> {
    match r {
        Some(l) => Some(l@),
        None => None,
    }
}

/// The text of a lexeme as it is shown: quoted lexemes in green, `=` in
/// red, everything else as it stands.
pub open spec fn lexme_display(l: LexmeModel) -> Seq<char> {
    match l {
        LexmeModel::Equals => "\x1b[38;5;1m=\x1b[m"@,
        LexmeModel::Newline => seq!['\n'],
        LexmeModel::Semicolon => seq![';'],
        LexmeModel::Backtick(s) => "\x1b[38;5;2m"@ + s + "\x1b[m"@,
        LexmeModel::DoubleQuote(s) => "\x1b[38;5;2m"@ + s + "\x1b[m"@,
        LexmeModel::Quote(s) => "\x1b[38;5;2m"@ + s + "\x1b[m"@,
        LexmeModel::Ident(s) => s,
        LexmeModel::Space(s) => s,
    }
}

impl<'input> Lexme<'input> {
    /// The lexeme as it is shown (see `lexme_display`).
    pub fn to_string(&self) -> (r: String)
        ensures
            r@ == lexme_display(self@),
    {
        let mut out = String::new();
        match self {
            Lexme::Equals => out.append("\x1b[38;5;1m=\x1b[m"),
            Lexme::Newline => push_char(&mut out, '\n'),
            Lexme::Semicolon => push_char(&mut out, ';'),
            Lexme::Backtick(string) | Lexme::Quote(string) | Lexme::DoubleQuote(string) => {
                out.append("\x1b[38;5;2m");
                out.append(string);
                out.append("\x1b[m");
            },
            Lexme::Ident(string) | Lexme::Space(string) => out.append(string),
        }
        proof {
            assert(Seq::<char>::empty() + seq!['\n'] =~= seq!['\n']);
            assert(Seq::<char>::empty() + seq![';'] =~= seq![';']);
        }
        out
    }
}

/// The lexer: yields the lexemes of a string one per call of `next`.
#[derive(Clone, Debug)]
pub struct Lexer<'input> {
    input: &'input str,
    chars: Vec<char>,
    pos: usize,
}

impl<'input> Lexer<'input> {
    /// The characters being lexed.
    pub closed spec fn text(&self) -> Seq<char> {
        self.chars@
    }

    /// The position of the next character.
    pub closed spec fn position(&self) -> int {
        self.pos as int
    }

    pub closed spec fn wf(&self) -> bool {
        self.chars@ == self.input@ && self.pos <= self.chars@.len()
    }

    /// Starts lexing `input`.
    pub fn new(input: &'input str) -> (r: Self)
        ensures
            r.wf(),
            r.text() == input@,
            r.position() == 0,
    {
        Self { input, chars: chars_of(input), pos: 0 }
    }

    /// Steps over characters from `from` up to the end of the run (see
    /// `run_end`) and returns its end.
    fn run(&self, from: usize, ident: bool, space: bool, term: char) -> (r: usize)
        requires
            self.wf(),
            from <= self.text().len(),
        ensures
            r == run_end(self.text(), from as int, ident, space, term),
            from <= r <= self.text().len(),
    {
        let ghost s = self.text();
        let mut j = from;
        proof {
            lemma_run_end(s, from as int, ident, space, term);
        }
        while j < self.chars.len()
            invariant
                self.wf(),
                from <= j <= s.len(),
                s == self.text(),
                run_end(s, j as int, ident, space, term) == run_end(s, from as int, ident, space, term),
            ensures
                from <= j <= s.len(),
                j == run_end(s, from as int, ident, space, term),
            decreases s.len() - j,
        {
            let c = self.chars[j];
            let stop = if ident {
                !(('a' <= c && c <= 'z') || ('A' <= c && c <= 'Z') || c == '_' || ('0' <= c && c <= '9'))
            } else if space {
                !is_whitespace(c)
            } else {
                c == term
            };
            if stop {
                break ;
            }
            j = j + 1;
        }
        j
    }

    /// The next lexeme (see `lex_step`).
    pub fn next(&mut self) -> (r: Option<Lexme<'input>>)
        requires
            old(self).wf(),
        ensures
            final(self).wf(),
            final(self).text() == old(self).text(),
            ({
                let st = lex_step(old(self).text(), old(self).position());
                lexme_opt_view(r) == st.0 && final(self).position() == st.1
            }),
    {
        let len = self.chars.len();
        if self.pos >= len {
            return None;
        }
        let i = self.pos;
        let c = self.chars[i];
        if c == '=' {
            self.pos = i + 1;
            Some(Lexme::Equals)
        } else if c == '\n' {
            self.pos = i + 1;
            Some(Lexme::Newline)
        } else if c == ';' {
            self.pos = i + 1;
            Some(Lexme::Semicolon)
        } else if c == '`' || c == '\'' || c == '"' {
            let term = if c == '\'' {
                '\\'
            } else {
                c
            };
            let j = self.run(i + 1, false, false, term);
            if j < len {
                self.pos = j + 1;
                let t = self.input.substring_char(i, j + 1);
                Some(
                    if c == '`' {
                        Lexme::Backtick(t)
                    } else if c == '"' {
                        Lexme::DoubleQuote(t)
                    } else {
                        Lexme::Quote(t)
                    },
                )
            } else {
                self.pos = len;
                None
            }
        } else {
            let ident = ('a' <= c && c <= 'z') || ('A' <= c && c <= 'Z') || c == '_';
            if ident || is_whitespace(c) {
                let j = self.run(i + 1, ident, !ident, ' ');
                if j < len {
                    self.pos = j;
                    let t = self.input.substring_char(i, j);
                    Some(
                        if ident {
                            Lexme::Ident(t)
                        } else {
                            Lexme::Space(t)
                        },
                    )
                } else {
                    self.pos = len;
                    None
                }
            } else {
                None
            }
        }
    }
}

} // verus!

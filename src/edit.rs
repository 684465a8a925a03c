use crate::args::{tokenize, Arg};
use crate::chars::Chars;
use crate::command::{Command, CommandError};
use crate::quote::{is_quote_char, quote_of, Quote};
use crate::scan::lexemes;
use crate::text::{chars_of, is_space, is_whitespace};
use crate::value::{lexeme_quote, Lexeme};
use vstd::prelude::*;
use vstd::string::StrSliceExecFns;
use vstd::utf8::encode_utf8;

verus! {

/// Relies on `String::push`: it appends one character to the string.
#[verifier::external_body]
pub(crate) fn push_char(s: &mut String, c: char)
    ensures
        final(s)@ == old(s)@.push(c),
{
    s.push(c)
}

/// A string that holds the characters of `v`.
pub(crate) fn string_of(v: &Vec<char>) -> (r: String)
    ensures
        r@ == v@,
{
    let mut out = String::new();
    let mut i: usize = 0;
    while i < v.len()
        invariant
            i <= v@.len(),
            out@ == v@.take(i as int),
        decreases v@.len() - i,
    {
        push_char(&mut out, v[i]);
        i = i + 1;
        assert(out@ =~= v@.take(i as int));
    }
    assert(v@.take(i as int) =~= v@);
    out
}

/// The last lexeme of `s`, if it has any.
pub open spec fn last_lexeme(s: Seq<char>) -> Option<Lexeme> {
    if lexemes(s).len() > 0 {
        Some(lexemes(s).last())
    } else {
        None
    }
}

/// The last item of `s`, if it has any.
fn last_arg<'b>(s: &'b str) -> (r: Option<Arg<'b>>)
    ensures
        r matches Some(a) ==> last_lexeme(s@) == Some(a@),
        r is None ==> last_lexeme(s@) is None,
{
    let items = tokenize(s);
    proof {
        assert(items@.len() == lexemes(s@).len());
    }
    if items.len() == 0 {
        None
    } else {
        proof {
            assert(items@.map_values(|a: Arg<'b>| a@)[items@.len() - 1] == items@[items@.len()
                - 1]@);
        }
        Some(items[items.len() - 1])
    }
}

/// `t` with `ch` put at position `c`.
pub open spec fn put(t: Seq<char>, c: int, ch: char) -> Seq<char> {
    t.take(c) + seq![ch] + t.skip(c)
}

/// Typing `ch` at position `c` of `t`: the text and the position after it.
///
/// A quote character right before the same quote character, where the text
/// before the position ends in a value quoted with it, steps over the
/// existing one. Whitespace next to a whitespace item on the left or a
/// whitespace character on the right is dropped. Anything else is put in.
pub open spec fn typed(t: Seq<char>, c: int, ch: char) -> (Seq<char>, int) {
    let left = t.take(c);
    if is_quote_char(ch) {
        if (last_lexeme(left) matches Some(l) && lexeme_quote(l) == Some(quote_of(ch))) && c
            < t.len() && t[c] == ch {
            (t, c + 1)
        } else {
            (put(t, c, ch), c + 1)
        }
    } else if is_space(ch) {
        if (last_lexeme(left) matches Some(l) && l is Whitespace) || (c < t.len() && is_space(
            t[c],
        )) {
            (t, c)
        } else {
            (put(t, c, ch), c + 1)
        }
    } else {
        (put(t, c, ch), c + 1)
    }
}

/// Typing each character of `s` in turn, starting at position `c` of `t`.
pub open spec fn typed_all(t: Seq<char>, c: int, s: Seq<char>) -> (Seq<char>, int)
    decreases s.len(),
{
    if s.len() == 0 {
        (t, c)
    } else {
        let p = typed_all(t, c, s.drop_last());
        typed(p.0, p.1, s.last())
    }
}

/// One backward deletion at position `c` of `t`: the character before the
/// position goes.
pub open spec fn deleted(t: Seq<char>, c: int) -> (Seq<char>, int) {
    if c > 0 {
        (t.remove(c - 1), c - 1)
    } else {
        (t, 0)
    }
}

/// A backspace at position `c` of `t`: between two equal quote characters
/// both go, otherwise the character before the position goes.
pub open spec fn backspaced(t: Seq<char>, c: int) -> (Seq<char>, int) {
    if 0 < c < t.len() && t[c - 1] == t[c] && is_quote_char(t[c]) {
        (t.remove(c).remove(c - 1), c - 1)
    } else {
        deleted(t, c)
    }
}

/// The last position before `hi` that holds a character of `set`, or -1.
pub open spec fn last_boundary(t: Seq<char>, set: Seq<char>, hi: int) -> int
    decreases hi,
{
    if hi <= 0 {
        -1
    } else if set.contains(t[hi - 1]) {
        hi - 1
    } else {
        last_boundary(t, set, hi - 1)
    }
}

/// The first position from `lo` on that holds a character of `set`, or the
/// length of `t`.
pub open spec fn first_boundary(t: Seq<char>, set: Seq<char>, lo: int) -> int
    decreases t.len() - lo,
{
    if lo < 0 || lo >= t.len() {
        t.len() as int
    } else if set.contains(t[lo]) {
        lo
    } else {
        first_boundary(t, set, lo + 1)
    }
}

/// Where a move to the previous word from position `c` lands: just after
/// the last boundary character before the character left of `c`, or at 0.
pub open spec fn prev_word_pos(t: Seq<char>, c: int, set: Seq<char>) -> int {
    if c <= 0 {
        0
    } else {
        last_boundary(t, set, c - 1) + 1
    }
}

/// Where a move to the next word from position `c` lands: just after the
/// first boundary character after the character at `c`, or at the end.
pub open spec fn next_word_pos(t: Seq<char>, c: int, set: Seq<char>) -> int {
    if c >= t.len() {
        t.len() as int
    } else {
        let j = first_boundary(t, set, c + 1);
        if j < t.len() {
            j + 1
        } else {
            t.len() as int
        }
    }
}

proof fn lemma_last_boundary(t: Seq<char>, set: Seq<char>, hi: int)
    requires
        hi <= t.len(),
    ensures
        -1 <= last_boundary(t, set, hi) < hi || (hi <= 0 && last_boundary(t, set, hi) == -1),
    decreases hi,
{
    if hi > 0 && !set.contains(t[hi - 1]) {
        lemma_last_boundary(t, set, hi - 1);
    }
}

pub(crate) proof fn lemma_first_boundary(t: Seq<char>, set: Seq<char>, lo: int)
    requires
        0 <= lo,
    ensures
        lo <= first_boundary(t, set, lo) <= t.len() || (lo > t.len() && first_boundary(t, set, lo)
            == t.len()),
    decreases t.len() - lo,
{
    if lo < t.len() && !set.contains(t[lo]) {
        lemma_first_boundary(t, set, lo + 1);
    }
}

/// A line being edited: its text and a cursor position in it. The cursor
/// counts characters, so it always lies on a character boundary, and
/// `shift` gives the number of columns between it and the end.
#[derive(Clone, Debug, PartialEq, Eq)]
pub struct Edit {
    buffer: String,
    cursor: usize,
}

impl Edit {
    /// The characters of the line.
    pub closed spec fn text(&self) -> Seq<char> {
        self.buffer@
    }

    /// The cursor position.
    pub closed spec fn cursor(&self) -> int {
        self.cursor as int
    }

    pub closed spec fn wf(&self) -> bool {
        self.cursor <= self.buffer@.len()
    }

    /// Whether this line holds `t` with the cursor at `c`.
    pub open spec fn is(&self, t: Seq<char>, c: int) -> bool {
        self.wf() && self.text() == t && self.cursor() == c
    }

    /// Creates an empty line.
    pub fn new() -> (r: Self)
        ensures
            r.is(Seq::empty(), 0),
    {
        Self { buffer: String::new(), cursor: 0 }
    }

    /// The line that holds `buffer`, with the cursor at the start.
    pub closed spec fn spec_from_string(buffer: String) -> Self {
        Edit { buffer, cursor: 0 }
    }

    /// Creates a line that holds `buffer`, with the cursor at the start.
    pub fn from_string(buffer: String) -> (r: Self)
        ensures
            r.is(buffer@, 0),
            r == Self::spec_from_string(buffer),
    {
        Self { buffer, cursor: 0 }
    }

    /// The text of the line, taken out.
    pub fn into_string(self) -> (r: String)
        ensures
            r@ == self.text(),
    {
        self.buffer
    }

    /// The text of the line.
    pub fn as_str(&self) -> (r: &str)
        ensures
            r@ == self.text(),
    {
        self.buffer.as_str()
    }

    /// The number of characters in the line.
    pub fn len(&self) -> (r: usize)
        ensures
            r == self.text().len(),
    {
        self.buffer.as_str().unicode_len()
    }

    /// Whether the line is empty.
    pub fn is_empty(&self) -> (r: bool)
        ensures
            r == (self.text().len() == 0),
    {
        self.buffer.as_str().is_empty()
    }

    /// Whether the cursor is at the start.
    pub fn is_at_start(&self) -> (r: bool)
        ensures
            r == (self.cursor() == 0),
    {
        self.cursor == 0
    }

    /// Whether the cursor is at the end.
    pub fn is_at_end(&self) -> (r: bool)
        ensures
            r == (self.cursor() == self.text().len()),
    {
        self.cursor == self.len()
    }

    /// Moves the cursor to the start.
    pub fn to_start(&mut self)
        requires
            old(self).wf(),
        ensures
            final(self).is(old(self).text(), 0),
    {
        self.cursor = 0;
    }

    /// Moves the cursor to the end.
    pub fn to_end(&mut self)
        requires
            old(self).wf(),
        ensures
            final(self).is(old(self).text(), old(self).text().len() as int),
    {
        self.cursor = self.len();
    }

    /// Moves the cursor left by `n` characters, stopping at the start.
    pub fn prev(&mut self, n: usize)
        requires
            old(self).wf(),
        ensures
            final(self).is(
                old(self).text(),
                if n <= old(self).cursor() {
                    old(self).cursor() - n
                } else {
                    0
                },
            ),
    {
        if n <= self.cursor {
            self.cursor = self.cursor - n;
        } else {
            self.cursor = 0;
        }
    }

    /// Moves the cursor right by `n` characters, stopping at the end.
    pub fn next(&mut self, n: usize)
        requires
            old(self).wf(),
        ensures
            final(self).is(
                old(self).text(),
                if old(self).cursor() + n <= old(self).text().len() {
                    old(self).cursor() + n
                } else {
                    old(self).text().len() as int
                },
            ),
    {
        let len = self.len();
        if n <= len - self.cursor {
            self.cursor = self.cursor + n;
        } else {
            self.cursor = len;
        }
    }

    /// Whether the line ends with whitespace.
    pub fn ends_with_space(&self) -> (r: bool)
        ensures
            r == (self.text().len() > 0 && is_space(self.text().last())),
    {
        match self.last_char() {
            Some(c) => is_whitespace(c),
            None => false,
        }
    }

    /// Replaces the text and moves the cursor.
    fn set(&mut self, v: &Vec<char>, cursor: usize)
        requires
            cursor <= v@.len(),
        ensures
            final(self).is(v@, cursor as int),
    {
        self.buffer = string_of(v);
        self.cursor = cursor;
    }

    /// Types one character at the cursor (see `typed`).
    pub fn insert(&mut self, character: char)
        requires
            old(self).wf(),
        ensures
            ({
                let r = typed(old(self).text(), old(self).cursor(), character);
                final(self).is(r.0, r.1)
            }),
    {
        let ghost t = self.text();
        let ghost c = self.cursor();
        let mut v = chars_of(self.buffer.as_str());
        let cursor = self.cursor;
        let start = self.start();
        let insert = match Quote::from_char(character) {
            Some(quote) => {
                let steps_over = match last_arg(start) {
                    Some(arg) => match arg.quote() {
                        Some(q) => q == quote && cursor < v.len() && v[cursor] == character,
                        None => false,
                    },
                    None => false,
                };
                if steps_over {
                    self.cursor = cursor + 1;
                    return ;
                }
                true
            },
            None => {
                if is_whitespace(character) {
                    let start_ends_with_space = match last_arg(start) {
                        Some(arg) => arg.is_whitespace(),
                        None => false,
                    };
                    let end_starts_with_space = cursor < v.len() && is_whitespace(v[cursor]);
                    !(start_ends_with_space || end_starts_with_space)
                } else {
                    true
                }
            },
        };
        if insert {
            v.insert(cursor, character);
            let n = v.len();
            assert(cursor < n);
            assert(v@ =~= put(t, c, character));
            self.set(&v, cursor + 1);
        }
    }

    /// Types each character of `string` in turn.
    pub fn insert_str(&mut self, string: &str)
        requires
            old(self).wf(),
        ensures
            ({
                let r = typed_all(old(self).text(), old(self).cursor(), string@);
                final(self).is(r.0, r.1)
            }),
    {
        let s = chars_of(string);
        let mut i: usize = 0;
        while i < s.len()
            invariant
                i <= s@.len(),
                s@ == string@,
                ({
                    let r = typed_all(old(self).text(), old(self).cursor(), s@.take(i as int));
                    self.is(r.0, r.1)
                }),
            decreases s@.len() - i,
        {
            proof {
                assert(s@.take(i + 1).drop_last() =~= s@.take(i as int));
            }
            self.insert(s[i]);
            i = i + 1;
        }
        assert(s@.take(i as int) =~= string@);
    }

    /// Deletes the character before the cursor, if there is one.
    fn remove_internal(&mut self)
        requires
            old(self).wf(),
        ensures
            ({
                let r = deleted(old(self).text(), old(self).cursor());
                final(self).is(r.0, r.1)
            }),
    {
        if self.cursor > 0 {
            let mut v = chars_of(self.buffer.as_str());
            v.remove(self.cursor - 1);
            let cursor = self.cursor - 1;
            self.set(&v, cursor);
        }
    }

    /// Deletes the character before the cursor. Between two equal quote
    /// characters, deletes both.
    pub fn remove(&mut self)
        requires
            old(self).wf(),
        ensures
            ({
                let r = backspaced(old(self).text(), old(self).cursor());
                final(self).is(r.0, r.1)
            }),
    {
        let before = self.start_chars().next_back();
        let after = self.end_chars().next();
        if let (Some(b), Some(a)) = (before, after) {
            if b == a && Quote::from_char(b).is_some() {
                self.next(1);
                self.remove_internal();
            }
        }
        self.remove_internal();
    }

    /// Moves to the previous word (see `prev_word`) and drops everything
    /// from there to the end of the line.
    pub fn remove_word(&mut self, chars: &[char])
        requires
            old(self).wf(),
        ensures
            ({
                let c = prev_word_pos(old(self).text(), old(self).cursor(), chars@);
                final(self).is(old(self).text().take(c), c)
            }),
    {
        self.prev_word(chars);
        self.remove_end();
    }

    /// Drops everything from the cursor to the end of the line.
    pub fn remove_end(&mut self)
        requires
            old(self).wf(),
        ensures
            final(self).is(old(self).text().take(old(self).cursor()), old(self).cursor()),
    {
        let mut v = chars_of(self.buffer.as_str());
        v.truncate(self.cursor);
        let cursor = self.cursor;
        self.set(&v, cursor);
    }

    /// Empties the line.
    pub fn clear(&mut self)
        requires
            old(self).wf(),
        ensures
            final(self).is(Seq::empty(), 0),
    {
        self.cursor = 0;
        self.buffer = String::new();
    }

    /// Drops everything from the cursor on; the cursor stays at the end.
    pub fn clear_end(&mut self)
        requires
            old(self).wf(),
        ensures
            final(self).is(old(self).text().take(old(self).cursor()), old(self).cursor()),
    {
        self.remove_end();
        self.to_end();
    }

    /// The UTF-8 bytes of the line.
    pub fn into_bytes(self) -> (r: Vec<u8>)
        ensures
            r@ == encode_utf8(self.text()),
    {
        vstd::slice::slice_to_vec(self.buffer.as_str().as_bytes())
    }

    /// The text before the cursor.
    pub fn start(&self) -> (r: &str)
        requires
            self.wf(),
        ensures
            r@ == self.text().take(self.cursor()),
    {
        self.buffer.as_str().substring_char(0, self.cursor)
    }

    /// Parses the line as a command.
    pub fn command(&self) -> (r: Result<Command<'_>, CommandError<'_>>)
        ensures
            r matches Ok(c) && c.parses(self.text()),
    {
        Command::try_parse(self.buffer.as_str())
    }

    /// A cursor over the text before the cursor.
    pub fn start_chars(&self) -> (r: Chars<'_>)
        requires
            self.wf(),
        ensures
            r.wf(),
            r.text() == self.text().take(self.cursor()),
            r.pos() == 0,
            r.back_pos() == self.cursor(),
    {
        Chars::new(self.start())
    }

    /// The text from the cursor on.
    pub fn end(&self) -> (r: &str)
        requires
            self.wf(),
        ensures
            r@ == self.text().skip(self.cursor()),
    {
        let r = self.buffer.as_str().substring_char(self.cursor, self.len());
        assert(r@ =~= self.text().skip(self.cursor()));
        r
    }

    /// A cursor over the text from the cursor on.
    pub fn end_chars(&self) -> (r: Chars<'_>)
        requires
            self.wf(),
        ensures
            r.wf(),
            r.text() == self.text().skip(self.cursor()),
            r.pos() == 0,
            r.back_pos() == self.text().len() - self.cursor(),
    {
        Chars::new(self.end())
    }

    /// The text divided at the cursor.
    pub fn split(&self) -> (r: (&str, &str))
        requires
            self.wf(),
        ensures
            r.0@ == self.text().take(self.cursor()),
            r.1@ == self.text().skip(self.cursor()),
    {
        (self.start(), self.end())
    }

    /// The first character of the line.
    pub fn first_char(&self) -> (r: Option<char>)
        ensures
            r == (if self.text().len() > 0 {
                Some(self.text()[0])
            } else {
                None
            }),
    {
        Chars::new(self.buffer.as_str()).peek()
    }

    /// The last character of the line.
    pub fn last_char(&self) -> (r: Option<char>)
        ensures
            r == (if self.text().len() > 0 {
                Some(self.text().last())
            } else {
                None
            }),
    {
        Chars::new(self.buffer.as_str()).next_back()
    }

    /// Moves to the next word: past the character at the cursor, then just
    /// past the first character of `chars`, or to the end.
    pub fn next_word(&mut self, chars: &[char])
        requires
            old(self).wf(),
        ensures
            final(self).is(
                old(self).text(),
                next_word_pos(old(self).text(), old(self).cursor(), chars@),
            ),
    {
        let ghost t = self.text();
        let v = chars_of(self.buffer.as_str());
        let len = v.len();
        if self.cursor >= len {
            self.cursor = len;
            return ;
        }
        let mut j: usize = self.cursor + 1;
        proof {
            lemma_first_boundary(t, chars@, j as int);
        }
        while j < len && !contains(chars, v[j])
            invariant
                v@ == t,
                len == t.len(),
                self.cursor < j <= len,
                first_boundary(t, chars@, j as int) == first_boundary(t, chars@, self.cursor + 1),
            decreases len - j,
        {
            j = j + 1;
        }
        if j < len {
            self.cursor = j + 1;
        } else {
            self.cursor = len;
        }
    }

    /// Moves to the previous word: before the character left of the
    /// cursor, then just after the last character of `chars`, or to the
    /// start.
    pub fn prev_word(&mut self, chars: &[char])
        requires
            old(self).wf(),
        ensures
            final(self).is(
                old(self).text(),
                prev_word_pos(old(self).text(), old(self).cursor(), chars@),
            ),
    {
        let ghost t = self.text();
        let v = chars_of(self.buffer.as_str());
        if self.cursor == 0 {
            return ;
        }
        let mut hi: usize = self.cursor - 1;
        while hi > 0 && !contains(chars, v[hi - 1])
            invariant
                v@ == t,
                hi < self.cursor <= t.len(),
                last_boundary(t, chars@, hi as int) == last_boundary(t, chars@, self.cursor - 1),
            decreases hi,
        {
            hi = hi - 1;
        }
        self.cursor = hi;
    }

    /// How far the cursor stands from the end of the line.
    pub fn shift(&self) -> (r: usize)
        requires
            self.wf(),
        ensures
            r == self.text().len() - self.cursor(),
    {
        self.len() - self.cursor
    }
}

/// Whether `chars` holds `c`.
fn contains(chars: &[char], c: char) -> (r: bool)
    ensures
        r == chars@.contains(c),
{
    let mut i: usize = 0;
    while i < chars.len()
        invariant
            i <= chars@.len(),
            forall|k: int| 0 <= k < i ==> chars@[k] != c,
        decreases chars@.len() - i,
    {
        if chars[i] == c {
            return true;
        }
        i = i + 1;
    }
    false
}

impl Default for Edit {
    fn default() -> (r: Self)
        ensures
            r.is(Seq::empty(), 0),
    {
        Self::new()
    }
}

impl From<String> for Edit {
    fn from(buffer: String) -> (r: Self) {
        Self::from_string(buffer)
    }
}

impl vstd::std_specs::convert::FromSpecImpl<String> for Edit {
    open spec fn obeys_from_spec() -> bool {
        true
    }

    open spec fn from_spec(v: String) -> Self {
        Edit::spec_from_string(v)
    }
}

} // verus!

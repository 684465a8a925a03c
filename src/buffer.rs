use crate::edit::{deleted, first_boundary, last_boundary, lemma_first_boundary, prev_word_pos, string_of};
use crate::text::chars_of;
use vstd::prelude::*;
use vstd::string::StrSliceExecFns;
use vstd::utf8::encode_utf8;

verus! {

/// Where a move to the whitespace on the right from position `c` lands:
/// just past the first space at or after `c`, or at the end.
pub open spec fn space_right_pos(t: Seq<char>, c: int) -> int {
    let j = first_boundary(t, seq![' '], c);
    if j < t.len() {
        j + 1
    } else {
        t.len() as int
    }
}

/// A plain line buffer with a cursor column: characters are put in as they
/// come, with no rule for quotes or whitespace.
#[derive(Clone, Debug, PartialEq, Eq)]
pub struct Buffer {
    buffer: String,
    column: usize,
}

impl Buffer {
    /// The characters of the line.
    pub closed spec fn text(&self) -> Seq<char> {
        self.buffer@
    }

    /// The cursor column.
    pub closed spec fn col(&self) -> int {
        self.column as int
    }

    pub closed spec fn wf(&self) -> bool {
        self.column <= self.buffer@.len()
    }

    /// Whether this buffer holds `t` with the cursor at `c`.
    pub open spec fn is(&self, t: Seq<char>, c: int) -> bool {
        self.wf() && self.text() == t && self.col() == c
    }

    /// An empty buffer.
    pub fn new() -> (r: Self)
        ensures
            r.is(Seq::empty(), 0),
    {
        Self { buffer: String::new(), column: 0 }
    }

    /// The text.
    pub fn as_str(&self) -> (r: &str)
        ensures
            r@ == self.text(),
    {
        self.buffer.as_str()
    }

    /// The number of characters.
    pub fn len(&self) -> (r: usize)
        ensures
            r == self.text().len(),
    {
        self.buffer.as_str().unicode_len()
    }

    /// Whether the buffer is empty.
    pub fn is_empty(&self) -> (r: bool)
        ensures
            r == (self.text().len() == 0),
    {
        self.buffer.as_str().is_empty()
    }

    /// Whether the text ends with a space character.
    pub fn ends_with_space(&self) -> (r: bool)
        ensures
            r == (self.text().len() > 0 && self.text().last() == ' '),
    {
        let n = self.len();
        n > 0 && self.buffer.as_str().get_char(n - 1) == ' '
    }

    /// Puts a character at the cursor and moves past it.
    pub fn insert_at_cursor(&mut self, character: char)
        requires
            old(self).wf(),
        ensures
            final(self).is(
                old(self).text().insert(old(self).col(), character),
                old(self).col() + 1,
            ),
    {
        let mut v = chars_of(self.buffer.as_str());
        v.insert(self.column, character);
        let n = v.len();
        assert(self.column < n);
        self.buffer = string_of(&v);
        self.column = self.column + 1;
    }

    /// Puts a string at the cursor and moves past it.
    pub fn insert_str_at_cursor(&mut self, string: &str)
        requires
            old(self).wf(),
        ensures
            final(self).is(
                old(self).text().take(old(self).col()) + string@ + old(self).text().skip(
                    old(self).col(),
                ),
                old(self).col() + string@.len(),
            ),
    {
        let ghost t = self.text();
        let ghost c = self.col();
        let s = chars_of(string);
        let mut v = chars_of(self.buffer.as_str());
        let mut i: usize = 0;
        while i < s.len()
            invariant
                s@ == string@,
                i <= s@.len(),
                0 <= c <= t.len(),
                v@ == t.take(c) + s@.take(i as int) + t.skip(c),
                self.column == c + i,
            decreases s@.len() - i,
        {
            let ghost before = v@;
            v.insert(self.column, s[i]);
            let n = v.len();
            assert(self.column < n);
            proof {
                let k = c + i;
                let a = t.take(c);
                let b = s@.take(i as int);
                let d = t.skip(c);
                assert(a.len() == c);
                assert(b.len() == i);
                assert(before == a + b + d);
                assert((a + b + d).take(k) =~= a + b);
                assert((a + b + d).skip(k) =~= d);
                assert(v@ =~= before.take(k) + seq![s@[i as int]] + before.skip(k));
                assert(s@.take(i + 1) =~= s@.take(i as int) + seq![s@[i as int]]);
                assert(v@ =~= t.take(c) + s@.take(i + 1) + t.skip(c));
            }
            self.column = self.column + 1;
            i = i + 1;
        }
        assert(s@.take(i as int) =~= string@);
        self.buffer = string_of(&v);
    }

    /// Deletes the character before the cursor, if there is one.
    pub fn remove_at_cursor(&mut self)
        requires
            old(self).wf(),
        ensures
            ({
                let r = deleted(old(self).text(), old(self).col());
                final(self).is(r.0, r.1)
            }),
    {
        if self.is_empty() {
            return ;
        }
        if self.column == 0 {
            return ;
        }
        let mut v = chars_of(self.buffer.as_str());
        v.remove(self.column - 1);
        self.column = self.column - 1;
        self.buffer = string_of(&v);
    }

    /// The UTF-8 bytes of the text.
    pub fn into_bytes(self) -> (r: Vec<u8>)
        ensures
            r@ == encode_utf8(self.text()),
    {
        vstd::slice::slice_to_vec(self.buffer.as_str().as_bytes())
    }

    /// Empties the buffer.
    pub fn clear(&mut self)
        requires
            old(self).wf(),
        ensures
            final(self).is(Seq::empty(), 0),
    {
        self.column = 0;
        self.buffer = String::new();
    }

    /// Whether the cursor is at the start.
    pub fn is_at_start(&self) -> (r: bool)
        ensures
            r == (self.col() == 0),
    {
        self.column == 0
    }

    /// Whether the cursor is at the end.
    pub fn is_at_end(&self) -> (r: bool)
        ensures
            r == (self.col() == self.text().len()),
    {
        self.column == self.len()
    }

    /// Moves the cursor to the start.
    pub fn move_to_start(&mut self)
        requires
            old(self).wf(),
        ensures
            final(self).is(old(self).text(), 0),
    {
        self.column = 0;
    }

    /// Moves the cursor to the end.
    pub fn move_to_end(&mut self)
        requires
            old(self).wf(),
        ensures
            final(self).is(old(self).text(), old(self).text().len() as int),
    {
        self.column = self.len();
    }

    /// Moves the cursor left by `amount`, stopping at the start.
    pub fn move_left(&mut self, amount: usize)
        requires
            old(self).wf(),
        ensures
            final(self).is(
                old(self).text(),
                if amount <= old(self).col() {
                    old(self).col() - amount
                } else {
                    0
                },
            ),
    {
        if amount <= self.column {
            self.column = self.column - amount;
        } else {
            self.column = 0;
        }
    }

    /// Moves the cursor right by `amount`, stopping at the end.
    pub fn move_right(&mut self, amount: usize)
        requires
            old(self).wf(),
        ensures
            final(self).is(
                old(self).text(),
                if old(self).col() + amount <= old(self).text().len() {
                    old(self).col() + amount
                } else {
                    old(self).text().len() as int
                },
            ),
    {
        let len = self.len();
        if amount <= len - self.column {
            self.column = self.column + amount;
        } else {
            self.column = len;
        }
    }

    /// The text before the character left of the cursor, and the text from
    /// the cursor on.
    pub fn split_at_cursor(&mut self) -> (r: (&str, &str))
        requires
            old(self).wf(),
        ensures
            *final(self) == *old(self),
            r.0@ == old(self).text().take(
                if old(self).col() > 0 {
                    old(self).col() - 1
                } else {
                    0
                },
            ),
            r.1@ == old(self).text().skip(old(self).col()),
    {
        let left_end = if self.column > 0 {
            self.column - 1
        } else {
            0
        };
        let len = self.len();
        let left = self.buffer.as_str().substring_char(0, left_end);
        let right = self.buffer.as_str().substring_char(self.column, len);
        assert(right@ =~= self.text().skip(self.col()));
        (left, right)
    }

    /// Moves the cursor just past the last space before the character left
    /// of it, or to the start.
    pub fn move_to_whitespace_left(&mut self)
        requires
            old(self).wf(),
        ensures
            final(self).is(old(self).text(), prev_word_pos(old(self).text(), old(self).col(), seq![' '])),
    {
        let ghost t = self.text();
        let v = chars_of(self.buffer.as_str());
        if self.column == 0 {
            return ;
        }
        let mut hi: usize = self.column - 1;
        while hi > 0 && v[hi - 1] != ' '
            invariant
                v@ == t,
                hi < self.column <= t.len(),
                last_boundary(t, seq![' '], hi as int) == last_boundary(t, seq![' '], self.column - 1),
            decreases hi,
        {
            assert(!seq![' '].contains(t[hi - 1])) by {
                if seq![' '].contains(t[hi - 1]) {
                    assert(seq![' '][0] == ' ');
                }
            };
            hi = hi - 1;
        }
        if hi > 0 {
            assert(seq![' '][0] == t[hi - 1]);
        }
        self.column = hi;
    }

    /// Moves the cursor just past the first space at or after it, or to the
    /// end.
    pub fn move_to_whitespace_right(&mut self)
        requires
            old(self).wf(),
        ensures
            final(self).is(old(self).text(), space_right_pos(old(self).text(), old(self).col())),
    {
        let ghost t = self.text();
        let v = chars_of(self.buffer.as_str());
        let len = v.len();
        let mut j: usize = self.column;
        proof {
            lemma_first_boundary(t, seq![' '], j as int);
        }
        while j < len && v[j] != ' '
            invariant
                v@ == t,
                len == t.len(),
                self.column <= j <= len,
                first_boundary(t, seq![' '], j as int) == first_boundary(t, seq![' '], self.column as int),
            decreases len - j,
        {
            assert(!seq![' '].contains(t[j as int])) by {
                if seq![' '].contains(t[j as int]) {
                    assert(seq![' '][0] == ' ');
                }
            };
            j = j + 1;
        }
        if j < len {
            assert(seq![' '][0] == t[j as int]);
            self.column = j + 1;
        } else {
            self.column = len;
        }
    }

    /// Moves to the whitespace on the left and drops the rest of the line.
    pub fn remove_word_at_cursor(&mut self)
        requires
            old(self).wf(),
        ensures
            ({
                let c = prev_word_pos(old(self).text(), old(self).col(), seq![' ']);
                final(self).is(old(self).text().take(c), c)
            }),
    {
        self.move_to_whitespace_left();
        self.remove_right_of_cursor();
    }

    /// Drops everything from the cursor on.
    pub fn remove_right_of_cursor(&mut self)
        requires
            old(self).wf(),
        ensures
            final(self).is(old(self).text().take(old(self).col()), old(self).col()),
    {
        let mut v = chars_of(self.buffer.as_str());
        v.truncate(self.column);
        self.buffer = string_of(&v);
    }

    /// How far the cursor stands from the end of the line.
    pub fn column_shift(&self) -> (r: usize)
        requires
            self.wf(),
        ensures
            r == self.text().len() - self.col(),
    {
        self.len() - self.column
    }
}

impl Default for Buffer {
    fn default() -> (r: Self)
        ensures
            r.is(Seq::empty(), 0),
    {
        Self::new()
    }
}

} // verus!

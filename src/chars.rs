use crate::text::{chars_of, len_utf8, lemma_utf8_len_prefix, lemma_utf8_len_push, utf8_len};
use vstd::prelude::*;
use vstd::string::StrSliceExecFns;

verus! {

/// A double-ended cursor over the characters of a string that also hands
/// out the parts of the string before and after its position.
#[derive(Clone, Debug)]
pub struct Chars<'a> {
    string: &'a str,
    chars: Vec<char>,
    offset: usize,
    byte_offset: usize,
    back: usize,
    last_offset: usize,
}

impl<'a> Chars<'a> {
    /// The characters of the underlying string.
    pub closed spec fn text(&self) -> Seq<char> {
        self.chars@
    }

    /// The underlying string.
    pub closed spec fn source(&self) -> &'a str {
        self.string
    }

    /// The position of the next character from the front.
    pub closed spec fn pos(&self) -> int {
        self.offset as int
    }

    /// The position just after the next character from the back.
    pub closed spec fn back_pos(&self) -> int {
        self.back as int
    }

    /// The position the front stood at before the last step.
    pub closed spec fn last_pos(&self) -> int {
        self.last_offset as int
    }

    pub closed spec fn wf(&self) -> bool {
        &&& self.chars@ == self.string@
        &&& self.offset <= self.back <= self.chars@.len()
        &&& self.last_offset <= self.chars@.len()
        &&& self.byte_offset == utf8_len(self.chars@.take(self.offset as int))
        &&& utf8_len(self.chars@) <= usize::MAX
    }

    /// The positions of a well-formed cursor lie within the text.
    pub proof fn lemma_bounds(&self)
        requires
            self.wf(),
        ensures
            0 <= self.pos() <= self.back_pos() <= self.text().len(),
            0 <= self.last_pos() <= self.text().len(),
    {
    }

    /// Creates a cursor at the start of `string`.
    pub fn new(string: &'a str) -> (r: Self)
        ensures
            r.wf(),
            r.text() == string@,
            r.source() == string,
            r.pos() == 0,
            r.last_pos() == 0,
            r.back_pos() == string@.len(),
    {
        let chars = chars_of(string);
        let back = chars.len();
        let total = string.as_bytes().len();
        proof {
            assert(total == utf8_len(chars@));
            assert(chars@.take(0) =~= Seq::<char>::empty());
        }
        Self { string, chars, offset: 0, byte_offset: 0, back, last_offset: 0 }
    }

    /// The byte position of the next character, or the length of the string
    /// in bytes when no character is left.
    pub fn offset(&self) -> (r: usize)
        requires
            self.wf(),
        ensures
            r == utf8_len(self.text().take(self.pos())),
    {
        self.byte_offset
    }

    /// The number of characters before the next one.
    pub fn index(&self) -> (r: usize)
        requires
            self.wf(),
        ensures
            r == self.pos(),
    {
        self.offset
    }

    /// The part of the string before the position.
    pub fn start(&self) -> (r: &'a str)
        requires
            self.wf(),
        ensures
            r@ == self.text().take(self.pos()),
    {
        self.string.substring_char(0, self.offset)
    }

    /// The part of the string from the position on.
    pub fn end(&self) -> (r: &'a str)
        requires
            self.wf(),
        ensures
            r@ == self.text().skip(self.pos()),
    {
        let r = self.string.substring_char(self.offset, self.chars.len());
        assert(r@ =~= self.text().skip(self.pos()));
        r
    }

    /// The string divided in two at the position.
    pub fn split(&self) -> (r: (&'a str, &'a str))
        requires
            self.wf(),
        ensures
            r.0@ == self.text().take(self.pos()),
            r.1@ == self.text().skip(self.pos()),
    {
        (self.start(), self.end())
    }

    /// The character that the last step from the front passed over.
    pub fn current(&self) -> (r: Option<char>)
        requires
            self.wf(),
        ensures
            r == (if self.last_pos() < self.text().len() {
                Some(self.text()[self.last_pos()])
            } else {
                None
            }),
    {
        if self.last_offset < self.chars.len() {
            Some(self.chars[self.last_offset])
        } else {
            None
        }
    }

    /// The next character, without moving.
    pub fn peek(&self) -> (r: Option<char>)
        requires
            self.wf(),
        ensures
            r == (if self.pos() < self.text().len() {
                Some(self.text()[self.pos()])
            } else {
                None
            }),
    {
        if self.offset < self.chars.len() {
            Some(self.chars[self.offset])
        } else {
            None
        }
    }

    /// The character `n` places after the next one, without moving.
    pub fn peek_nth(&self, n: usize) -> (r: Option<char>)
        requires
            self.wf(),
        ensures
            r == (if self.pos() + n < self.text().len() {
                Some(self.text()[self.pos() + n])
            } else {
                None
            }),
    {
        if n < self.chars.len() - self.offset {
            Some(self.chars[self.offset + n])
        } else {
            None
        }
    }

    /// The character just before the position, without moving.
    pub fn peek_back(&self) -> (r: Option<char>)
        requires
            self.wf(),
        ensures
            r == (if self.pos() > 0 {
                Some(self.text()[self.pos() - 1])
            } else {
                None
            }),
    {
        if self.offset > 0 {
            Some(self.chars[self.offset - 1])
        } else {
            None
        }
    }

    /// The character `n` places before the one just before the position,
    /// without moving.
    pub fn peek_nth_back(&self, n: usize) -> (r: Option<char>)
        requires
            self.wf(),
        ensures
            r == (if n < self.pos() {
                Some(self.text()[self.pos() - 1 - n])
            } else {
                None
            }),
    {
        if n < self.offset {
            Some(self.chars[self.offset - 1 - n])
        } else {
            None
        }
    }

    /// Steps over the next character from the front and returns it.
    pub fn next(&mut self) -> (r: Option<char>)
        requires
            old(self).wf(),
        ensures
            final(self).wf(),
            final(self).text() == old(self).text(),
            final(self).source() == old(self).source(),
            final(self).back_pos() == old(self).back_pos(),
            final(self).last_pos() == old(self).pos(),
            old(self).pos() < old(self).back_pos() ==> r == Some(old(self).text()[old(self).pos()])
                && final(self).pos() == old(self).pos() + 1,
            old(self).pos() >= old(self).back_pos() ==> r is None && final(self).pos() == old(
                self,
            ).pos(),
    {
        self.last_offset = self.offset;
        if self.offset < self.back {
            let c = self.chars[self.offset];
            proof {
                let t = self.chars@;
                let k = self.offset as int;
                assert(t.take(k + 1) =~= t.take(k).push(c));
                lemma_utf8_len_push(t.take(k), c);
                lemma_utf8_len_prefix(t, k + 1);
            }
            self.byte_offset = self.byte_offset + len_utf8(c);
            self.offset = self.offset + 1;
            Some(c)
        } else {
            None
        }
    }

    /// Steps over the next character from the back and returns it.
    pub fn next_back(&mut self) -> (r: Option<char>)
        requires
            old(self).wf(),
        ensures
            final(self).wf(),
            final(self).text() == old(self).text(),
            final(self).source() == old(self).source(),
            final(self).pos() == old(self).pos(),
            final(self).last_pos() == old(self).pos(),
            old(self).pos() < old(self).back_pos() ==> r == Some(
                old(self).text()[old(self).back_pos() - 1],
            ) && final(self).back_pos() == old(self).back_pos() - 1,
            old(self).pos() >= old(self).back_pos() ==> r is None && final(self).back_pos()
                == old(self).back_pos(),
    {
        let item = if self.offset < self.back {
            self.back = self.back - 1;
            Some(self.chars[self.back])
        } else {
            None
        };
        self.last_offset = self.offset;
        item
    }
}

} // verus!

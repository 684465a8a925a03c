use vstd::prelude::*;

verus! {

/// The commands entered so far, and a position for walking through them.
///
/// Position 0 stands for the line being typed. A position `p` other than
/// 0 selects the entry `|p|` places from the end of the list.
#[derive(Debug)]
pub struct History {
    history: Vec<String>,
    position: isize,
}

impl History {
    /// The entries, oldest first.
    pub closed spec fn items(&self) -> Seq<Seq<char>> {
        self.history@.map_values(|s: String| s@)
    }

    /// The position.
    pub closed spec fn pos(&self) -> int {
        self.position as int
    }

    pub closed spec fn wf(&self) -> bool {
        &&& self.history@.len() <= isize::MAX
        &&& -(self.history@.len() as int) <= self.position <= self.history@.len()
    }

    /// A history of the given entries, oldest first, at position 0.
    pub fn from_items(history: Vec<String>) -> (r: Self)
        requires
            history@.len() <= isize::MAX,
        ensures
            r.wf(),
            r.items() == history@.map_values(|s: String| s@),
            r.pos() == 0,
    {
        Self { history, position: 0 }
    }

    /// The number of entries.
    pub fn len(&self) -> (r: usize)
        ensures
            r == self.items().len(),
    {
        self.history.len()
    }

    /// The entries, oldest first.
    pub fn entries(&self) -> (r: &[String])
        ensures
            r@.map_values(|s: String| s@) == self.items(),
    {
        self.history.as_slice()
    }

    /// The position.
    pub fn position(&self) -> (r: isize)
        ensures
            r == self.pos(),
    {
        self.position
    }

    /// Appends an entry.
    pub fn push(&mut self, item: String)
        requires
            old(self).wf(),
            old(self).items().len() < isize::MAX,
        ensures
            final(self).wf(),
            final(self).items() == old(self).items().push(item@),
            final(self).pos() == old(self).pos(),
    {
        self.history.push(item);
        assert(self.history@.map_values(|s: String| s@) =~= old(self).history@.map_values(
            |s: String| s@,
        ).push(item@));
    }

    /// Moves the position up by one, to at most the number of entries.
    pub fn next(&mut self)
        requires
            old(self).wf(),
        ensures
            final(self).wf(),
            final(self).items() == old(self).items(),
            final(self).pos() == if old(self).pos() < old(self).items().len() {
                old(self).pos() + 1
            } else {
                old(self).items().len() as int
            },
    {
        let len = self.history.len() as isize;
        if self.position < len {
            self.position = self.position + 1;
        } else {
            self.position = len;
        }
    }

    /// Moves the position down by one, to at least minus the number of
    /// entries.
    pub fn next_back(&mut self)
        requires
            old(self).wf(),
        ensures
            final(self).wf(),
            final(self).items() == old(self).items(),
            final(self).pos() == if old(self).pos() > -(old(self).items().len() as int) {
                old(self).pos() - 1
            } else {
                -(old(self).items().len() as int)
            },
    {
        let len = self.history.len() as isize;
        if self.position > -len {
            self.position = self.position - 1;
        } else {
            self.position = -len;
        }
    }

    /// Moves the position back to the line being typed.
    pub fn reset(&mut self)
        requires
            old(self).wf(),
        ensures
            final(self).wf(),
            final(self).items() == old(self).items(),
            final(self).pos() == 0,
    {
        self.position = 0;
    }

    /// The entry that the position selects; `None` at position 0.
    pub fn get(&self) -> (r: Option<&String>)
        requires
            self.wf(),
        ensures
            self.pos() == 0 ==> r is None,
            self.pos() != 0 ==> (r matches Some(s) && s@ == self.items()[self.items().len() - (
            if self.pos() > 0 {
                self.pos()
            } else {
                -self.pos()
            })]),
    {
        if self.position == 0 {
            return None;
        }
        let distance: usize = if self.position > 0 {
            self.position as usize
        } else {
            (-self.position) as usize
        };
        let index = self.history.len() - distance;
        Some(&self.history[index])
    }
}

} // verus!

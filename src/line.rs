use crate::edit::push_char;
use vstd::prelude::*;

verus! {

/// The decimal digits of `n`.
pub open spec fn decimal(n: nat) -> Seq<char>
    decreases n,
{
    if n < 10 {
        seq![((n + 48) as u8) as char]
    } else {
        decimal(n / 10) + seq![(((n % 10) + 48) as u8) as char]
    }
}

/// Appends the decimal digits of `n`.
fn push_decimal(s: &mut String, n: u16)
    ensures
        final(s)@ == old(s)@ + decimal(n as nat),
    decreases n,
{
    if n >= 10 {
        push_decimal(s, n / 10);
    }
    let digit = (n % 10) as u8 + 48;
    push_char(s, digit as char);
    proof {
        if n >= 10 {
            assert(final(s)@ =~= old(s)@ + decimal(n as nat));
        } else {
            assert(final(s)@ =~= old(s)@ + decimal(n as nat));
        }
    }
}

/// A line of terminal output, built piece by piece.
pub struct Line {
    line: String,
}

impl Line {
    /// The text built so far.
    pub closed spec fn text(&self) -> Seq<char> {
        self.line@
    }

    /// An empty line.
    pub fn new() -> (r: Self)
        ensures
            r.text() == Seq::<char>::empty(),
    {
        Self { line: String::new() }
    }

    /// Adds a return to the start of the row and an erasure of the row.
    pub fn clear_line(self) -> (r: Self)
        ensures
            r.text() == self.text() + "\r\x1b[K"@,
    {
        let mut line = self.line;
        line.append("\r\x1b[K");
        Line { line }
    }

    /// Adds a switch to grey text.
    pub fn grey(self) -> (r: Self)
        ensures
            r.text() == self.text() + "\x1b[38;5;8m"@,
    {
        let mut line = self.line;
        line.append("\x1b[38;5;8m");
        Line { line }
    }

    /// Adds a switch to red text.
    pub fn red(self) -> (r: Self)
        ensures
            r.text() == self.text() + "\x1b[38;5;1m"@,
    {
        let mut line = self.line;
        line.append("\x1b[38;5;1m");
        Line { line }
    }

    /// Adds a switch back to plain text.
    pub fn reset(self) -> (r: Self)
        ensures
            r.text() == self.text() + "\x1b[m"@,
    {
        let mut line = self.line;
        line.append("\x1b[m");
        Line { line }
    }

    /// Adds `text`.
    pub fn push(self, text: &str) -> (r: Self)
        ensures
            r.text() == self.text() + text@,
    {
        let mut line = self.line;
        line.append(text);
        Line { line }
    }

    /// Adds a move of the cursor `amount` columns to the left; nothing for
    /// 0.
    pub fn move_left(self, amount: u16) -> (r: Self)
        ensures
            amount == 0 ==> r.text() == self.text(),
            amount > 0 ==> r.text() == self.text() + "\x1b["@ + decimal(amount as nat) + seq!['D'],
    {
        if amount == 0 {
            self
        } else {
            let mut line = self.line;
            line.append("\x1b[");
            push_decimal(&mut line, amount);
            push_char(&mut line, 'D');
            Line { line }
        }
    }

    /// The text built so far.
    pub fn as_str(&self) -> (r: &str)
        ensures
            r@ == self.text(),
    {
        self.line.as_str()
    }
}

} // verus!

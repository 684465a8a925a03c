//! The scanning rules of the tokenizer, stated over character sequences.
use crate::quote::{is_quote_char, quote_of};
use crate::text::is_space;
use crate::value::Lexeme;
use vstd::prelude::*;

verus! {

/// The end of the run of whitespace that starts at `i`.
pub open spec fn ws_end(s: Seq<char>, i: int) -> int
    decreases s.len() - i,
{
    if 0 <= i < s.len() && is_space(s[i]) {
        ws_end(s, i + 1)
    } else {
        i
    }
}

/// The end of the bare word that continues at `i`: it stops at a quote
/// character or at whitespace.
pub open spec fn word_end(s: Seq<char>, i: int) -> int
    decreases s.len() - i,
{
    if 0 <= i < s.len() && !is_quote_char(s[i]) && !is_space(s[i]) {
        word_end(s, i + 1)
    } else {
        i
    }
}

/// The end of an assignment key that continues at `i`: it stops at a quote
/// character, at `=` or at whitespace.
pub open spec fn key_end(s: Seq<char>, i: int) -> int
    decreases s.len() - i,
{
    if 0 <= i < s.len() && !is_quote_char(s[i]) && s[i] != '=' && !is_space(s[i]) {
        key_end(s, i + 1)
    } else {
        i
    }
}

/// Whether position `i` holds the quote `q` and closes a quoted string: the
/// character before it is not a backslash.
pub open spec fn closes(s: Seq<char>, q: char, i: int) -> bool {
    s[i] == q && !(i > 0 && s[i - 1] == '\\')
}

/// The position of the closing quote `q` at or after `i`, or the length of
/// `s` when there is none.
pub open spec fn string_end(s: Seq<char>, q: char, i: int) -> int
    decreases s.len() - i,
{
    if 0 <= i < s.len() && !closes(s, q, i) {
        string_end(s, q, i + 1)
    } else {
        i
    }
}

/// The lexeme that starts at position `i` of `s`.
pub open spec fn lexeme_at(s: Seq<char>, i: int) -> Lexeme {
    let c = s[i];
    if is_quote_char(c) {
        let j = string_end(s, c, i + 1);
        if j < s.len() {
            Lexeme::Quoted(quote_of(c), s.subrange(i + 1, j))
        } else {
            Lexeme::IncompleteQuoted(quote_of(c), s.subrange(i + 1, s.len() as int))
        }
    } else if is_space(c) {
        Lexeme::Whitespace(s.subrange(i, ws_end(s, i + 1)))
    } else {
        Lexeme::Word(s.subrange(i, word_end(s, i + 1)))
    }
}

/// Where the lexeme that starts at position `i` of `s` ends.
pub open spec fn lexeme_end(s: Seq<char>, i: int) -> int {
    let c = s[i];
    if is_quote_char(c) {
        let j = string_end(s, c, i + 1);
        if j < s.len() {
            j + 1
        } else {
            s.len() as int
        }
    } else if is_space(c) {
        ws_end(s, i + 1)
    } else {
        word_end(s, i + 1)
    }
}

/// The lexemes of `s` from position `i` on, in order.
pub open spec fn lexemes_from(s: Seq<char>, i: int) -> Seq<Lexeme>
    decreases s.len() - i,
{
    if 0 <= i < s.len() && i < lexeme_end(s, i) <= s.len() {
        seq![lexeme_at(s, i)] + lexemes_from(s, lexeme_end(s, i))
    } else {
        Seq::empty()
    }
}

/// The lexemes of `s`, in order.
pub open spec fn lexemes(s: Seq<char>) -> Seq<Lexeme> {
    lexemes_from(s, 0)
}

pub proof fn lemma_ws_end(s: Seq<char>, i: int)
    requires
        0 <= i <= s.len(),
    ensures
        i <= ws_end(s, i) <= s.len(),
        forall|k: int| i <= k < ws_end(s, i) ==> is_space(#[trigger] s[k]),
        ws_end(s, i) < s.len() ==> !is_space(s[ws_end(s, i)]),
    decreases s.len() - i,
{
    if i < s.len() && is_space(s[i]) {
        lemma_ws_end(s, i + 1);
    }
}

pub proof fn lemma_word_end(s: Seq<char>, i: int)
    requires
        0 <= i <= s.len(),
    ensures
        i <= word_end(s, i) <= s.len(),
        forall|k: int|
            i <= k < word_end(s, i) ==> !is_space(#[trigger] s[k]) && !is_quote_char(s[k]),
        word_end(s, i) < s.len() ==> is_space(s[word_end(s, i)]) || is_quote_char(
            s[word_end(s, i)],
        ),
    decreases s.len() - i,
{
    if i < s.len() && !is_quote_char(s[i]) && !is_space(s[i]) {
        lemma_word_end(s, i + 1);
    }
}

pub proof fn lemma_key_end(s: Seq<char>, i: int)
    requires
        0 <= i <= s.len(),
    ensures
        i <= key_end(s, i) <= s.len(),
    decreases s.len() - i,
{
    if i < s.len() && !is_quote_char(s[i]) && s[i] != '=' && !is_space(s[i]) {
        lemma_key_end(s, i + 1);
    }
}

pub proof fn lemma_string_end(s: Seq<char>, q: char, i: int)
    requires
        0 <= i <= s.len(),
    ensures
        i <= string_end(s, q, i) <= s.len(),
        string_end(s, q, i) < s.len() ==> closes(s, q, string_end(s, q, i)),
    decreases s.len() - i,
{
    if i < s.len() && !closes(s, q, i) {
        lemma_string_end(s, q, i + 1);
    }
}

/// A lexeme ends after it starts, within the input.
pub proof fn lemma_lexeme_end(s: Seq<char>, i: int)
    requires
        0 <= i < s.len(),
    ensures
        i < lexeme_end(s, i) <= s.len(),
{
    lemma_ws_end(s, i + 1);
    lemma_word_end(s, i + 1);
    lemma_string_end(s, s[i], i + 1);
}

} // verus!

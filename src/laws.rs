//! Properties that relate several operations of the library.
use crate::edit::{last_lexeme, put, typed, typed_all};
use crate::input::decoded;
use crate::quote::{is_quote_char, quote_char, quote_of, Quote};
use crate::command::var_items;
use crate::scan::{
    closes, key_end, lemma_key_end, lemma_lexeme_end, lemma_string_end, lemma_word_end, lexeme_at,
    lexeme_end, lexemes, lexemes_from, string_end, word_end,
};
use crate::text::is_space;
use crate::vars::{lemma_var_step, var_step, VarModel};
use crate::value::{lexeme_quote, lexeme_source, lexeme_text, Lexeme};
use vstd::prelude::*;

verus! {

/// The inputs that lexemes were read from, one after another.
pub open spec fn joined_sources(ls: Seq<Lexeme>) -> Seq<char>
    decreases ls.len(),
{
    if ls.len() == 0 {
        Seq::empty()
    } else {
        lexeme_source(ls[0]) + joined_sources(ls.drop_first())
    }
}

/// The texts of lexemes, one after another.
pub open spec fn joined_texts(ls: Seq<Lexeme>) -> Seq<char>
    decreases ls.len(),
{
    if ls.len() == 0 {
        Seq::empty()
    } else {
        lexeme_text(ls[0]) + joined_texts(ls.drop_first())
    }
}

proof fn lemma_lexeme_source(s: Seq<char>, i: int)
    requires
        0 <= i < s.len(),
    ensures
        lexeme_source(lexeme_at(s, i)) == s.subrange(i, lexeme_end(s, i)),
        !is_quote_char(s[i]) ==> lexeme_text(lexeme_at(s, i)) == lexeme_source(lexeme_at(s, i)),
{
    lemma_lexeme_end(s, i);
    let c = s[i];
    if is_quote_char(c) {
        lemma_string_end(s, c, i + 1);
        let j = string_end(s, c, i + 1);
        assert(quote_char(quote_of(c)) == c);
        if j < s.len() {
            assert(closes(s, c, j));
            assert(seq![c] + s.subrange(i + 1, j) + seq![c] =~= s.subrange(i, j + 1));
        } else {
            assert(seq![c] + s.subrange(i + 1, s.len() as int) =~= s.subrange(i, s.len() as int));
        }
    }
}

proof fn lemma_joined_from(s: Seq<char>, i: int)
    requires
        0 <= i <= s.len(),
    ensures
        joined_sources(lexemes_from(s, i)) == s.subrange(i, s.len() as int),
        (forall|k: int| i <= k < s.len() ==> !is_quote_char(#[trigger] s[k])) ==> joined_texts(
            lexemes_from(s, i),
        ) == s.subrange(i, s.len() as int),
    decreases s.len() - i,
{
    if i < s.len() {
        lemma_lexeme_end(s, i);
        lemma_lexeme_source(s, i);
        let e = lexeme_end(s, i);
        lemma_joined_from(s, e);
        let ls = lexemes_from(s, i);
        assert(ls.drop_first() =~= lexemes_from(s, e));
        assert(s.subrange(i, e) + s.subrange(e, s.len() as int) =~= s.subrange(
            i,
            s.len() as int,
        ));
    } else {
        assert(s.subrange(i, s.len() as int) =~= Seq::<char>::empty());
    }
}

/// Tokenizing loses nothing: the lexemes of `s`, each with its quotes put
/// back, make up `s` again; where `s` holds no quote character, their texts
/// (what `Arg::as_str` returns) make up `s` again.
pub proof fn lemma_tokens_reproduce_input(s: Seq<char>)
    ensures
        joined_sources(lexemes(s)) == s,
        (forall|k: int| 0 <= k < s.len() ==> !is_quote_char(#[trigger] s[k])) ==> joined_texts(
            lexemes(s),
        ) == s,
{
    lemma_joined_from(s, 0);
    assert(s.subrange(0, s.len() as int) =~= s);
}

proof fn lemma_last_lexeme_at(s: Seq<char>, i: int) -> (j: int)
    requires
        0 <= i < s.len(),
    ensures
        i <= j < s.len(),
        lexeme_end(s, j) == s.len(),
        lexemes_from(s, i).len() > 0,
        lexemes_from(s, i).last() == lexeme_at(s, j),
    decreases s.len() - i,
{
    lemma_lexeme_end(s, i);
    let e = lexeme_end(s, i);
    if e == s.len() {
        assert(lexemes_from(s, e) =~= Seq::<Lexeme>::empty());
        i
    } else {
        let j = lemma_last_lexeme_at(s, e);
        j
    }
}

proof fn lemma_space_end_is_whitespace(s: Seq<char>)
    requires
        s.len() > 0,
        is_space(s.last()),
        forall|k: int| 0 <= k < s.len() ==> !is_quote_char(#[trigger] s[k]),
    ensures
        last_lexeme(s) matches Some(l) && l is Whitespace,
{
    let j = lemma_last_lexeme_at(s, 0);
    if !is_space(s[j]) {
        lemma_word_end(s, j + 1);
        assert(!is_space(s[s.len() - 1]));
    }
}

/// Typing whitespace never puts it beside whitespace: either the text stays
/// as it was, or neither neighbour of the new character is whitespace. This
/// holds where no quote character precedes the cursor; after an open quote
/// the text before the cursor ends in a quoted value, which is no
/// whitespace item.
pub proof fn lemma_space_never_doubled(t: Seq<char>, c: int, ch: char)
    requires
        0 <= c <= t.len(),
        is_space(ch),
        forall|k: int| 0 <= k < c ==> !is_quote_char(#[trigger] t[k]),
    ensures
        typed(t, c, ch).0 == t || ((c == 0 || !is_space(t[c - 1])) && (c == t.len() || !is_space(
            t[c],
        ))),
{
    let left = t.take(c);
    if c > 0 && is_space(t[c - 1]) {
        assert(left.last() == t[c - 1]);
        lemma_space_end_is_whitespace(left);
    }
}

/// Typing a quote character just before the same quote character, where the
/// text before the cursor ends in a value quoted with it, moves the cursor
/// over the existing quote and changes no text.
pub proof fn lemma_quote_steps_over(t: Seq<char>, c: int, q: Quote)
    requires
        0 <= c < t.len(),
        last_lexeme(t.take(c)) matches Some(l) && lexeme_quote(l) == Some(q),
        t[c] == quote_char(q),
    ensures
        typed(t, c, quote_char(q)) == (t, c + 1),
{
    assert(quote_of(quote_char(q)) == q);
}

/// Byte sequences that the terminal sends for no key decode to no event:
/// the empty sequence, any of five bytes or of seven to eleven bytes, any
/// of three, four or six bytes that does not open with `ESC [`, and a paste
/// that is never closed.
pub proof fn lemma_unknown_sequences(b: Seq<u8>)
    ensures
        (b.len() == 0 || b.len() == 5 || (7 <= b.len() < 12)) ==> decoded(b) is None,
        ((b.len() == 3 || b.len() == 4 || b.len() == 6) && !(b[0] == 0x1b && b[1] == 0x5b))
            ==> decoded(b) is None,
        (b.len() >= 12 && b.skip(b.len() - 6) != crate::input::paste_close()) ==> decoded(
            b,
        ) is None,
{
    if b.len() == 4 && !(b[0] == 0x1b && b[1] == 0x5b) {
        assert(!(b =~= seq![0x1bu8, 0x5bu8, 0x33u8, 0x7eu8]));
    }
    if b.len() == 6 && !(b[0] == 0x1b && b[1] == 0x5b) {
        assert(b.take(5)[0] == b[0]);
        assert(b.take(5)[1] == b[1]);
        assert(!(b.take(5) =~= seq![0x1bu8, 0x5bu8, 0x31u8, 0x3bu8, 0x35u8]));
    }
}

/// Whether no two neighbouring characters of `t` are both whitespace.
pub open spec fn no_double_space(t: Seq<char>) -> bool {
    forall|k: int| 0 <= k < t.len() - 1 ==> !(is_space(#[trigger] t[k]) && is_space(t[k + 1]))
}

/// Whether `t` holds no quote character.
pub open spec fn quote_free(t: Seq<char>) -> bool {
    forall|k: int| 0 <= k < t.len() ==> !is_quote_char(#[trigger] t[k])
}

proof fn lemma_put_keeps_single_spaces(t: Seq<char>, c: int, ch: char)
    requires
        0 <= c <= t.len(),
        no_double_space(t),
        quote_free(t),
        !is_quote_char(ch),
        is_space(ch) ==> (c == 0 || !is_space(t[c - 1])) && (c == t.len() || !is_space(t[c])),
    ensures
        no_double_space(put(t, c, ch)),
        quote_free(put(t, c, ch)),
        put(t, c, ch).len() == t.len() + 1,
{
    let u = put(t, c, ch);
    assert(u.len() == t.len() + 1);
    assert forall|k: int| 0 <= k < u.len() implies u[k] == (if k < c {
        t[k]
    } else if k == c {
        ch
    } else {
        t[k - 1]
    }) by {}
    assert forall|k: int| 0 <= k < u.len() - 1 implies !(is_space(#[trigger] u[k]) && is_space(
        u[k + 1],
    )) by {
        if k + 1 < c {
            assert(!(is_space(t[k]) && is_space(t[k + 1])));
        } else if k > c {
            assert(!(is_space(t[k - 1]) && is_space(t[k])));
        }
    }
}

proof fn lemma_typed_keeps_single_spaces(t: Seq<char>, c: int, ch: char)
    requires
        0 <= c <= t.len(),
        no_double_space(t),
        quote_free(t),
        !is_quote_char(ch),
    ensures
        no_double_space(typed(t, c, ch).0),
        quote_free(typed(t, c, ch).0),
        0 <= typed(t, c, ch).1 <= typed(t, c, ch).0.len(),
{
    if is_space(ch) {
        lemma_space_never_doubled(t, c, ch);
        if typed(t, c, ch).0 != t {
            lemma_put_keeps_single_spaces(t, c, ch);
        }
    } else {
        lemma_put_keeps_single_spaces(t, c, ch);
    }
}

/// Typing text without quote characters into a line without quote
/// characters and without doubled whitespace never doubles whitespace: a
/// run of whitespace typed in, or typed next to whitespace, stays a single
/// character.
pub proof fn lemma_typing_keeps_single_spaces(t: Seq<char>, c: int, s: Seq<char>)
    requires
        0 <= c <= t.len(),
        no_double_space(t),
        quote_free(t),
        quote_free(s),
    ensures
        no_double_space(typed_all(t, c, s).0),
        quote_free(typed_all(t, c, s).0),
        0 <= typed_all(t, c, s).1 <= typed_all(t, c, s).0.len(),
    decreases s.len(),
{
    if s.len() > 0 {
        let init = s.drop_last();
        assert(quote_free(init));
        lemma_typing_keeps_single_spaces(t, c, init);
        let p = typed_all(t, c, init);
        lemma_typed_keeps_single_spaces(p.0, p.1, s.last());
    }
}

/// The input that an item of the assignment stream was read from, as far
/// as the item shows it: a pair with its `=` and its value's quotes.
pub open spec fn var_source(v: VarModel) -> Seq<char> {
    match v {
        VarModel::IncompletePair(k) => k,
        VarModel::Pair(k, l) => k + seq!['='] + lexeme_source(l),
        VarModel::UnexpectedChar(c) => seq![c],
        VarModel::Whitespace(t) => t,
    }
}

/// The inputs of items of the assignment stream, one after another.
pub open spec fn joined_var_sources(vs: Seq<VarModel>) -> Seq<char>
    decreases vs.len(),
{
    if vs.len() == 0 {
        Seq::empty()
    } else {
        var_source(vs[0]) + joined_var_sources(vs.drop_first())
    }
}

/// Whether an item ends the assignment stream with an error.
pub open spec fn is_var_error(v: VarModel) -> bool {
    v is IncompletePair || v is UnexpectedChar
}

proof fn lemma_var_source(s: Seq<char>, p: int)
    requires
        0 <= p < s.len(),
        var_step(s, p).0 matches Some(v) && !is_var_error(v),
    ensures
        var_source(var_step(s, p).0->0) == s.subrange(p, var_step(s, p).1),
{
    lemma_var_step(s, p);
    lemma_key_end(s, p + 1);
    let k = key_end(s, p + 1);
    if !is_quote_char(s[p]) && !is_space(s[p]) && k + 1 < s.len() && s[k] == '=' {
        let q = s[k + 1];
        if is_quote_char(q) {
            lemma_string_end(s, q, k + 2);
            let j = string_end(s, q, k + 2);
            assert(quote_char(quote_of(q)) == q);
            if j < s.len() {
                assert(closes(s, q, j));
                assert(s.subrange(p, k) + seq!['='] + (seq![q] + s.subrange(k + 2, j) + seq![q])
                    =~= s.subrange(p, j + 1));
            } else {
                assert(s.subrange(p, k) + seq!['='] + (seq![q] + s.subrange(k + 2, s.len() as int))
                    =~= s.subrange(p, s.len() as int));
            }
        } else if !is_space(q) {
            lemma_word_end(s, k + 2);
            let w = word_end(s, k + 2);
            assert(s.subrange(p, k) + seq!['='] + s.subrange(k + 1, w) =~= s.subrange(p, w));
        }
    }
}

proof fn lemma_vars_prefix_from(s: Seq<char>, p: int)
    requires
        0 <= p <= s.len(),
        forall|i: int| 0 <= i < var_items(s, p).len() ==> !is_var_error(#[trigger] var_items(s, p)[i]),
    ensures
        joined_var_sources(var_items(s, p)).is_prefix_of(s.subrange(p, s.len() as int)),
    decreases s.len() - p,
{
    lemma_var_step(s, p);
    let st = var_step(s, p);
    if let Some(v) = st.0 {
        let items = var_items(s, p);
        assert(items[0] == v);
        assert(!is_var_error(v));
        if !st.2 && p < st.1 <= s.len() {
            let rest = var_items(s, st.1);
            assert(items.drop_first() =~= rest);
            assert forall|i: int| 0 <= i < rest.len() implies !is_var_error(#[trigger] rest[i]) by {
                assert(rest[i] == items[i + 1]);
            }
            lemma_vars_prefix_from(s, st.1);
            lemma_var_source(s, p);
            let tail = joined_var_sources(rest);
            assert(tail.is_prefix_of(s.subrange(st.1, s.len() as int)));
            assert(joined_var_sources(items) == s.subrange(p, st.1) + tail);
            assert forall|i: int| 0 <= i < joined_var_sources(items).len() implies joined_var_sources(
                items,
            )[i] == s.subrange(p, s.len() as int)[i] by {
                if i >= st.1 - p {
                    assert(tail[i - (st.1 - p)] == s.subrange(st.1, s.len() as int)[i - (st.1 - p)]);
                }
            }
        } else {
            assert(st.2 ==> is_var_error(v));
        }
    }
}

/// The items of the assignment stream, each with what it was read from,
/// reproduce the start of the input, where the stream meets no error. An
/// error item (`IncompletePair`, `UnexpectedChar`) does not show all that
/// it consumed, and a bare key at the end of the input yields no item.
pub proof fn lemma_vars_reproduce_prefix(s: Seq<char>)
    requires
        forall|i: int| 0 <= i < var_items(s, 0).len() ==> !is_var_error(#[trigger] var_items(s, 0)[i]),
    ensures
        joined_var_sources(var_items(s, 0)).is_prefix_of(s),
{
    lemma_vars_prefix_from(s, 0);
    assert(s.subrange(0, s.len() as int) =~= s);
}

} // verus!

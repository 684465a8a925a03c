use crate::args::{Arg, Args};
use crate::quote::Quote;
use crate::scan::{lemma_lexeme_end, lexeme_at, lexeme_end, lexemes, lexemes_from};
use crate::value::{Lexeme, Value};
use crate::text::{lemma_utf8_len_prefix, utf8_len};
use crate::vars::{lemma_var_step, var_step, Var, VarModel, Vars};
use vstd::prelude::*;
use vstd::string::StrSliceExecFns;

verus! {

/// Whether an assignment is kept by the command parser: a pair whose value
/// is complete.
pub open spec fn kept_var(v: VarModel) -> bool {
    match v {
        VarModel::Pair(_, l) => !(l is IncompleteQuoted),
        _ => false,
    }
}

/// The assignments kept from position `p` of `s` on, and the position just
/// after the last of them (`off` when there is none).
pub open spec fn scan_vars(s: Seq<char>, p: int, off: int) -> (Seq<VarModel>, int)
    decreases s.len() - p,
{
    let st = var_step(s, p);
    match st.0 {
        None => (Seq::empty(), off),
        Some(v) => {
            if st.2 || !(p < st.1 <= s.len()) {
                (Seq::empty(), off)
            } else {
                let off2 = if kept_var(v) {
                    st.1
                } else {
                    off
                };
                let rest = scan_vars(s, st.1, off2);
                (
                    if kept_var(v) {
                        seq![v] + rest.0
                    } else {
                        rest.0
                    },
                    rest.1,
                )
            }
        },
    }
}

/// The assignments that a command line starts with.
pub open spec fn command_vars(s: Seq<char>) -> Seq<VarModel> {
    scan_vars(s, 0, 0).0
}

/// Where the assignments that a command line starts with end.
pub open spec fn command_offset(s: Seq<char>) -> int {
    scan_vars(s, 0, 0).1
}

/// The values among lexemes, in order: the lexemes without whitespace.
pub open spec fn values_of(ls: Seq<Lexeme>) -> Seq<Lexeme>
    decreases ls.len(),
{
    if ls.len() == 0 {
        Seq::empty()
    } else {
        let v = values_of(ls.drop_last());
        if ls.last() is Whitespace {
            v
        } else {
            v.push(ls.last())
        }
    }
}

/// The program and the arguments of a command line, in order.
pub open spec fn command_values(s: Seq<char>) -> Seq<Lexeme> {
    values_of(lexemes(s.subrange(command_offset(s), s.len() as int)))
}

/// The program of a command line: its first value, or an empty word.
pub open spec fn command_program(s: Seq<char>) -> Lexeme {
    let vals = command_values(s);
    if vals.len() == 0 {
        Lexeme::Word(Seq::empty())
    } else {
        vals[0]
    }
}

/// The arguments of a command line: the values after the program.
pub open spec fn command_args(s: Seq<char>) -> Seq<Lexeme> {
    let vals = command_values(s);
    if vals.len() == 0 {
        Seq::empty()
    } else {
        vals.drop_first()
    }
}

/// Why a command line could not be parsed.
#[derive(Clone, Copy, Debug, PartialEq, Eq)]
pub enum CommandError<'a> {
    IncompleteVar(Quote, &'a str),
    IncompleteArg(Quote, &'a str),
}

/// A parsed command line: `(KEY=VALUE)* PROGRAM ARG*`.
#[derive(Clone, Debug, PartialEq, Eq)]
pub struct Command<'a> {
    /// The leading assignments, each a `Var::Pair` with a complete value.
    pub vars: Vec<Var<'a>>,
    /// The program; an empty word when the line holds no value.
    pub program: Arg<'a>,
    /// The values after the program.
    pub args: Vec<Arg<'a>>,
    /// The byte position where the leading assignments end.
    pub offset: usize,
}

impl<'a> Command<'a> {
    /// Whether this command is the parse of `s`.
    pub open spec fn parses(&self, s: Seq<char>) -> bool {
        &&& self.vars@.map_values(|v: Var<'a>| v@) == command_vars(s)
        &&& self.offset == utf8_len(s.take(command_offset(s)))
        &&& self.program@ == command_program(s)
        &&& self.args@.map_values(|a: Arg<'a>| a@) == command_args(s)
    }

    /// Parses a command line. Assignments whose value is cut short, and
    /// whatever follows an assignment that is malformed, are left to the
    /// program and its arguments; so the parse always succeeds.
    pub fn try_parse(string: &'a str) -> (r: Result<Self, CommandError<'a>>)
        ensures
            r matches Ok(c) && c.parses(string@),
    {
        let ghost s = string@;
        let mut iter = Vars::new(string);
        let mut offset: usize = 0;
        let mut vars: Vec<Var<'a>> = Vec::new();
        let ghost total = scan_vars(s, 0, 0);
        loop
            invariant
                iter.wf(),
                iter.text() == s,
                0 <= iter.pos() <= s.len(),
                offset <= s.len(),
                iter.failed() ==> vars@.map_values(|v: Var<'a>| v@) == total.0 && offset
                    == total.1,
                !iter.failed() ==> vars@.map_values(|v: Var<'a>| v@) + scan_vars(
                    s,
                    iter.pos(),
                    offset as int,
                ).0 == total.0 && scan_vars(s, iter.pos(), offset as int).1 == total.1,
            ensures
                vars@.map_values(|v: Var<'a>| v@) == total.0,
                offset == total.1,
                offset <= s.len(),
            decreases s.len() - iter.pos(), if iter.failed() {
                0int
            } else {
                1int
            },
        {
            let ghost p = iter.pos();
            let ghost was_failed = iter.failed();
            proof {
                lemma_var_step(s, p);
            }
            let ghost old_vars = vars@;
            match iter.next() {
                Some(var) => {
                    proof {
                        iter.lemma_bounds();
                    }
                    let keep = match var {
                        Var::Pair(_, Value::IncompleteQuoted(_, _)) => false,
                        Var::Pair(_, _) => true,
                        _ => false,
                    };
                    if keep {
                        offset = iter.index();
                        vars.push(var);
                        proof {
                            assert(vars@.map_values(|v: Var<'a>| v@) =~= old_vars.map_values(
                                |v: Var<'a>| v@,
                            ).push(var@));
                            assert(seq![var@] + scan_vars(s, iter.pos(), offset as int).0
                                =~= scan_vars(s, p, offset as int).0) by {
                                if !iter.failed() {
                                    assert(scan_vars(s, p, offset as int).0 == seq![var@]
                                        + scan_vars(s, iter.pos(), offset as int).0);
                                }
                            };
                        }
                    }
                },
                None => {
                    break ;
                },
            }
        }
        let rest = string.substring_char(offset, string.unicode_len());
        let ghost t = rest@;
        let mut iter = Args::new(rest);
        let mut args: Vec<Arg<'a>> = Vec::new();
        let ghost mut seen: Seq<Lexeme> = Seq::empty();
        loop
            invariant
                iter.wf(),
                iter.text() == t,
                0 <= iter.pos() <= t.len(),
                seen + lexemes_from(t, iter.pos()) == lexemes(t),
                args@.map_values(|a: Arg<'a>| a@) == values_of(seen),
            ensures
                args@.map_values(|a: Arg<'a>| a@) == values_of(lexemes(t)),
            decreases t.len() - iter.pos(),
        {
            let ghost p = iter.pos();
            proof {
                if p < t.len() {
                    lemma_lexeme_end(t, p);
                }
            }
            match iter.next() {
                Some(arg) => {
                    proof {
                        assert(lexemes_from(t, p) == seq![lexeme_at(t, p)] + lexemes_from(
                            t,
                            lexeme_end(t, p),
                        ));
                        assert(seen.push(arg@) + lexemes_from(t, lexeme_end(t, p)) =~= seen
                            + lexemes_from(t, p));
                        assert(seen.push(arg@).drop_last() =~= seen);
                    }
                    if arg.is_value() {
                        args.push(arg);
                        proof {
                            assert(args@.map_values(|a: Arg<'a>| a@) =~= values_of(seen).push(
                                arg@,
                            ));
                        }
                    }
                    proof {
                        seen = seen.push(arg@);
                    }
                },
                None => {
                    assert(lexemes_from(t, p) =~= Seq::<Lexeme>::empty());
                    assert(seen + lexemes_from(t, p) =~= seen);
                    break ;
                },
            }
        }
        assert(t == s.subrange(offset as int, s.len() as int));
        let ghost vals = args@.map_values(|a: Arg<'a>| a@);
        assert(vals == command_values(s));
        let program = if args.len() == 0 {
            let empty = "";
            proof {
                reveal_strlit("");
            }
            assert(vals.len() == 0);
            assert(empty@ =~= Seq::<char>::empty());
            Arg::Value(Value::Word(empty))
        } else {
            let ghost before = args@;
            let p = args.remove(0);
            proof {
                assert(p@ == vals[0]);
                assert(args@.map_values(|a: Arg<'a>| a@) =~= before.map_values(|a: Arg<'a>| a@).drop_first());
            }
            p
        };
        assert(program@ == command_program(s));
        assert(args@.map_values(|a: Arg<'a>| a@) =~= command_args(s));
        assert(vars@.map_values(|v: Var<'a>| v@) == command_vars(s));
        assert(offset == command_offset(s));
        let total = string.as_bytes().len();
        let tail = rest.as_bytes().len();
        proof {
            lemma_utf8_len_prefix(s, offset as int);
            assert(t =~= s.skip(offset as int));
        }
        let offset = total - tail;
        Ok(Command { program, args, vars, offset })
    }
}

/// Parses a command line; see `Command::try_parse`.
pub fn parse_command<'a>(input: &'a str) -> (r: Command<'a>)
    ensures
        r.parses(input@),
{
    match Command::try_parse(input) {
        Ok(command) => command,
        Err(_) => {
            let vars: Vec<Var<'a>> = Vec::new();
            Command { vars, program: Arg::Value(Value::Word("")), args: Vec::new(), offset: 0 }
        },
    }
}

/// The items that the assignment tokenizer yields from position `p` of `s`
/// on, in order.
pub open spec fn var_items(s: Seq<char>, p: int) -> Seq<VarModel>
    decreases s.len() - p,
{
    let st = var_step(s, p);
    match st.0 {
        None => Seq::empty(),
        Some(v) => {
            if !st.2 && p < st.1 <= s.len() {
                seq![v] + var_items(s, st.1)
            } else {
                seq![v]
            }
        },
    }
}

/// The items of the assignment stream of `input`, in order.
pub fn tokenize_vars<'a>(input: &'a str) -> (r: Vec<Var<'a>>)
    ensures
        r@.map_values(|v: Var<'a>| v@) == var_items(input@, 0),
{
    let ghost s = input@;
    let mut iter = Vars::new(input);
    let mut out: Vec<Var<'a>> = Vec::new();
    loop
        invariant
            iter.wf(),
            iter.text() == s,
            0 <= iter.pos() <= s.len(),
            iter.failed() ==> out@.map_values(|v: Var<'a>| v@) == var_items(s, 0),
            !iter.failed() ==> out@.map_values(|v: Var<'a>| v@) + var_items(s, iter.pos())
                == var_items(s, 0),
        ensures
            out@.map_values(|v: Var<'a>| v@) == var_items(s, 0),
        decreases s.len() - iter.pos(), if iter.failed() {
            0int
        } else {
            1int
        },
    {
        let ghost p = iter.pos();
        proof {
            lemma_var_step(s, p);
        }
        let ghost before = out@;
        match iter.next() {
            Some(var) => {
                proof {
                    iter.lemma_bounds();
                }
                out.push(var);
                proof {
                    assert(out@.map_values(|v: Var<'a>| v@) =~= before.map_values(|v: Var<'a>| v@).push(var@));
                    if iter.failed() {
                        assert(var_items(s, p) == seq![var@]);
                    } else {
                        assert(var_items(s, p) == seq![var@] + var_items(s, iter.pos()));
                    }
                    assert(before.map_values(|v: Var<'a>| v@).push(var@) + var_items(s, iter.pos())
                        =~= before.map_values(|v: Var<'a>| v@) + (seq![var@] + var_items(s, iter.pos())));
                    assert(before.map_values(|v: Var<'a>| v@).push(var@)
                        =~= before.map_values(|v: Var<'a>| v@) + seq![var@]);
                }
            },
            None => {
                proof {
                    if !iter.failed() {
                        assert(var_items(s, p) =~= Seq::<VarModel>::empty());
                        assert(out@.map_values(|v: Var<'a>| v@) + var_items(s, p) =~= out@.map_values(|v: Var<'a>| v@));
                    }
                }
                break ;
            },
        }
    }
    out
}

} // verus!

use elysh::{is_whitespace, parse_command, tokenize, tokenize_vars, Arg, Args, Chars, Command, Quote, Token, Value, Var, Vars};

#[test]
fn empty_command_has_empty_program() {
    let command = parse_command("");
    assert!(command.vars.is_empty());
    assert!(command.args.is_empty());
    assert_eq!(command.program, Arg::Value(Value::Word("")));
    assert_eq!(command.offset, 0);
}

#[test]
fn command_with_quoted_var() {
    let command = parse_command("KEY=\"1\" ls -aFhl");
    assert_eq!(command.vars, vec![Var::Pair("KEY", Value::Quoted(Quote::DoubleQuote, "1"))]);
    assert_eq!(command.program, Arg::Value(Value::Word("ls")));
    assert_eq!(command.args, vec![Arg::Value(Value::Word("-aFhl"))]);
    assert_eq!(command.offset, 7);
}

#[test]
fn command_with_unterminated_var_value() {
    let command = parse_command("KEY=\"1 ls -aFhl");
    assert!(command.vars.is_empty());
    assert_eq!(command.offset, 0);
    assert_eq!(command.program, Arg::Value(Value::Word("KEY=")));
    assert_eq!(
        command.args,
        vec![Arg::Value(Value::IncompleteQuoted(Quote::DoubleQuote, "1 ls -aFhl"))]
    );
}

#[test]
fn command_try_parse_succeeds() {
    let command = Command::try_parse("A=b C='d e' echo \"x\" y");
    let command = match command {
        Ok(command) => command,
        Err(_) => panic!("parse failed"),
    };
    assert_eq!(
        command.vars,
        vec![
            Var::Pair("A", Value::Word("b")),
            Var::Pair("C", Value::Quoted(Quote::Quote, "d e")),
        ]
    );
    assert_eq!(command.offset, 11);
    assert_eq!(command.program, Arg::Value(Value::Word("echo")));
    assert_eq!(
        command.args,
        vec![Arg::Value(Value::Quoted(Quote::DoubleQuote, "x")), Arg::Value(Value::Word("y"))]
    );
}

#[test]
fn command_without_vars() {
    let command = parse_command("  ls  -l ");
    assert!(command.vars.is_empty());
    assert_eq!(command.program, Arg::Value(Value::Word("ls")));
    assert_eq!(command.args, vec![Arg::Value(Value::Word("-l"))]);
}

#[test]
fn incomplete_pair_stops_vars() {
    let command = parse_command("A=1 B C=2 cmd");
    assert_eq!(command.vars, vec![Var::Pair("A", Value::Word("1"))]);
    assert_eq!(command.offset, 3);
    assert_eq!(command.program, Arg::Value(Value::Word("B")));
    assert_eq!(
        command.args,
        vec![Arg::Value(Value::Word("C=2")), Arg::Value(Value::Word("cmd"))]
    );
}

#[test]
fn tokens_reproduce_input_without_quotes() {
    for input in ["", "a", "  ls -l  /tmp ", "x\ty\nz", "é ü ☃"] {
        let mut joined = String::new();
        for arg in tokenize(input) {
            joined.push_str(arg.as_str());
        }
        assert_eq!(joined, input);
    }
}

#[test]
fn tokenize_splits_values_and_whitespace() {
    let args = tokenize("echo \"a b\" 'c");
    assert_eq!(
        args,
        vec![
            Arg::Value(Value::Word("echo")),
            Arg::Whitespace(" "),
            Arg::Value(Value::Quoted(Quote::DoubleQuote, "a b")),
            Arg::Whitespace(" "),
            Arg::Value(Value::IncompleteQuoted(Quote::Quote, "c")),
        ]
    );
}

#[test]
fn escaped_quote_does_not_close() {
    let args = tokenize("\"a\\\"b\"");
    assert_eq!(args, vec![Arg::Value(Value::Quoted(Quote::DoubleQuote, "a\\\"b"))]);
}

#[test]
fn args_iterator_tracks_offset() {
    let mut args = Args::new("ab  c");
    assert_eq!(args.next(), Some(Arg::Value(Value::Word("ab"))));
    assert_eq!(args.offset(), 2);
    assert_eq!(args.next(), Some(Arg::Whitespace("  ")));
    assert_eq!(args.offset(), 4);
    assert_eq!(args.next(), Some(Arg::Value(Value::Word("c"))));
    assert_eq!(args.next(), None);
    assert_eq!(args.offset(), 5);
}

#[test]
fn vars_stream_items() {
    let vars = tokenize_vars("A=1  B=`x` cmd");
    assert_eq!(
        vars,
        vec![
            Var::Pair("A", Value::Word("1")),
            Var::Whitespace("  "),
            Var::Pair("B", Value::Quoted(Quote::Backtick, "x")),
            Var::Whitespace(" "),
        ]
    );
}

#[test]
fn vars_unexpected_quote_stops_stream() {
    let mut vars = Vars::new("'a' B=1");
    assert_eq!(vars.next(), Some(Var::UnexpectedChar('\'')));
    assert_eq!(vars.next(), None);
    assert_eq!(vars.offset(), 1);
}

#[test]
fn vars_key_then_quote_is_unexpected() {
    let vars = tokenize_vars("KEY\"x\"");
    assert_eq!(vars, vec![Var::UnexpectedChar('"')]);
}

#[test]
fn vars_incomplete_pairs() {
    assert_eq!(tokenize_vars("A= b"), vec![Var::IncompletePair("A")]);
    assert_eq!(tokenize_vars("A="), vec![Var::IncompletePair("A")]);
    assert_eq!(tokenize_vars("A b"), vec![Var::IncompletePair("A")]);
    assert!(Var::IncompletePair("A").is_incomplete());
    assert!(Var::Whitespace(" ").is_whitespace());
}

#[test]
fn value_accessors() {
    let quoted = Value::Quoted(Quote::Backtick, "x");
    assert_eq!(quoted.as_str(), "x");
    assert_eq!(quoted.quote(), Some(Quote::Backtick));
    assert!(quoted.is_quoted());
    assert!(!quoted.is_incomplete());
    let word = Value::Word("w");
    assert_eq!(word.quote(), None);
    assert!(!word.is_quoted());
    assert!(Value::IncompleteQuoted(Quote::Quote, "").is_incomplete());
}

#[test]
fn token_and_arg_accessors() {
    let token = Token::Whitespace("  ");
    assert!(token.is_whitespace());
    assert!(!token.is_value());
    assert_eq!(token.as_str(), "  ");
    let arg = Arg::Value(Value::IncompleteQuoted(Quote::DoubleQuote, "ab"));
    assert!(arg.is_value());
    assert!(arg.is_incomplete());
    assert_eq!(arg.quote(), Some(Quote::DoubleQuote));
    assert_eq!(arg.as_str(), "ab");
}

#[test]
fn quote_round_trip() {
    for quote in [Quote::Backtick, Quote::DoubleQuote, Quote::Quote] {
        assert_eq!(Quote::from_char(quote.as_char()), Some(quote));
    }
    assert_eq!(Quote::from_char('a'), None);
}

#[test]
fn whitespace_matches_std() {
    for code in 0u32..=0x10ffff {
        if let Some(c) = char::from_u32(code) {
            assert_eq!(is_whitespace(c), c.is_whitespace(), "{code:x}");
        }
    }
}

#[test]
fn chars_cursor_moves_both_ways() {
    let mut chars = Chars::new("aé c");
    assert_eq!(chars.peek(), Some('a'));
    assert_eq!(chars.next(), Some('a'));
    assert_eq!(chars.peek_back(), Some('a'));
    assert_eq!(chars.peek_nth(1), Some(' '));
    assert_eq!(chars.offset(), 1);
    assert_eq!(chars.split(), ("a", "é c"));
    assert_eq!(chars.next_back(), Some('c'));
    assert_eq!(chars.next(), Some('é'));
    assert_eq!(chars.current(), Some('é'));
    assert_eq!(chars.peek_nth_back(1), Some('a'));
    assert_eq!(chars.next(), Some(' '));
    assert_eq!(chars.next(), None);
    assert_eq!(chars.start(), "aé ");
    assert_eq!(chars.end(), "c");
}

#[test]
fn vars_reproduce_input_start() {
    let input = "A=1  B='x y' C=\"z\" cmd";
    let mut joined = String::new();
    for var in tokenize_vars(input) {
        match var {
            Var::Pair(key, value) => {
                joined.push_str(key);
                joined.push('=');
                match value.quote() {
                    Some(quote) => {
                        joined.push(quote.as_char());
                        joined.push_str(value.as_str());
                        if !value.is_incomplete() {
                            joined.push(quote.as_char());
                        }
                    }
                    None => joined.push_str(value.as_str()),
                }
            }
            Var::Whitespace(space) => joined.push_str(space),
            _ => panic!("error item"),
        }
    }
    assert_eq!(joined, "A=1  B='x y' C=\"z\" ");
    assert!(input.starts_with(&joined));
}

#[test]
fn offsets_count_bytes() {
    let command = parse_command("É=1 ls");
    assert_eq!(command.offset, 4);
    assert_eq!(command.vars, vec![Var::Pair("É", Value::Word("1"))]);
    let mut args = Args::new("é x");
    assert_eq!(args.next(), Some(Arg::Value(Value::Word("é"))));
    assert_eq!(args.offset(), 2);
    assert_eq!(args.index(), 1);
    let mut vars = Vars::new("ü=☃");
    assert_eq!(vars.next(), Some(Var::Pair("ü", Value::Word("☃"))));
    assert_eq!(vars.offset(), "ü=☃".len());
    let mut chars = Chars::new("☃a");
    chars.next();
    assert_eq!(chars.offset(), 3);
    assert_eq!(chars.index(), 1);
    for c in ['a', 'é', '☃', '😀'] {
        assert_eq!(elysh::len_utf8(c), c.len_utf8());
    }
}

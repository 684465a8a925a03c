use elysh::{Lexer, Lexme, Line};

fn lex_all(input: &str) -> Vec<Lexme<'_>> {
    let mut lexer = Lexer::new(input);
    let mut out = Vec::new();
    while let Some(lexme) = lexer.next() {
        out.push(lexme);
    }
    out
}

#[test]
fn lexer_punctuation_and_idents() {
    assert_eq!(
        lex_all("a=b;c"),
        vec![Lexme::Ident("a"), Lexme::Equals, Lexme::Ident("b"), Lexme::Semicolon]
    );
}

#[test]
fn lexer_quotes_and_space() {
    assert_eq!(
        lex_all("x \"y\" `z`\n"),
        vec![
            Lexme::Ident("x"),
            Lexme::Space(" "),
            Lexme::DoubleQuote("\"y\""),
            Lexme::Space(" "),
            Lexme::Backtick("`z`"),
            Lexme::Newline,
        ]
    );
    assert_eq!(lex_all("'a\\b"), vec![Lexme::Quote("'a\\")]);
    assert_eq!(lex_all("\"open"), vec![]);
    assert_eq!(lex_all("1"), vec![]);
}

#[test]
fn lexme_strings() {
    assert_eq!(Lexme::Equals.to_string(), "\x1b[38;5;1m=\x1b[m");
    assert_eq!(Lexme::DoubleQuote("\"a\"").to_string(), "\x1b[38;5;2m\"a\"\x1b[m");
    assert_eq!(Lexme::Ident("ab").to_string(), "ab");
    assert_eq!(Lexme::Newline.to_string(), "\n");
    assert_eq!(Lexme::Semicolon.to_string(), ";");
}

#[test]
fn line_builds_escape_sequences() {
    let line = Line::new().clear_line().red().push("x").reset().grey().move_left(12);
    assert_eq!(line.as_str(), "\r\x1b[K\x1b[38;5;1mx\x1b[m\x1b[38;5;8m\x1b[12D");
    assert_eq!(Line::new().move_left(0).as_str(), "");
    assert_eq!(Line::new().move_left(65535).as_str(), "\x1b[65535D");
}

use elysh::Edit;

const WORD_CHARS: &[char] = &['/', ' '];

fn edit_of(text: &str) -> Edit {
    Edit::from_string(String::from(text))
}

#[test]
fn insert_str_collapses_spaces() {
    let mut edit = Edit::new();
    edit.insert_str("  hello   world  ");
    assert_eq!(edit.as_str(), " hello world ");
    edit.insert(' ');
    edit.insert(' ');
    assert_eq!(edit.as_str(), " hello world ");
    assert!(edit.is_at_end());
}

#[test]
fn space_not_inserted_before_space() {
    let mut edit = edit_of("a b");
    edit.next(1);
    edit.insert(' ');
    assert_eq!(edit.as_str(), "a b");
    assert_eq!(edit.shift(), 2);
}

#[test]
fn prev_word_moves_to_word_starts() {
    let mut edit = edit_of("foo bar");
    edit.to_end();
    edit.prev_word(&['/', ' ']);
    assert_eq!(edit.shift(), 3);
    edit.prev_word(&['/', ' ']);
    assert!(edit.is_at_start());
}

#[test]
fn next_word_moves_past_boundaries() {
    let mut edit = edit_of("foo bar/baz");
    edit.next_word(WORD_CHARS);
    assert_eq!(edit.shift(), 7);
    edit.next_word(WORD_CHARS);
    assert_eq!(edit.shift(), 3);
    edit.next_word(WORD_CHARS);
    assert!(edit.is_at_end());
}

#[test]
fn quote_steps_over_closing_quote() {
    let mut edit = edit_of("\"abc\"");
    edit.next(4);
    edit.insert('"');
    assert_eq!(edit.as_str(), "\"abc\"");
    assert!(edit.is_at_end());
}

#[test]
fn typed_quotes_are_inserted() {
    let mut edit = Edit::new();
    edit.insert_str("\"ab\"");
    assert_eq!(edit.as_str(), "\"ab\"");
    let mut edit = edit_of("x'");
    edit.next(1);
    edit.insert('"');
    assert_eq!(edit.as_str(), "x\"'");
}

#[test]
fn remove_deletes_before_cursor() {
    let mut edit = edit_of("abc");
    edit.next(2);
    edit.remove();
    assert_eq!(edit.as_str(), "ac");
    assert_eq!(edit.shift(), 1);
    edit.to_start();
    edit.remove();
    assert_eq!(edit.as_str(), "ac");
}

#[test]
fn remove_deletes_quote_pair() {
    let mut edit = edit_of("a''b");
    edit.next(2);
    edit.remove();
    assert_eq!(edit.as_str(), "ab");
    assert_eq!(edit.shift(), 1);
}

#[test]
fn remove_word_truncates() {
    let mut edit = edit_of("ls /usr/bin");
    edit.to_end();
    edit.remove_word(WORD_CHARS);
    assert_eq!(edit.as_str(), "ls /usr/");
    assert!(edit.is_at_end());
}

#[test]
fn remove_end_and_clear() {
    let mut edit = edit_of("hello");
    edit.next(2);
    edit.remove_end();
    assert_eq!(edit.as_str(), "he");
    edit.clear_end();
    assert!(edit.is_at_end());
    edit.clear();
    assert!(edit.is_empty());
    assert!(edit.is_at_start());
}

#[test]
fn cursor_motion_saturates() {
    let mut edit = edit_of("héllo");
    assert_eq!(edit.len(), 5);
    edit.next(100);
    assert!(edit.is_at_end());
    edit.prev(2);
    assert_eq!(edit.split(), ("hél", "lo"));
    assert_eq!(edit.start_chars().next_back(), Some('l'));
    assert_eq!(edit.end_chars().next(), Some('l'));
    edit.prev(100);
    assert!(edit.is_at_start());
}

#[test]
fn edit_accessors() {
    let edit = edit_of("ls -l ");
    assert!(edit.ends_with_space());
    assert_eq!(edit.first_char(), Some('l'));
    assert_eq!(edit.last_char(), Some(' '));
    assert_eq!(edit.start(), "");
    assert_eq!(edit.end(), "ls -l ");
    let command = match edit.command() {
        Ok(command) => command,
        Err(_) => panic!("parse failed"),
    };
    assert_eq!(command.program.as_str(), "ls");
    assert_eq!(edit.into_bytes(), b"ls -l ".to_vec());
    assert_eq!(Edit::default(), Edit::new());
}

#[test]
fn edit_from_string_starts_at_cursor_zero() {
    let mut edit = Edit::from(String::from("ab"));
    assert!(edit.is_at_start());
    edit.insert('x');
    assert_eq!(edit.as_str(), "xab");
    assert_eq!(edit.into_string(), "xab");
}

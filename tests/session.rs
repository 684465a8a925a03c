use elysh::{action_for, suggestion, summarize, Action, Buffer, Color, Context, Edit, Exes, History, Input, Modifiers, Prompt, Style, Summary, Tag};

const NONE: Modifiers = Modifiers(false, false, false);
const CTRL: Modifiers = Modifiers(true, false, false);

fn names(list: &[&str]) -> Vec<String> {
    list.iter().map(|s| String::from(*s)).collect()
}

#[test]
fn exes_search_prefix() {
    let exes = Exes::new(&names(&["cargo", "cat", "cd", "ls"]));
    assert_eq!(
        exes.search("ca"),
        vec![
            Summary::Partial(String::from("ca"), String::from("rgo")),
            Summary::Partial(String::from("ca"), String::from("t")),
        ]
    );
    assert_eq!(exes.search_one("cat"), Summary::Exact(String::from("cat")));
    assert_eq!(exes.search_one("x"), Summary::NoMatch);
    assert_eq!(exes.search_one("c"), Summary::Partial(String::from("c"), String::from("argo")));
}

#[test]
fn exes_unsorted_names_give_nothing() {
    let exes = Exes::new(&names(&["ls", "cat"]));
    assert_eq!(exes.search_one("ls"), Summary::NoMatch);
}

#[test]
fn summarize_keeps_prefixed_names() {
    let found = names(&["git", "gitk", "go"]);
    assert_eq!(
        summarize("git", &found),
        vec![
            Summary::Exact(String::from("git")),
            Summary::Partial(String::from("git"), String::from("k")),
        ]
    );
}

#[test]
fn summary_accessors() {
    let partial = Summary::Partial(String::from("ca"), String::from("rgo"));
    assert!(partial.is_partial());
    assert_eq!(partial.shift(), 3);
    assert!(Summary::Exact(String::from("ls")).is_exact());
    assert!(Summary::NoMatch.is_no_match());
    assert_eq!(Summary::NoMatch.shift(), 0);
}

#[test]
fn suggestion_rules() {
    let found = Summary::Partial(String::from("ca"), String::from("t"));
    let edit = Edit::from_string(String::from("ca"));
    assert_eq!(suggestion(&edit, found.clone()), found);
    let edit = Edit::from_string(String::from("ca "));
    assert_eq!(suggestion(&edit, found.clone()), Summary::NoMatch);
    let edit = Edit::from_string(String::from("ca x"));
    assert_eq!(suggestion(&edit, found.clone()), Summary::NoMatch);
    let edit = Edit::new();
    assert_eq!(suggestion(&edit, found), Summary::NoMatch);
    let edit = Edit::from_string(String::from("ls -l"));
    let exact = Summary::Exact(String::from("ls"));
    assert_eq!(suggestion(&edit, exact.clone()), exact);
}

#[test]
fn key_bindings() {
    assert_eq!(action_for(&Input::ArrowUp(NONE)), Action::HistoryUp);
    assert_eq!(action_for(&Input::Key('p', CTRL)), Action::HistoryUp);
    assert_eq!(action_for(&Input::Key('d', CTRL)), Action::Exit);
    assert_eq!(action_for(&Input::Key('x', NONE)), Action::Insert('x'));
    assert_eq!(action_for(&Input::Space(NONE)), Action::Insert(' '));
    assert_eq!(action_for(&Input::ArrowLeft(Modifiers(false, false, true))), Action::PrevWord);
    assert_eq!(action_for(&Input::Key('f', Modifiers(false, true, false))), Action::NextWord);
    assert_eq!(action_for(&Input::Paste(String::from("ab"))), Action::InsertStr(String::from("ab")));
    assert_eq!(action_for(&Input::Delete(NONE)), Action::Nothing);
    assert_eq!(action_for(&Input::Key('x', CTRL)), Action::Nothing);
}

#[test]
fn context_edits_and_records() {
    let mut context = Context::new(History::from_items(Vec::new()));
    assert!(context.apply(&Action::InsertStr(String::from("ls")), &[' ']));
    assert!(context.apply(&Action::Submit, &[' ']));
    assert!(context.should_execute());
    assert!(!context.should_execute());
    context.clear_and_record();
    assert!(context.edit().is_empty());
    assert_eq!(context.history().len(), 1);
    context.apply(&Action::Insert('x'), &[' ']);
    context.history_up();
    assert_eq!(context.edit().as_str(), "ls");
    assert!(context.edit().is_at_end());
    context.history_down();
    assert_eq!(context.edit().as_str(), "x");
    assert!(!context.apply(&Action::Exit, &[' ']));
    context.toggle_showkeys();
    assert!(context.showkeys());
    let command = match context.command() {
        Ok(command) => command,
        Err(_) => panic!("parse failed"),
    };
    assert_eq!(command.program.as_str(), "x");
}

#[test]
fn context_suggests_from_exes() {
    let exes = Exes::new(&names(&["cargo", "cat"]));
    let mut context = Context::new(History::from_items(Vec::new()));
    context.apply(&Action::InsertStr(String::from("car")), &[' ']);
    assert_eq!(context.suggest(&exes), Summary::Partial(String::from("car"), String::from("go")));
}

#[test]
fn history_walks_both_ways() {
    let mut history = History::from_items(names(&["a", "b", "c"]));
    assert_eq!(history.get(), None);
    history.next();
    assert_eq!(history.get().map(|s| s.as_str()), Some("c"));
    history.next();
    history.next();
    history.next();
    assert_eq!(history.position(), 3);
    assert_eq!(history.get().map(|s| s.as_str()), Some("a"));
    history.reset();
    history.next_back();
    assert_eq!(history.position(), -1);
    assert_eq!(history.get().map(|s| s.as_str()), Some("c"));
    history.next_back();
    history.next_back();
    history.next_back();
    assert_eq!(history.position(), -3);
    history.push(String::from("d"));
    assert_eq!(history.len(), 4);
}

#[test]
fn style_codes() {
    assert_eq!(Style::new(Color::Red).as_ansi(), "\x1b[38;5;1m");
    assert_eq!(Style::new(Color::Black).bright(true).as_ansi(), "\x1b[38;5;8m");
    assert_eq!(Style::new(Color::White).bright(true).background().as_ansi(), "\x1b[48;5;15m");
    assert_eq!(Style::new(Color::Green).background().foreground().as_ansi(), "\x1b[38;5;2m");
    assert_eq!(Style::new(Color::Cyan).background().as_ansi(), "\x1b[48;5;6m");
}

#[test]
fn prompt_string() {
    assert_eq!(Prompt::new('$').to_string(), " \x1b[38;5;1m$\x1b[m ");
}

#[test]
fn tags() {
    let input = Input::Key('a', NONE);
    assert_eq!(input.tag(), Tag::Key);
    assert_eq!(input.as_tag_str(), "Key");
    assert!(Tag::Key.is_key());
    assert!(Tag::Paste.is_paste());
    assert!(Tag::Home.is_tag_only());
    assert!(!Tag::Paste.is_tag_only());
    assert_eq!(Tag::ArrowRight.as_str(), "ArrowRight");
}

#[test]
fn buffer_edits() {
    let mut buffer = Buffer::new();
    buffer.insert_str_at_cursor("echo hi");
    assert_eq!(buffer.as_str(), "echo hi");
    assert!(buffer.is_at_end());
    buffer.move_left(3);
    buffer.insert_at_cursor('X');
    assert_eq!(buffer.as_str(), "echoX hi");
    assert_eq!(buffer.column_shift(), 3);
    buffer.remove_at_cursor();
    assert_eq!(buffer.as_str(), "echo hi");
    assert_eq!(buffer.split_at_cursor(), ("ech", " hi"));
    buffer.move_to_whitespace_right();
    assert_eq!(buffer.column_shift(), 2);
    buffer.move_to_end();
    buffer.move_to_whitespace_left();
    assert_eq!(buffer.column_shift(), 2);
    buffer.move_to_end();
    buffer.remove_word_at_cursor();
    assert_eq!(buffer.as_str(), "echo ");
    assert!(buffer.ends_with_space());
    buffer.remove_word_at_cursor();
    assert_eq!(buffer.as_str(), "");
    buffer.insert_str_at_cursor("echo ");
    buffer.move_to_start();
    assert!(buffer.is_at_start());
    buffer.remove_at_cursor();
    assert_eq!(buffer.len(), 5);
    buffer.move_right(2);
    buffer.remove_right_of_cursor();
    assert_eq!(buffer.as_str(), "ec");
    assert_eq!(buffer.clone().into_bytes(), b"ec".to_vec());
    buffer.clear();
    assert!(buffer.is_empty());
}

#[test]
fn execute_permissions() {
    assert!(elysh::can_execute(1, 1, 0o700, 1, 2));
    assert!(!elysh::can_execute(1, 1, 0o070, 1, 2));
    assert!(elysh::can_execute(1, 2, 0o010, 3, 2));
    assert!(elysh::can_execute(5, 5, 0o001, 1, 2));
    assert!(!elysh::can_execute(5, 5, 0o770, 1, 2));
}

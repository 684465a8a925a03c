use elysh::{Input, Modifiers};

const NONE: Modifiers = Modifiers(false, false, false);

#[test]
fn arrow_up_has_no_modifiers() {
    let input = elysh::input::map(&[0x1b, 0x5b, 0x41]);
    assert_eq!(input, Some(Input::ArrowUp(NONE)));
    assert!(input.unwrap().none());
}

#[test]
fn shifted_arrow_up() {
    let input = elysh::input::map(b"\x1b[1;5A").unwrap();
    assert_eq!(input, Input::ArrowUp(Modifiers(false, false, true)));
    assert!(input.shift());
    assert!(!input.ctrl());
    assert!(!input.meta());
}

#[test]
fn truncated_sequences_give_nothing() {
    assert_eq!(elysh::input::map(b""), None);
    assert_eq!(elysh::input::map(b"\x1b[1"), None);
    assert_eq!(elysh::input::map(b"\x1b[1;"), None);
    assert_eq!(elysh::input::map(b"\x1b[1;5"), None);
    assert_eq!(elysh::input::map(b"\x1b[Z"), None);
    assert_eq!(elysh::input::map(b"\x1b[200~abc"), None);
    assert_eq!(elysh::input::map(&[30]), None);
}

#[test]
fn control_keys() {
    let input = elysh::input::map(&[3]).unwrap();
    assert_eq!(input, Input::Key('c', Modifiers(true, false, false)));
    assert!(input.ctrl());
    assert_eq!(elysh::input::map(&[27]), Some(Input::Key('[', Modifiers(true, false, false))));
    assert_eq!(elysh::input::map(&[31]), Some(Input::Key('/', Modifiers(true, false, false))));
    assert_eq!(elysh::input::map(&[127]), Some(Input::Backspace(NONE)));
    assert_eq!(elysh::input::map(b" "), Some(Input::Space(NONE)));
    assert_eq!(elysh::input::map(b"a"), Some(Input::Key('a', NONE)));
}

#[test]
fn meta_keys() {
    let input = elysh::input::map(b"\x1bb").unwrap();
    assert_eq!(input, Input::Key('b', Modifiers(false, true, false)));
    assert!(input.meta());
    assert_eq!(elysh::input::map(b"xb"), None);
}

#[test]
fn fixed_sequences() {
    assert_eq!(elysh::input::map(b"\x1b[B"), Some(Input::ArrowDown(NONE)));
    assert_eq!(elysh::input::map(b"\x1b[C"), Some(Input::ArrowRight(NONE)));
    assert_eq!(elysh::input::map(b"\x1b[D"), Some(Input::ArrowLeft(NONE)));
    assert_eq!(elysh::input::map(b"\x1b[F"), Some(Input::End(NONE)));
    assert_eq!(elysh::input::map(b"\x1b[H"), Some(Input::Home(NONE)));
    assert_eq!(elysh::input::map(b"\x1b[3~"), Some(Input::Delete(NONE)));
    let shift = Modifiers(false, false, true);
    assert_eq!(elysh::input::map(b"\x1b[1;5B"), Some(Input::ArrowDown(shift)));
    assert_eq!(elysh::input::map(b"\x1b[1;5C"), Some(Input::ArrowRight(shift)));
    assert_eq!(elysh::input::map(b"\x1b[1;5D"), Some(Input::ArrowLeft(shift)));
}

#[test]
fn paste_is_taken_verbatim() {
    let input = elysh::input::map(b"\x1b[200~echo hi\x1b[201~").unwrap();
    assert_eq!(input, Input::Paste(String::from("echo hi")));
    assert!(input.none());
    assert_eq!(Modifiers::from(&input), NONE);
}

#[test]
fn paste_with_invalid_bytes_is_replaced() {
    let input = elysh::input::map(b"\x1b[200~a\xffb\x1b[201~").unwrap();
    assert_eq!(input, Input::Paste(String::from("a\u{fffd}b")));
}

//! Decoding of the bytes that a terminal sends into key events.
use vstd::prelude::*;
use vstd::utf8::{decode_utf8, valid_utf8};

verus! {

/// The modifier keys held with a key: control, meta, shift.
#[derive(Clone, Copy, Debug, PartialEq, Eq, Structural)]
pub struct Modifiers(pub bool, pub bool, pub bool);

/// No modifier.
pub open spec fn no_mods() -> Modifiers {
    Modifiers(false, false, false)
}

/// Control alone.
pub open spec fn ctrl_mod() -> Modifiers {
    Modifiers(true, false, false)
}

/// Meta alone.
pub open spec fn meta_mod() -> Modifiers {
    Modifiers(false, true, false)
}

/// Shift alone.
pub open spec fn shift_mod() -> Modifiers {
    Modifiers(false, false, true)
}

/// A key event. Every variant but `Paste` carries its modifiers; a paste
/// has none.
#[derive(Clone, Debug, PartialEq, Eq)]
pub enum Input {
    ArrowDown(Modifiers),
    ArrowLeft(Modifiers),
    ArrowRight(Modifiers),
    ArrowUp(Modifiers),
    Backspace(Modifiers),
    Delete(Modifiers),
    End(Modifiers),
    Home(Modifiers),
    Key(char, Modifiers),
    Paste(String),
    Space(Modifiers),
}

/// What a key event is, with the pasted text as characters.
pub enum InputModel {
    ArrowDown(Modifiers),
    ArrowLeft(Modifiers),
    ArrowRight(Modifiers),
    ArrowUp(Modifiers),
    Backspace(Modifiers),
    Delete(Modifiers),
    End(Modifiers),
    Home(Modifiers),
    Key(char, Modifiers),
    Paste(Seq<char>),
    Space(Modifiers),
}

impl View for Input {
    type V = InputModel;

    open spec fn view(&self) -> InputModel {
        match self {
            Input::ArrowDown(m) => InputModel::ArrowDown(*m),
            Input::ArrowLeft(m) => InputModel::ArrowLeft(*m),
            Input::ArrowRight(m) => InputModel::ArrowRight(*m),
            Input::ArrowUp(m) => InputModel::ArrowUp(*m),
            Input::Backspace(m) => InputModel::Backspace(*m),
            Input::Delete(m) => InputModel::Delete(*m),
            Input::End(m) => InputModel::End(*m),
            Input::Home(m) => InputModel::Home(*m),
            Input::Key(c, m) => InputModel::Key(*c, *m),
            Input::Paste(s) => InputModel::Paste(s@),
            Input::Space(m) => InputModel::Space(*m),
        }
    }
}

/// The modifiers of an event; none for a paste.
pub open spec fn mods_of(i: InputModel) -> Modifiers {
    match i {
        InputModel::ArrowDown(m) => m,
        InputModel::ArrowLeft(m) => m,
        InputModel::ArrowRight(m) => m,
        InputModel::ArrowUp(m) => m,
        InputModel::Backspace(m) => m,
        InputModel::Delete(m) => m,
        InputModel::End(m) => m,
        InputModel::Home(m) => m,
        InputModel::Key(_, m) => m,
        InputModel::Paste(_) => no_mods(),
        InputModel::Space(m) => m,
    }
}

impl Input {
    /// The modifiers of this event; none for a paste.
    pub fn modifiers(&self) -> (r: Modifiers)
        ensures
            r == mods_of(self@),
    {
        match self {
            Input::ArrowDown(m) => *m,
            Input::ArrowLeft(m) => *m,
            Input::ArrowRight(m) => *m,
            Input::ArrowUp(m) => *m,
            Input::Backspace(m) => *m,
            Input::Delete(m) => *m,
            Input::End(m) => *m,
            Input::Home(m) => *m,
            Input::Key(_, m) => *m,
            Input::Paste(_) => Modifiers(false, false, false),
            Input::Space(m) => *m,
        }
    }

    /// Whether no modifier is held.
    pub fn none(&self) -> (r: bool)
        ensures
            r == (mods_of(self@) == no_mods()),
    {
        let m = self.modifiers();
        !m.0 && !m.1 && !m.2
    }

    /// Whether control is held.
    pub fn ctrl(&self) -> (r: bool)
        ensures
            r == mods_of(self@).0,
    {
        self.modifiers().0
    }

    /// Whether meta is held.
    pub fn meta(&self) -> (r: bool)
        ensures
            r == mods_of(self@).1,
    {
        self.modifiers().1
    }

    /// Whether shift is held.
    pub fn shift(&self) -> (r: bool)
        ensures
            r == mods_of(self@).2,
    {
        self.modifiers().2
    }
}

impl Modifiers {
    /// The modifiers of an event.
    pub fn from(input: &Input) -> (r: Self)
        ensures
            r == mods_of(input@),
    {
        Modifiers(input.ctrl(), input.meta(), input.shift())
    }
}

/// The text of pasted bytes, as `String::from_utf8_lossy` gives it.
pub uninterp spec fn lossy_text(b: Seq<u8>) -> Seq<char>;

/// Relies on `String::from_utf8_lossy`: the text of the bytes, in which
/// each invalid sequence is replaced; valid UTF-8 is decoded as it stands.
#[verifier::external_body]
fn text_of_bytes(b: &[u8]) -> (r: String)
    ensures
        r@ == lossy_text(b@),
        valid_utf8(b@) ==> r@ == decode_utf8(b@),
{
    String::from_utf8_lossy(b).into_owned()
}

/// The bytes that open a bracketed paste: `ESC [ 2 0 0 ~`.
pub open spec fn paste_open() -> Seq<u8> {
    seq![0x1bu8, 0x5bu8, 0x32u8, 0x30u8, 0x30u8, 0x7eu8]
}

/// The bytes that close a bracketed paste: `ESC [ 2 0 1 ~`.
pub open spec fn paste_close() -> Seq<u8> {
    seq![0x1bu8, 0x5bu8, 0x32u8, 0x30u8, 0x31u8, 0x7eu8]
}

/// The event of a single byte.
pub open spec fn decoded_byte(x: u8) -> Option<InputModel> {
    if x <= 26 {
        Some(InputModel::Key(((x + 96) as u8) as char, ctrl_mod()))
    } else if x == 27 {
        Some(InputModel::Key('[', ctrl_mod()))
    } else if x == 28 {
        Some(InputModel::Key('\\', ctrl_mod()))
    } else if x == 29 {
        Some(InputModel::Key(']', ctrl_mod()))
    } else if x == 31 {
        Some(InputModel::Key('/', ctrl_mod()))
    } else if x == 127 {
        Some(InputModel::Backspace(no_mods()))
    } else if x == 32 {
        Some(InputModel::Space(no_mods()))
    } else if x < 32 {
        None
    } else {
        Some(InputModel::Key(x as char, no_mods()))
    }
}

/// The event of a byte sequence, if it is one the terminal sends for a key
/// or a paste.
pub open spec fn decoded(b: Seq<u8>) -> Option<InputModel> {
    if b.len() == 1 {
        decoded_byte(b[0])
    } else if b.len() == 2 {
        if b[0] == 0x1b {
            Some(InputModel::Key(b[1] as char, meta_mod()))
        } else {
            None
        }
    } else if b.len() == 3 {
        if b[0] == 0x1b && b[1] == 0x5b {
            if b[2] == 0x41 {
                Some(InputModel::ArrowUp(no_mods()))
            } else if b[2] == 0x42 {
                Some(InputModel::ArrowDown(no_mods()))
            } else if b[2] == 0x43 {
                Some(InputModel::ArrowRight(no_mods()))
            } else if b[2] == 0x44 {
                Some(InputModel::ArrowLeft(no_mods()))
            } else if b[2] == 0x46 {
                Some(InputModel::End(no_mods()))
            } else if b[2] == 0x48 {
                Some(InputModel::Home(no_mods()))
            } else {
                None
            }
        } else {
            None
        }
    } else if b.len() == 4 {
        if b =~= seq![0x1bu8, 0x5bu8, 0x33u8, 0x7eu8] {
            Some(InputModel::Delete(no_mods()))
        } else {
            None
        }
    } else if b.len() == 6 {
        if b.take(5) =~= seq![0x1bu8, 0x5bu8, 0x31u8, 0x3bu8, 0x35u8] {
            if b[5] == 0x41 {
                Some(InputModel::ArrowUp(shift_mod()))
            } else if b[5] == 0x42 {
                Some(InputModel::ArrowDown(shift_mod()))
            } else if b[5] == 0x43 {
                Some(InputModel::ArrowRight(shift_mod()))
            } else if b[5] == 0x44 {
                Some(InputModel::ArrowLeft(shift_mod()))
            } else {
                None
            }
        } else {
            None
        }
    } else if b.len() >= 12 && b.take(6) == paste_open() && b.skip(b.len() - 6) == paste_close() {
        Some(InputModel::Paste(lossy_text(b.subrange(6, b.len() - 6))))
    } else {
        None
    }
}

/// The view of an optional event.
pub open spec fn input_opt_view(r: Option<Input>) -> Option<InputModel> {
    match r {
        Some(i) => Some(i@),
        None => None,
    }
}

/// Whether `b` starts with `p` at position `at`.
fn has_at(b: &[u8], at: usize, p: &[u8]) -> (r: bool)
    requires
        at + p@.len() <= b@.len(),
    ensures
        r == (b@.subrange(at as int, at + p@.len()) == p@),
{
    let total = b.len();
    let mut i: usize = 0;
    while i < p.len()
        invariant
            total == b@.len(),
            at + p@.len() <= b@.len(),
            i <= p@.len(),
            forall|k: int| 0 <= k < i ==> b@[at + k] == p@[k],
        decreases p@.len() - i,
    {
        if b[at + i] != p[i] {
            assert(b@.subrange(at as int, at + p@.len())[i as int] != p@[i as int]);
            return false;
        }
        i = i + 1;
    }
    assert(b@.subrange(at as int, at + p@.len()) =~= p@);
    true
}

/// Decodes the bytes of one read from the terminal into an event; `None`
/// for a sequence that is not known.
pub fn map(bytes: &[u8]) -> (r: Option<Input>)
    ensures
        input_opt_view(r) == decoded(bytes@),
{
    let n = bytes.len();
    if n == 1 {
        let x = bytes[0];
        if x <= 26 {
            Some(Input::Key((x + 96) as char, Modifiers(true, false, false)))
        } else if x == 27 {
            Some(Input::Key('[', Modifiers(true, false, false)))
        } else if x == 28 {
            Some(Input::Key('\\', Modifiers(true, false, false)))
        } else if x == 29 {
            Some(Input::Key(']', Modifiers(true, false, false)))
        } else if x == 31 {
            Some(Input::Key('/', Modifiers(true, false, false)))
        } else if x == 127 {
            Some(Input::Backspace(Modifiers(false, false, false)))
        } else if x == 32 {
            Some(Input::Space(Modifiers(false, false, false)))
        } else if x < 32 {
            None
        } else {
            Some(Input::Key(x as char, Modifiers(false, false, false)))
        }
    } else if n == 2 {
        if bytes[0] == 0x1b {
            Some(Input::Key(bytes[1] as char, Modifiers(false, true, false)))
        } else {
            None
        }
    } else if n == 3 {
        if bytes[0] == 0x1b && bytes[1] == 0x5b {
            let none = Modifiers(false, false, false);
            let x = bytes[2];
            if x == 0x41 {
                Some(Input::ArrowUp(none))
            } else if x == 0x42 {
                Some(Input::ArrowDown(none))
            } else if x == 0x43 {
                Some(Input::ArrowRight(none))
            } else if x == 0x44 {
                Some(Input::ArrowLeft(none))
            } else if x == 0x46 {
                Some(Input::End(none))
            } else if x == 0x48 {
                Some(Input::Home(none))
            } else {
                None
            }
        } else {
            None
        }
    } else if n == 4 {
        if bytes[0] == 0x1b && bytes[1] == 0x5b && bytes[2] == 0x33 && bytes[3] == 0x7e {
            Some(Input::Delete(Modifiers(false, false, false)))
        } else {
            assert(!(bytes@ =~= seq![0x1bu8, 0x5bu8, 0x33u8, 0x7eu8]) ==> decoded(bytes@) is None);
            None
        }
    } else if n == 6 {
        if bytes[0] == 0x1b && bytes[1] == 0x5b && bytes[2] == 0x31 && bytes[3] == 0x3b
            && bytes[4] == 0x35 {
            assert(bytes@.take(5) =~= seq![0x1bu8, 0x5bu8, 0x31u8, 0x3bu8, 0x35u8]);
            let shift = Modifiers(false, false, true);
            let x = bytes[5];
            if x == 0x41 {
                Some(Input::ArrowUp(shift))
            } else if x == 0x42 {
                Some(Input::ArrowDown(shift))
            } else if x == 0x43 {
                Some(Input::ArrowRight(shift))
            } else if x == 0x44 {
                Some(Input::ArrowLeft(shift))
            } else {
                None
            }
        } else {
            assert(bytes@.take(5)[0] == bytes@[0]);
            assert(bytes@.take(5)[1] == bytes@[1]);
            assert(bytes@.take(5)[2] == bytes@[2]);
            assert(bytes@.take(5)[3] == bytes@[3]);
            assert(bytes@.take(5)[4] == bytes@[4]);
            None
        }
    } else if n >= 12 {
        let open: [u8; 6] = [0x1b, 0x5b, 0x32, 0x30, 0x30, 0x7e];
        let close: [u8; 6] = [0x1b, 0x5b, 0x32, 0x30, 0x31, 0x7e];
        let starts = has_at(bytes, 0, &open);
        let ends = has_at(bytes, n - 6, &close);
        assert(open@ =~= paste_open());
        assert(close@ =~= paste_close());
        assert(bytes@.subrange(0, 6) =~= bytes@.take(6));
        assert(bytes@.subrange(n - 6, n as int) =~= bytes@.skip(n - 6));
        if starts && ends {
            let payload = vstd::slice::slice_subrange(bytes, 6, n - 6);
            Some(Input::Paste(text_of_bytes(payload)))
        } else {
            None
        }
    } else {
        None
    }
}

/// The variant of an event, without its fields.
#[derive(Clone, Copy, Debug, PartialEq, Eq, Structural)]
pub enum Tag {
    ArrowDown,
    ArrowLeft,
    ArrowRight,
    ArrowUp,
    Backspace,
    Delete,
    End,
    Home,
    Key,
    Paste,
    Space,
}

/// The name of a variant.
pub open spec fn tag_name(t: Tag) -> Seq<char> {
    match t {
        Tag::ArrowDown => "ArrowDown"@,
        Tag::ArrowLeft => "ArrowLeft"@,
        Tag::ArrowRight => "ArrowRight"@,
        Tag::ArrowUp => "ArrowUp"@,
        Tag::Backspace => "Backspace"@,
        Tag::Delete => "Delete"@,
        Tag::End => "End"@,
        Tag::Home => "Home"@,
        Tag::Key => "Key"@,
        Tag::Paste => "Paste"@,
        Tag::Space => "Space"@,
    }
}

/// The variant of an event.
pub open spec fn tag_of(i: InputModel) -> Tag {
    match i {
        InputModel::ArrowDown(..) => Tag::ArrowDown,
        InputModel::ArrowLeft(..) => Tag::ArrowLeft,
        InputModel::ArrowRight(..) => Tag::ArrowRight,
        InputModel::ArrowUp(..) => Tag::ArrowUp,
        InputModel::Backspace(..) => Tag::Backspace,
        InputModel::Delete(..) => Tag::Delete,
        InputModel::End(..) => Tag::End,
        InputModel::Home(..) => Tag::Home,
        InputModel::Key(..) => Tag::Key,
        InputModel::Paste(..) => Tag::Paste,
        InputModel::Space(..) => Tag::Space,
    }
}

impl Tag {
    /// Whether events of this variant carry no field besides modifiers.
    pub fn is_tag_only(&self) -> (r: bool)
        ensures
            r == !(*self is Key || *self is Paste),
    {
        match self {
            Tag::Key | Tag::Paste => false,
            _ => true,
        }
    }

    /// Whether this is the variant of a key.
    pub fn is_key(&self) -> (r: bool)
        ensures
            r == *self is Key,
    {
        match self {
            Tag::Key => true,
            _ => false,
        }
    }

    /// Whether this is the variant of a paste.
    pub fn is_paste(&self) -> (r: bool)
        ensures
            r == *self is Paste,
    {
        match self {
            Tag::Paste => true,
            _ => false,
        }
    }

    /// The name of the variant.
    pub fn as_str(&self) -> (r: &'static str)
        ensures
            r@ == tag_name(*self),
    {
        match self {
            Tag::ArrowDown => "ArrowDown",
            Tag::ArrowLeft => "ArrowLeft",
            Tag::ArrowRight => "ArrowRight",
            Tag::ArrowUp => "ArrowUp",
            Tag::Backspace => "Backspace",
            Tag::Delete => "Delete",
            Tag::End => "End",
            Tag::Home => "Home",
            Tag::Key => "Key",
            Tag::Paste => "Paste",
            Tag::Space => "Space",
        }
    }
}

impl Input {
    /// The variant of this event.
    pub fn tag(&self) -> (r: Tag)
        ensures
            r == tag_of(self@),
    {
        match self {
            Input::ArrowDown(..) => Tag::ArrowDown,
            Input::ArrowLeft(..) => Tag::ArrowLeft,
            Input::ArrowRight(..) => Tag::ArrowRight,
            Input::ArrowUp(..) => Tag::ArrowUp,
            Input::Backspace(..) => Tag::Backspace,
            Input::Delete(..) => Tag::Delete,
            Input::End(..) => Tag::End,
            Input::Home(..) => Tag::Home,
            Input::Key(..) => Tag::Key,
            Input::Paste(..) => Tag::Paste,
            Input::Space(..) => Tag::Space,
        }
    }

    /// The name of the variant of this event.
    pub fn as_tag_str(&self) -> (r: &'static str)
        ensures
            r@ == tag_name(tag_of(self@)),
    {
        self.tag().as_str()
    }
}

} // verus!

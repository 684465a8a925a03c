//! The state of an interactive session that is not I/O: the line being
//! edited, the history, and what each key press asks for.
use crate::command::{command_args, command_program, Command, CommandError};
use crate::edit::{
    backspaced, next_word_pos, prev_word_pos, typed, typed_all, Edit,
};
use crate::exes::{first_summary, prefix_listing, summaries, Exes};
use crate::history::History;
use crate::input::{mods_of, Input, InputModel, Modifiers};
use crate::summary::{Summary, SummaryModel};
use crate::text::is_space;
use crate::value::lexeme_text;
use vstd::prelude::*;

verus! {

/// What a key press asks the shell to do.
#[derive(Clone, Debug, PartialEq, Eq)]
pub enum Action {
    HistoryUp,
    HistoryDown,
    Prev,
    Next,
    Clear,
    Exit,
    Submit,
    RemoveWord,
    RemoveEnd,
    PrevWord,
    NextWord,
    Remove,
    Insert(char),
    InsertStr(String),
    ToStart,
    ToEnd,
    Nothing,
}

/// What an action is, with the pasted text as characters.
pub enum ActionModel {
    HistoryUp,
    HistoryDown,
    Prev,
    Next,
    Clear,
    Exit,
    Submit,
    RemoveWord,
    RemoveEnd,
    PrevWord,
    NextWord,
    Remove,
    Insert(char),
    InsertStr(Seq<char>),
    ToStart,
    ToEnd,
    Nothing,
}

impl View for Action {
    type V = ActionModel;

    open spec fn view(&self) -> ActionModel {
        match self {
            Action::HistoryUp => ActionModel::HistoryUp,
            Action::HistoryDown => ActionModel::HistoryDown,
            Action::Prev => ActionModel::Prev,
            Action::Next => ActionModel::Next,
            Action::Clear => ActionModel::Clear,
            Action::Exit => ActionModel::Exit,
            Action::Submit => ActionModel::Submit,
            Action::RemoveWord => ActionModel::RemoveWord,
            Action::RemoveEnd => ActionModel::RemoveEnd,
            Action::PrevWord => ActionModel::PrevWord,
            Action::NextWord => ActionModel::NextWord,
            Action::Remove => ActionModel::Remove,
            Action::Insert(c) => ActionModel::Insert(*c),
            Action::InsertStr(s) => ActionModel::InsertStr(s@),
            Action::ToStart => ActionModel::ToStart,
            Action::ToEnd => ActionModel::ToEnd,
            Action::Nothing => ActionModel::Nothing,
        }
    }
}

/// The key bindings: what an event asks for. The first binding that fits
/// wins: plain arrows move through history and the line, control and meta
/// keys edit, and a plain key or paste is typed.
pub open spec fn action_of(i: InputModel) -> ActionModel {
    let m = mods_of(i);
    let none = m == Modifiers(false, false, false);
    match i {
        InputModel::ArrowUp(_) if none => ActionModel::HistoryUp,
        InputModel::Key('p', _) if m.0 => ActionModel::HistoryUp,
        InputModel::ArrowDown(_) if none => ActionModel::HistoryDown,
        InputModel::Key('n', _) if m.0 => ActionModel::HistoryDown,
        InputModel::ArrowLeft(_) if none => ActionModel::Prev,
        InputModel::ArrowRight(_) if none => ActionModel::Next,
        InputModel::Key('c', _) if m.0 => ActionModel::Clear,
        InputModel::Key('d', _) if m.0 => ActionModel::Exit,
        InputModel::Key('m', _) if m.0 => ActionModel::Submit,
        InputModel::Key('w', _) if m.0 => ActionModel::RemoveWord,
        InputModel::Key('k', _) if m.0 => ActionModel::RemoveEnd,
        InputModel::ArrowLeft(_) if m.0 || m.2 => ActionModel::PrevWord,
        InputModel::Key('b', _) if m.1 => ActionModel::PrevWord,
        InputModel::ArrowRight(_) if m.0 || m.2 => ActionModel::NextWord,
        InputModel::Key('f', _) if m.1 => ActionModel::NextWord,
        InputModel::Backspace(_) if none => ActionModel::Remove,
        InputModel::Space(_) if none => ActionModel::Insert(' '),
        InputModel::Home(_) if none => ActionModel::ToStart,
        InputModel::Key('a', _) if m.0 => ActionModel::ToStart,
        InputModel::End(_) if none => ActionModel::ToEnd,
        InputModel::Key('e', _) if m.0 => ActionModel::ToEnd,
        InputModel::Key(k, _) if none => ActionModel::Insert(k),
        InputModel::Paste(s) => ActionModel::InsertStr(s),
        _ => ActionModel::Nothing,
    }
}

/// What `input` asks the shell to do.
pub fn action_for(input: &Input) -> (r: Action)
    ensures
        r@ == action_of(input@),
{
    let none = input.none();
    let ctrl = input.ctrl();
    let meta = input.meta();
    let shift = input.shift();
    match input {
        Input::ArrowUp(_) if none => Action::HistoryUp,
        Input::Key('p', _) if ctrl => Action::HistoryUp,
        Input::ArrowDown(_) if none => Action::HistoryDown,
        Input::Key('n', _) if ctrl => Action::HistoryDown,
        Input::ArrowLeft(_) if none => Action::Prev,
        Input::ArrowRight(_) if none => Action::Next,
        Input::Key('c', _) if ctrl => Action::Clear,
        Input::Key('d', _) if ctrl => Action::Exit,
        Input::Key('m', _) if ctrl => Action::Submit,
        Input::Key('w', _) if ctrl => Action::RemoveWord,
        Input::Key('k', _) if ctrl => Action::RemoveEnd,
        Input::ArrowLeft(_) if ctrl || shift => Action::PrevWord,
        Input::Key('b', _) if meta => Action::PrevWord,
        Input::ArrowRight(_) if ctrl || shift => Action::NextWord,
        Input::Key('f', _) if meta => Action::NextWord,
        Input::Backspace(_) if none => Action::Remove,
        Input::Space(_) if none => Action::Insert(' '),
        Input::Home(_) if none => Action::ToStart,
        Input::Key('a', _) if ctrl => Action::ToStart,
        Input::End(_) if none => Action::ToEnd,
        Input::Key('e', _) if ctrl => Action::ToEnd,
        Input::Key(k, _) if none => Action::Insert(*k),
        Input::Paste(s) => Action::InsertStr(s.clone()),
        _ => Action::Nothing,
    }
}

/// What to suggest for the line `t`, given `found`, the best match for its
/// program among the executables: nothing for an empty line or program; a
/// partial match only while the program is the last thing typed.
pub open spec fn suggestion_of(t: Seq<char>, found: SummaryModel) -> SummaryModel {
    if t.len() == 0 || lexeme_text(command_program(t)).len() == 0 {
        SummaryModel::NoMatch
    } else {
        match found {
            SummaryModel::Partial(p, r) => {
                if command_args(t).len() == 0 && !is_space(t.last()) {
                    SummaryModel::Partial(p, r)
                } else {
                    SummaryModel::NoMatch
                }
            },
            _ => found,
        }
    }
}

/// What to suggest for the line in `edit`, given `found`, the best match
/// for its program.
pub fn suggestion(edit: &Edit, found: Summary) -> (r: Summary)
    requires
        edit.wf(),
    ensures
        r@ == suggestion_of(edit.text(), found@),
{
    if edit.is_empty() {
        return Summary::NoMatch;
    }
    match edit.command() {
        Ok(command) => {
            if command.program.as_str().unicode_len() == 0 {
                Summary::NoMatch
            } else {
                match found {
                    Summary::Partial(partial, rest) => {
                        if command.args.len() == 0 && !edit.ends_with_space() {
                            Summary::Partial(partial, rest)
                        } else {
                            Summary::NoMatch
                        }
                    },
                    other => other,
                }
            }
        },
        Err(_) => Summary::NoMatch,
    }
}

/// Whether `line` and `saved` are what showing the history position of `h`
/// makes of the line `edit` and the saved line `before`: the selected entry
/// is shown and the typed line is kept aside the first time; back at
/// position 0 the kept line returns. The cursor stands at the end.
pub open spec fn shows_history(
    h: History,
    edit: Edit,
    before: Option<Edit>,
    line: Edit,
    saved: Option<Edit>,
) -> bool {
    let p = h.pos();
    if p != 0 {
        let item = h.items()[h.items().len() - (if p > 0 {
            p
        } else {
            -p
        })];
        &&& line.is(item, item.len() as int)
        &&& saved == if before is None {
            Some(edit)
        } else {
            before
        }
    } else {
        &&& saved is None
        &&& match before {
            Some(e) => line.is(e.text(), e.text().len() as int),
            None => line.is(Seq::empty(), 0),
        }
    }
}

/// The history position after a step back: one up, to at most `len`.
pub open spec fn pos_up(p: int, len: int) -> int {
    if p < len {
        p + 1
    } else {
        len
    }
}

/// The history position after a step forward: one down, to at least
/// `-len`.
pub open spec fn pos_down(p: int, len: int) -> int {
    if p > -len {
        p - 1
    } else {
        -len
    }
}

/// The prompt that precedes the line.
#[derive(Clone, Copy, Debug, PartialEq, Eq)]
pub struct Prompt {
    pub prompt_char: char,
}

impl Prompt {
    /// A prompt showing `prompt_char`.
    pub fn new(prompt_char: char) -> (r: Self)
        ensures
            r.prompt_char == prompt_char,
    {
        Self { prompt_char }
    }

    /// The prompt as it is written to the terminal: the character in red
    /// between two spaces.
    pub fn to_string(&self) -> (r: String)
        ensures
            r@ == seq![' '] + "\x1b[38;5;1m"@ + seq![self.prompt_char] + "\x1b[m"@ + seq![' '],
    {
        let mut s = String::new();
        crate::edit::push_char(&mut s, ' ');
        s.append("\x1b[38;5;1m");
        crate::edit::push_char(&mut s, self.prompt_char);
        s.append("\x1b[m");
        crate::edit::push_char(&mut s, ' ');
        s
    }
}

/// The line being edited, the history, and the session's flags.
pub struct Context {
    edit: Edit,
    history: History,
    last_edit: Option<Edit>,
    execute_edit: bool,
    showkeys: bool,
}

impl Context {
    pub closed spec fn wf(&self) -> bool {
        &&& self.line().wf()
        &&& self.log().wf()
        &&& self.saved() matches Some(e) ==> e.wf()
    }

    /// The line being edited.
    pub closed spec fn line(&self) -> Edit {
        self.edit
    }

    /// The history.
    pub closed spec fn log(&self) -> History {
        self.history
    }

    /// Whether raw key bytes are shown.
    pub closed spec fn shows_keys(&self) -> bool {
        self.showkeys
    }

    /// The line being edited.
    pub fn edit(&self) -> (r: &Edit)
        ensures
            *r == self.line(),
    {
        &self.edit
    }

    /// The history.
    pub fn history(&self) -> (r: &History)
        ensures
            *r == self.log(),
    {
        &self.history
    }

    /// Whether raw key bytes are shown.
    pub fn showkeys(&self) -> (r: bool)
        ensures
            r == self.shows_keys(),
    {
        self.showkeys
    }

    /// The line that was being typed before the history was entered.
    pub closed spec fn saved(&self) -> Option<Edit> {
        self.last_edit
    }

    /// Whether the line was submitted and waits to be run.
    pub closed spec fn submitted(&self) -> bool {
        self.execute_edit
    }

    /// A session with an empty line over `history`.
    pub fn new(history: History) -> (r: Self)
        requires
            history.wf(),
        ensures
            r.wf(),
            r.line().is(Seq::empty(), 0),
            r.log() == history,
            r.saved() is None,
            !r.submitted(),
            !r.shows_keys(),
    {
        Self { edit: Edit::new(), history, last_edit: None, execute_edit: false, showkeys: false }
    }

    /// Parses the line as a command.
    pub fn command(&self) -> (r: Result<Command<'_>, CommandError<'_>>)
        ensures
            r matches Ok(c) && c.parses(self.line().text()),
    {
        self.edit.command()
    }

    /// What to suggest for the line: how its program matches the known
    /// executables.
    pub fn suggest(&self, exes: &Exes) -> (r: Summary)
        requires
            self.wf(),
            exes.wf(),
        ensures
            exists|found: Seq<Seq<char>>|
                #[trigger] prefix_listing(
                    exes.names(),
                    lexeme_text(command_program(self.line().text())),
                    found,
                ) && r@ == suggestion_of(
                    self.line().text(),
                    first_summary(summaries(lexeme_text(command_program(self.line().text())), found)),
                ),
    {
        let found = match self.command() {
            Ok(command) => exes.search_one(command.program.as_str()),
            Err(_) => Summary::NoMatch,
        };
        suggestion(&self.edit, found)
    }

    /// Shows the history entry that the position selects, or the line that
    /// was being typed when the position is back at 0; the cursor goes to
    /// the end.
    pub fn update_edit_with_history(&mut self)
        requires
            old(self).wf(),
        ensures
            final(self).wf(),
            final(self).log() == old(self).log(),
            final(self).submitted() == old(self).submitted(),
            final(self).shows_keys() == old(self).shows_keys(),
            shows_history(
                old(self).log(),
                old(self).line(),
                old(self).saved(),
                final(self).line(),
                final(self).saved(),
            ),
    {
        match self.history.get() {
            Some(item) => {
                let mut item_edit = Edit::from_string(item.clone());
                if self.last_edit.is_none() {
                    std::mem::swap(&mut self.edit, &mut item_edit);
                    self.last_edit = Some(item_edit);
                } else {
                    self.edit = item_edit;
                }
            },
            None => {
                self.edit = match self.last_edit.take() {
                    Some(e) => e,
                    None => Edit::new(),
                };
            },
        }
        self.edit.to_end();
    }

    /// Steps back through the history.
    pub fn history_up(&mut self)
        requires
            old(self).wf(),
        ensures
            final(self).wf(),
            final(self).log().items() == old(self).log().items(),
            final(self).log().pos() == pos_up(old(self).log().pos(), old(self).log().items().len() as int),
            shows_history(
                final(self).log(),
                old(self).line(),
                old(self).saved(),
                final(self).line(),
                final(self).saved(),
            ),
            final(self).submitted() == old(self).submitted(),
            final(self).shows_keys() == old(self).shows_keys(),
    {
        self.history.next();
        self.update_edit_with_history();
    }

    /// Steps forward through the history.
    pub fn history_down(&mut self)
        requires
            old(self).wf(),
        ensures
            final(self).wf(),
            final(self).log().items() == old(self).log().items(),
            final(self).log().pos() == pos_down(old(self).log().pos(), old(self).log().items().len() as int),
            shows_history(
                final(self).log(),
                old(self).line(),
                old(self).saved(),
                final(self).line(),
                final(self).saved(),
            ),
            final(self).submitted() == old(self).submitted(),
            final(self).shows_keys() == old(self).shows_keys(),
    {
        self.history.next_back();
        self.update_edit_with_history();
    }

    /// Empties the line.
    pub fn clear(&mut self)
        requires
            old(self).wf(),
        ensures
            final(self).wf(),
            final(self).line().is(Seq::empty(), 0),
            final(self).log() == old(self).log(),
            final(self).saved() == old(self).saved(),
            final(self).shows_keys() == old(self).shows_keys(),
            final(self).submitted() == old(self).submitted(),
    {
        self.edit.clear();
    }

    /// Adds the line to the history, where the history has room, and starts
    /// an empty line.
    pub fn clear_and_record(&mut self)
        requires
            old(self).wf(),
        ensures
            final(self).wf(),
            final(self).line().is(Seq::empty(), 0),
            old(self).log().items().len() < isize::MAX ==> final(self).log().items() == old(
                self,
            ).log().items().push(old(self).line().text()),
            old(self).log().items().len() >= isize::MAX ==> final(self).log().items() == old(
                self,
            ).log().items(),
            final(self).log().pos() == old(self).log().pos(),
            final(self).saved() == old(self).saved(),
            final(self).submitted() == old(self).submitted(),
            final(self).shows_keys() == old(self).shows_keys(),
    {
        let mut edit = Edit::new();
        std::mem::swap(&mut self.edit, &mut edit);
        if self.history.len() < isize::MAX as usize {
            self.history.push(edit.into_string());
        }
    }

    /// Marks the line as submitted, unless it is empty.
    pub fn submit(&mut self)
        requires
            old(self).wf(),
        ensures
            final(self).wf(),
            final(self).line() == old(self).line(),
            final(self).submitted() == (old(self).submitted() || old(self).line().text().len() > 0),
            final(self).log() == old(self).log(),
            final(self).saved() == old(self).saved(),
            final(self).shows_keys() == old(self).shows_keys(),
    {
        if !self.edit.is_empty() {
            self.execute_edit = true;
        }
    }

    /// Whether the line was submitted; the mark is cleared.
    pub fn should_execute(&mut self) -> (r: bool)
        requires
            old(self).wf(),
        ensures
            final(self).wf(),
            r == old(self).submitted(),
            !final(self).submitted(),
            final(self).line() == old(self).line(),
    {
        let r = self.execute_edit;
        self.execute_edit = false;
        r
    }

    /// Turns the display of raw key bytes on or off.
    pub fn toggle_showkeys(&mut self)
        requires
            old(self).wf(),
        ensures
            final(self).wf(),
            final(self).shows_keys() == !old(self).shows_keys(),
    {
        self.showkeys = !self.showkeys;
    }

    /// Carries out the editing part of an action; `false` where the action
    /// ends the session.
    pub fn apply(&mut self, action: &Action, word_chars: &[char]) -> (r: bool)
        requires
            old(self).wf(),
        ensures
            final(self).wf(),
            r == !(action@ is Exit),
            final(self).shows_keys() == old(self).shows_keys(),
            !(action@ is HistoryUp || action@ is HistoryDown) ==> final(self).log() == old(self).log()
                && final(self).saved() == old(self).saved(),
            !(action@ is Submit) ==> final(self).submitted() == old(self).submitted(),
            ({
                let t = old(self).line().text();
                let c = old(self).line().cursor();
                match action@ {
                    ActionModel::Prev => final(self).line().is(t, if c > 0 { c - 1 } else { 0 }),
                    ActionModel::Next => final(self).line().is(t, if c < t.len() { c + 1 } else { t.len() as int }),
                    ActionModel::Clear => final(self).line().is(Seq::empty(), 0),
                    ActionModel::RemoveWord => {
                        let p = prev_word_pos(t, c, word_chars@);
                        final(self).line().is(t.take(p), p)
                    },
                    ActionModel::RemoveEnd => final(self).line().is(t.take(c), c),
                    ActionModel::PrevWord => final(self).line().is(t, prev_word_pos(t, c, word_chars@)),
                    ActionModel::NextWord => final(self).line().is(t, next_word_pos(t, c, word_chars@)),
                    ActionModel::Insert(ch) => final(self).line().is(typed(t, c, ch).0, typed(t, c, ch).1),
                    ActionModel::InsertStr(s) => final(self).line().is(
                        typed_all(t, c, s).0,
                        typed_all(t, c, s).1,
                    ),
                    ActionModel::ToStart => final(self).line().is(t, 0),
                    ActionModel::ToEnd => final(self).line().is(t, t.len() as int),
                    ActionModel::Submit => final(self).line() == old(self).line() && final(self).submitted()
                        == (old(self).submitted() || t.len() > 0),
                    ActionModel::HistoryUp => final(self).log().items() == old(self).log().items()
                        && final(self).log().pos() == pos_up(
                        old(self).log().pos(),
                        old(self).log().items().len() as int,
                    ) && shows_history(
                        final(self).log(),
                        old(self).line(),
                        old(self).saved(),
                        final(self).line(),
                        final(self).saved(),
                    ),
                    ActionModel::HistoryDown => final(self).log().items() == old(self).log().items()
                        && final(self).log().pos() == pos_down(
                        old(self).log().pos(),
                        old(self).log().items().len() as int,
                    ) && shows_history(
                        final(self).log(),
                        old(self).line(),
                        old(self).saved(),
                        final(self).line(),
                        final(self).saved(),
                    ),
                    ActionModel::Remove => final(self).line().is(backspaced(t, c).0, backspaced(t, c).1),
                    _ => final(self).line() == old(self).line(),
                }
            }),
    {
        match action {
            Action::HistoryUp => self.history_up(),
            Action::HistoryDown => self.history_down(),
            Action::Prev => self.edit.prev(1),
            Action::Next => self.edit.next(1),
            Action::Clear => self.clear(),
            Action::Exit => {
                return false;
            },
            Action::Submit => self.submit(),
            Action::RemoveWord => self.edit.remove_word(word_chars),
            Action::RemoveEnd => self.edit.remove_end(),
            Action::PrevWord => self.edit.prev_word(word_chars),
            Action::NextWord => self.edit.next_word(word_chars),
            Action::Remove => self.edit.remove(),
            Action::Insert(c) => self.edit.insert(*c),
            Action::InsertStr(s) => self.edit.insert_str(s.as_str()),
            Action::ToStart => self.edit.to_start(),
            Action::ToEnd => self.edit.to_end(),
            Action::Nothing => {},
        }
        true
    }
}

} // verus!

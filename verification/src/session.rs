//! The menu that drives a store: what each line of input leads to.

use crate::error::TaskError;
use crate::history::{lemma_apply_valid, lemma_complete_absent, Op};
use crate::store::{StoreView, TaskStore};
use crate::text::{is_blank, parse_id, parsed_id, trim, trimmed};
use vstd::prelude::*;
use vstd::string::StrSliceExecFns;

verus! {

/// An entry of the menu.
#[derive(Debug, Clone, Copy, PartialEq, Eq, Structural)]
pub enum Choice {
    /// `1`: add a task.
    Add,
    /// `2`: list the tasks.
    List,
    /// `3`: mark a task as done.
    Complete,
    /// `4`: leave.
    Quit,
}

/// What the next line of input is taken for.
#[derive(Debug, Clone, Copy, PartialEq, Eq, Structural)]
pub enum Mode {
    /// A choice from the menu.
    Menu,
    /// The description of the task to add.
    Description,
    /// The identifier of the task to mark as done.
    Identifier,
    /// Nothing: the session is over.
    Finished,
}

/// What a line of input led to, for the caller to show.
#[derive(Debug, Clone, Copy, PartialEq, Eq, Structural)]
pub enum Reply {
    /// A description is wanted next.
    AskDescription,
    /// An identifier is wanted next.
    AskIdentifier,
    /// A task was added under this identifier.
    Added(usize),
    /// The task with this identifier was marked as done.
    Completed(usize),
    /// There is no task to list.
    NoTasks,
    /// The tasks are to be listed.
    Tasks,
    /// The input was turned down, and the store is as it was.
    Refused(TaskError),
    /// The session is over.
    Goodbye,
}

/// The menu entry that `line` selects: the line, trimmed, is one of the digits
/// `1` to `4`.
pub open spec fn choice_of(line: Seq<char>) -> Option<Choice> {
    let word = trimmed(line);
    if word == seq!['1'] {
        Some(Choice::Add)
    } else if word == seq!['2'] {
        Some(Choice::List)
    } else if word == seq!['3'] {
        Some(Choice::Complete)
    } else if word == seq!['4'] {
        Some(Choice::Quit)
    } else {
        None
    }
}

/// Reads a menu choice from a line of input.
pub fn read_choice(line: &str) -> (choice: Option<Choice>)
    ensures
        choice == choice_of(line@),
{
    let word = trim(line);
    if word.unicode_len() != 1 {
        return None;
    }
    let c = word.get_char(0);
    assert(word@ =~= seq![c]);
    if c == '1' {
        Some(Choice::Add)
    } else if c == '2' {
        Some(Choice::List)
    } else if c == '3' {
        Some(Choice::Complete)
    } else if c == '4' {
        Some(Choice::Quit)
    } else {
        None
    }
}

/// What a session is, as plain mathematical values.
pub struct SessionView {
    /// The store that the menu drives.
    pub store: StoreView,
    /// What the next line of input is taken for.
    pub mode: Mode,
}

impl SessionView {
    /// A session as it starts: an empty store, and the menu.
    pub open spec fn start() -> SessionView {
        SessionView { store: StoreView::empty(), mode: Mode::Menu }
    }

    /// The session with the store as it is and another mode.
    pub open spec fn in_mode(self, mode: Mode) -> SessionView {
        SessionView { store: self.store, mode }
    }

    /// The session after the line `line`.
    ///
    /// At the menu, `1` and `3` ask for a description or an identifier, `2`
    /// lists, `4` ends the session, and anything else is turned down. A
    /// description is offered to the store as a new task. An identifier is
    /// trimmed and read as a number, and the task it names is marked as done.
    /// After either, the menu follows. Once the session is over it stays so.
    pub open spec fn after(self, line: Seq<char>) -> SessionView {
        match self.mode {
            Mode::Menu => match choice_of(line) {
                Some(Choice::Add) => self.in_mode(Mode::Description),
                Some(Choice::Complete) => self.in_mode(Mode::Identifier),
                Some(Choice::Quit) => self.in_mode(Mode::Finished),
                Some(Choice::List) | None => self,
            },
            Mode::Description => SessionView {
                store: self.store.with_added(line),
                mode: Mode::Menu,
            },
            Mode::Identifier => match parsed_id(trimmed(line)) {
                Some(id) => SessionView {
                    store: self.store.with_completed(id as nat),
                    mode: Mode::Menu,
                },
                None => self.in_mode(Mode::Menu),
            },
            Mode::Finished => self,
        }
    }

    /// What the line `line` is answered with.
    pub open spec fn reply_to(self, line: Seq<char>) -> Reply {
        match self.mode {
            Mode::Menu => match choice_of(line) {
                Some(Choice::Add) => Reply::AskDescription,
                Some(Choice::List) => if self.store.tasks.len() == 0 {
                    Reply::NoTasks
                } else {
                    Reply::Tasks
                },
                Some(Choice::Complete) => Reply::AskIdentifier,
                Some(Choice::Quit) => Reply::Goodbye,
                None => Reply::Refused(TaskError::UnrecognizedCommand),
            },
            Mode::Description => if is_blank(line) {
                Reply::Refused(TaskError::EmptyDescription)
            } else {
                Reply::Added(self.store.next_id as usize)
            },
            Mode::Identifier => match parsed_id(trimmed(line)) {
                Some(id) => if self.store.has(id as nat) {
                    Reply::Completed(id)
                } else {
                    Reply::Refused(TaskError::TaskNotFound(id))
                },
                None => Reply::Refused(TaskError::InvalidIdentifier),
            },
            Mode::Finished => Reply::Goodbye,
        }
    }

    /// The session after the lines `lines`, in order.
    pub open spec fn after_all(self, lines: Seq<Seq<char>>) -> SessionView
        decreases lines.len(),
    {
        if lines.len() == 0 {
            self
        } else {
            self.after_all(lines.drop_last()).after(lines.last())
        }
    }

    /// Whether the session can take the line `line`: its store is valid, and
    /// where the line adds a task, the counter has not reached the largest
    /// identifier.
    pub open spec fn accepts(self, line: Seq<char>) -> bool {
        &&& self.store.valid()
        &&& self.mode == Mode::Description && !is_blank(line) ==> self.store.next_id < usize::MAX
    }
}

/// A store together with the state of the menu that drives it.
pub struct Session {
    store: TaskStore,
    mode: Mode,
}

impl View for Session {
    type V = SessionView;

    closed spec fn view(&self) -> SessionView {
        SessionView { store: self.store@, mode: self.mode }
    }
}

impl Session {
    /// A session with an empty store, at the menu.
    pub fn new() -> (session: Session)
        ensures
            session@ == SessionView::start(),
            session@.store.valid(),
    {
        Session { store: TaskStore::new(), mode: Mode::Menu }
    }

    /// What the next line of input is taken for.
    pub fn mode(&self) -> (mode: Mode)
        ensures
            mode == self@.mode,
    {
        self.mode
    }

    /// Whether the session is over.
    pub fn is_finished(&self) -> (b: bool)
        ensures
            b == (self@.mode == Mode::Finished),
    {
        match self.mode {
            Mode::Finished => true,
            _ => false,
        }
    }

    /// The store, to read.
    pub fn store(&self) -> (store: &TaskStore)
        ensures
            store@ == self@.store,
    {
        &self.store
    }

    /// Takes one line of input, changes store and mode as the line asks, and
    /// says what it led to.
    pub fn step(&mut self, line: &str) -> (reply: Reply)
        requires
            old(self)@.accepts(line@),
        ensures
            final(self)@ == old(self)@.after(line@),
            reply == old(self)@.reply_to(line@),
            final(self)@.store.valid(),
    {
        match self.mode {
            Mode::Menu => match read_choice(line) {
                Some(Choice::Add) => {
                    self.mode = Mode::Description;
                    Reply::AskDescription
                },
                Some(Choice::List) => {
                    if self.store.is_empty() {
                        Reply::NoTasks
                    } else {
                        Reply::Tasks
                    }
                },
                Some(Choice::Complete) => {
                    self.mode = Mode::Identifier;
                    Reply::AskIdentifier
                },
                Some(Choice::Quit) => {
                    self.mode = Mode::Finished;
                    Reply::Goodbye
                },
                None => Reply::Refused(TaskError::UnrecognizedCommand),
            },
            Mode::Description => {
                self.mode = Mode::Menu;
                match self.store.add(line) {
                    Ok(id) => Reply::Added(id),
                    Err(error) => Reply::Refused(error),
                }
            },
            Mode::Identifier => {
                self.mode = Mode::Menu;
                match parse_id(trim(line)) {
                    Some(id) => match self.store.complete(id) {
                        Ok(()) => Reply::Completed(id),
                        Err(error) => {
                            proof {
                                lemma_complete_absent(old(self)@.store, id as nat);
                            }
                            Reply::Refused(error)
                        },
                    },
                    None => Reply::Refused(TaskError::InvalidIdentifier),
                }
            },
            Mode::Finished => Reply::Goodbye,
        }
    }
}

/// A line that is turned down leaves the store as it was, and the menu follows.
pub proof fn lemma_refusal_keeps_store(session: SessionView, line: Seq<char>)
    requires
        session.reply_to(line) is Refused,
    ensures
        session.after(line).store == session.store,
        session.after(line).mode == Mode::Menu,
{
    if session.mode == Mode::Identifier {
        match parsed_id(trimmed(line)) {
            Some(id) => {
                lemma_complete_absent(session.store, id as nat);
            },
            None => {},
        }
    }
}

/// A session ends on `4` at the menu, and on nothing else.
pub proof fn lemma_only_quit_ends(session: SessionView, line: Seq<char>)
    requires
        session.mode != Mode::Finished,
    ensures
        session.after(line).mode == Mode::Finished <==> session.mode == Mode::Menu && choice_of(
            line,
        ) == Some(Choice::Quit),
        session.after(line).mode == Mode::Finished <==> session.reply_to(line) == Reply::Goodbye,
{
}

/// Whatever the line, a session with a valid store has a valid store afterwards.
pub proof fn lemma_step_valid(session: SessionView, line: Seq<char>)
    requires
        session.store.valid(),
    ensures
        session.after(line).store.valid(),
{
    match session.mode {
        Mode::Description => {
            lemma_apply_valid(session.store, Op::Add(line));
        },
        Mode::Identifier => {
            match parsed_id(trimmed(line)) {
                Some(id) => {
                    lemma_apply_valid(
                        session.store,
                        Op::Complete(id as nat),
                    );
                },
                None => {},
            }
        },
        _ => {},
    }
}

/// Whatever is typed from the start, the store is valid.
pub proof fn lemma_session_valid(lines: Seq<Seq<char>>)
    ensures
        SessionView::start().after_all(lines).store.valid(),
    decreases lines.len(),
{
    if lines.len() > 0 {
        lemma_session_valid(lines.drop_last());
        lemma_step_valid(SessionView::start().after_all(lines.drop_last()), lines.last());
    }
}

/// A session that is over stays over, with the store as it was.
pub proof fn lemma_finished_stays(session: SessionView, lines: Seq<Seq<char>>)
    requires
        session.mode == Mode::Finished,
    ensures
        session.after_all(lines) == session,
    decreases lines.len(),
{
    if lines.len() > 0 {
        lemma_finished_stays(session, lines.drop_last());
    }
}

} // verus!

//! A single task and the marker that shows its state.

use crate::paint::{green, green_sequence, is_coloured, reset_sequence, yellow, yellow_sequence};
use vstd::prelude::*;

verus! {

/// A to-do item: an identifier, what is to be done, and whether it has been done.
#[derive(Debug, PartialEq, Eq)]
pub struct Task {
    /// The number by which the task is known.
    pub id: usize,
    /// What is to be done.
    pub description: String,
    /// Whether it has been done.
    pub completed: bool,
}

/// What a task is, as plain mathematical values.
pub struct TaskView {
    /// The number by which the task is known.
    pub id: nat,
    /// What is to be done.
    pub description: Seq<char>,
    /// Whether it has been done.
    pub completed: bool,
}

impl View for Task {
    type V = TaskView;

    open spec fn view(&self) -> TaskView {
        TaskView { id: self.id as nat, description: self.description@, completed: self.completed }
    }
}

/// The bare marker of a task's state: a check mark when done, a space when not.
pub open spec fn status_glyph(completed: bool) -> Seq<char> {
    if completed {
        seq!['\u{2713}']
    } else {
        seq![' ']
    }
}

/// The colour sequence that goes with a task's state: green when done, yellow when not.
pub open spec fn status_colour(completed: bool) -> Seq<char> {
    if completed {
        green_sequence()
    } else {
        yellow_sequence()
    }
}

/// Whether `text` is a marker for the given state: the glyph, in one of the
/// forms that colouring it can give.
pub open spec fn is_status_text(completed: bool, text: Seq<char>) -> bool {
    is_coloured(status_colour(completed), status_glyph(completed), text)
}

/// No text is a marker for both states: what is shown for a task that is done
/// differs from what is shown for one that is not.
pub proof fn lemma_status_distinct(done: Seq<char>, open: Seq<char>)
    requires
        is_status_text(true, done),
        is_status_text(false, open),
    ensures
        done != open,
{
    let check = status_glyph(true);
    if done.len() == open.len() {
        // the glyph stands first, or sixth after a colour sequence
        if done == check || done == check + reset_sequence() {
            assert(done[0] != open[0]);
        } else {
            assert(done[5] != open[5]);
        }
    }
}

impl Task {
    /// A task that is yet to be done.
    pub fn new(id: usize, description: String) -> (task: Task)
        ensures
            task.id == id,
            task.description == description,
            !task.completed,
    {
        Task { id, description, completed: false }
    }

    /// The marker to show: a green check mark for a task that is done, a
    /// yellow space for one that is not. Where colours are switched off the
    /// marker comes without its colour.
    pub fn status(&self) -> (text: String)
        ensures
            is_status_text(self.completed, text@),
    {
        if self.completed {
            proof {
                reveal_strlit("\u{2713}");
                assert("\u{2713}"@ =~= status_glyph(true));
            }
            green("\u{2713}")
        } else {
            proof {
                reveal_strlit(" ");
                assert(" "@ =~= status_glyph(false));
            }
            yellow(" ")
        }
    }
}

} // verus!

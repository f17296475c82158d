//! The ways in which input is turned down.

use vstd::prelude::*;

verus! {

/// Why an input was turned down. None of these changes the store.
#[derive(Debug, Clone, Copy, PartialEq, Eq, Structural)]
pub enum TaskError {
    /// The description was empty or held only whitespace.
    EmptyDescription,
    /// The text given as an identifier is not a number that fits.
    InvalidIdentifier,
    /// No task has this identifier.
    TaskNotFound(usize),
    /// The input matches no entry of the menu.
    UnrecognizedCommand,
}

} // verus!

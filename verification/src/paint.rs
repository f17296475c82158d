//! Terminal colours for short pieces of text.

use colored::Colorize;
use vstd::prelude::*;

verus! {

/// The sequence that ends every coloured stretch.
pub open spec fn reset_sequence() -> Seq<char> {
    seq!['\u{1b}', '[', '0', 'm']
}

/// The sequence that switches the foreground to green.
pub open spec fn green_sequence() -> Seq<char> {
    seq!['\u{1b}', '[', '3', '2', 'm']
}

/// The sequence that switches the foreground to yellow.
pub open spec fn yellow_sequence() -> Seq<char> {
    seq!['\u{1b}', '[', '3', '3', 'm']
}

/// `text` between the sequence `open` and the reset sequence.
pub open spec fn painted(open: Seq<char>, text: Seq<char>) -> Seq<char> {
    open + text + reset_sequence()
}

/// Whether the reset sequence occurs somewhere in `text`.
pub open spec fn holds_reset(text: Seq<char>) -> bool {
    exists|i: int|
        0 <= i && i + 4 <= text.len() && #[trigger] text.subrange(i, i + 4) == reset_sequence()
}

/// The texts that colouring `text` with the sequence `open` can give: `text`
/// as it is where colours are off, `text` between `open` and the reset sequence
/// where they are on, and `text` with the reset sequence alone where they are
/// switched off while the text is being written.
pub open spec fn is_coloured(open: Seq<char>, text: Seq<char>, result: Seq<char>) -> bool {
    result == text || result == painted(open, text) || result == text + reset_sequence()
}

/// `Colorize::green` on a `&str`, then `ToString::to_string` on the coloured
/// string. Whether colours are on is decided by the environment and by
/// `colored::control`, and is looked up more than once while the text is
/// written. With colours off the result is `text`; with colours on it is `text`
/// between the green and the reset sequence; where they go off in between, the
/// green sequence is left out. Nothing is claimed for a text that holds a reset
/// sequence, which `colored` rewrites.
#[verifier::external_body]
pub(crate) fn green(text: &str) -> (r: String)
    ensures
        !holds_reset(text@) ==> is_coloured(green_sequence(), text@, r@),
{
    text.green().to_string()
}

/// `Colorize::yellow` on a `&str`, then `ToString::to_string` on the coloured
/// string: as `green`, with the yellow sequence.
#[verifier::external_body]
pub(crate) fn yellow(text: &str) -> (r: String)
    ensures
        !holds_reset(text@) ==> is_coloured(yellow_sequence(), text@, r@),
{
    text.yellow().to_string()
}

} // verus!

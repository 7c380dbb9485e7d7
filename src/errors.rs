//! Fatal conditions of a run.
use vstd::prelude::*;

verus! {

/// What went wrong.
#[derive(Clone, Copy, Debug, PartialEq, Eq, Structural)]
pub enum ErrorKind {
    /// An incomplete keyphrase or an unterminated quoted text.
    Lexical,
    /// A token that does not continue the statement under way, or a statement
    /// left incomplete at the end of its line.
    Parse,
    /// An operation on state that does not allow it: no page selected, a
    /// repeated entry name, a full page, an empty drawer or floor, no memory,
    /// an unknown spell, a spell that cannot act.
    Precondition,
    /// A value that the page's kind cannot hold.
    Coercion,
    /// Values that do not combine in the cauldron.
    Combine,
    /// A jump to a checkpoint that does not exist, or a line cursor moved out
    /// of range.
    Underflow,
}

/// A fatal condition and the source line it arose on.
#[derive(Clone, Copy, Debug, PartialEq, Eq, Structural)]
pub struct SpellbookError {
    pub kind: ErrorKind,
    pub line: usize,
}

} // verus!

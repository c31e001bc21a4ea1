//! Plain models of the key events and errors the prompt engine consumes.
//!
//! The terminal layer translates its own event types into these before
//! handing them to the library, so every decision the engine makes is over
//! values Verus can reason about.

use vstd::prelude::*;

verus! {

/// One key press, reduced to the keys the prompt engine reacts to.
/// Every other key arrives as `Other` and is ignored.
#[derive(Clone, Copy, Debug, PartialEq, Eq, Structural)]
pub enum KeyInput {
    Char(char),
    Enter,
    Backspace,
    Esc,
    Other,
}

/// The modifier set held down with the key: no modifier at all (`Plain`),
/// shift or control alone, or any combination the engine does not
/// distinguish (`Other`).
#[derive(Clone, Copy, Debug, PartialEq, Eq, Structural)]
pub enum KeyMods {
    Plain,
    Shift,
    Control,
    Other,
}

/// Why a prompt stopped without producing a value.
#[derive(Clone, Copy, Debug, PartialEq, Eq, Structural)]
pub enum PromptError {
    /// The user pressed Ctrl-C; the whole prompt is abandoned.
    Interrupted,
    /// A cursor or viewport offset does not fit in the terminal's
    /// coordinate type.
    ConversionOverflow,
}

impl PromptError {
    /// A short description, for display by the caller.
    pub fn message(&self) -> (r: &'static str)
        ensures
            self is Interrupted ==> r@ == "ctrl-c sent"@,
            self is ConversionOverflow ==> r@ == "coordinate does not fit in a terminal cell index"@,
    {
        match self {
            PromptError::Interrupted => "ctrl-c sent",
            PromptError::ConversionOverflow => "coordinate does not fit in a terminal cell index",
        }
    }
}

/// The cursor glyph a prompt asks the terminal to show: a block outside
/// insert mode, a bar while inserting.
#[derive(Clone, Copy, Debug, PartialEq, Eq, Structural)]
pub enum CursorShape {
    SteadyBlock,
    SteadyBar,
}

} // verus!

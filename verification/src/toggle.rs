//! Boolean toggle prompt: a single yes/no value flipped by single keys.
//!
//! `h`, `t` and `y` choose yes; `l`, `f` and `n` choose no; Enter accepts
//! the current value and Ctrl-C abandons the prompt.

use vstd::prelude::*;

use crate::keys::{KeyInput, KeyMods, PromptError};

verus! {

/// The toggle value after one key event.
pub open spec fn spec_toggle_value(current: bool, key: KeyInput, mods: KeyMods) -> bool {
    if mods == KeyMods::Plain || mods == KeyMods::Shift {
        match key {
            KeyInput::Char(c) => {
                if c == 'l' || c == 'f' || c == 'n' {
                    false
                } else if c == 'h' || c == 't' || c == 'y' {
                    true
                } else {
                    current
                }
            },
            _ => current,
        }
    } else {
        current
    }
}

/// Interpret one key event against the toggle's current value.
///
/// Returns the pair (done, value): `done` only on Enter, the updated value
/// otherwise; Ctrl-C fails with `Interrupted` as everywhere else.
pub fn toggle_step(current: bool, key: KeyInput, mods: KeyMods) -> (r: Result<
    (bool, bool),
    PromptError,
>)
    ensures
        key == KeyInput::Char('c') && mods == KeyMods::Control ==> r == Err::<
            (bool, bool),
            PromptError,
        >(PromptError::Interrupted),
        !(key == KeyInput::Char('c') && mods == KeyMods::Control) ==> r == Ok::<
            (bool, bool),
            PromptError,
        >(
            (
                key == KeyInput::Enter && (mods == KeyMods::Plain || mods == KeyMods::Shift),
                spec_toggle_value(current, key, mods),
            ),
        ),
{
    if matches!(key, KeyInput::Char('c')) && matches!(mods, KeyMods::Control) {
        return Err(PromptError::Interrupted);
    }
    if matches!(mods, KeyMods::Plain) || matches!(mods, KeyMods::Shift) {
        match key {
            KeyInput::Enter => Ok((true, current)),
            KeyInput::Char(c) => {
                if c == 'l' || c == 'f' || c == 'n' {
                    Ok((false, false))
                } else if c == 'h' || c == 't' || c == 'y' {
                    Ok((false, true))
                } else {
                    Ok((false, current))
                }
            },
            _ => Ok((false, current)),
        }
    } else {
        Ok((false, current))
    }
}

} // verus!

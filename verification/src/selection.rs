//! Selection list engine: a fuzzy-filtered list of options with a
//! scrolling viewport and an embedded line editor for the filter text.
//!
//! `selected` indexes into the currently filtered list, `first_item` is the
//! top of the viewport, and `items_shown` is the viewport's height. When the
//! filter matches nothing the selection and viewport freeze at their last
//! valid values and Enter does nothing.

use vstd::prelude::*;

use crate::editor::{handle_key, spec_step, step_done, step_interrupts, EdView, PromptMode, PromptState};
use crate::fuzzy::{filter_options, is_filtered_sequence, matched_count, split_ws};
use crate::keys::{KeyInput, KeyMods, PromptError};

verus! {

/// Most options ever drawn at once.
pub const MAX_OPTIONS_SHOWN: usize = 10;

/// The state of one selection prompt.
pub struct SelectionState {
    pub selected: u16,
    pub first_item: u16,
    pub items_shown: u16,
    pub max_index: u16,
    pub has_options: bool,
    pub prompt_state: PromptState,
}

/// The selection stays between the top of the viewport and the last
/// filtered option.
pub open spec fn sel_in_range(selected: int, first_item: int, max_index: int) -> bool {
    0 <= first_item <= selected <= max_index
}

/// The selection stays inside the viewport.
pub open spec fn sel_visible(selected: int, first_item: int, items_shown: int) -> bool {
    first_item <= selected < first_item + items_shown
}

/// Selection and viewport after one `next_item`.
pub open spec fn nav_next(sel: int, first: int, shown: int, max: int) -> (int, int) {
    if sel < max {
        let sel2 = sel + 1;
        if first + shown - 2 < sel2 && first < max {
            (sel2, first + 1)
        } else {
            (sel2, first)
        }
    } else {
        (sel, first)
    }
}

/// Selection and viewport after one `previous_item`.
pub open spec fn nav_prev(sel: int, first: int, shown: int, max: int) -> (int, int) {
    if sel > 0 {
        let sel2 = sel - 1;
        if first + 1 > sel2 && first > 0 {
            (sel2, first - 1)
        } else {
            (sel2, first)
        }
    } else {
        (sel, first)
    }
}

/// Selection and viewport after the filtered list's size changes: the
/// selection is clamped down to the new last option, and when the viewport
/// would extend past it the viewport is pulled back to end there (never
/// below 0, and never past what the terminal's coordinate type can hold).
pub open spec fn nav_rebound(sel: int, first: int, shown: int, new_max: int) -> (int, int) {
    let sel2 = if sel > new_max {
        new_max
    } else {
        sel
    };
    let first2 = if first + shown - 1 > new_max {
        if new_max - shown + 1 > 0 {
            if new_max - shown + 1 <= u16::MAX {
                new_max - shown + 1
            } else {
                u16::MAX as int
            }
        } else {
            0
        }
    } else {
        first
    };
    (sel2, first2)
}

impl SelectionState {
    pub fn new(items_shown: u16, input_start: u16, input_row: u16, max_index: u16) -> (r: Self)
        ensures
            r.selected == 0,
            r.first_item == 0,
            r.items_shown == items_shown,
            r.max_index == max_index,
            r.has_options,
            r.prompt_state@ == (EdView {
                cursor: 0,
                line: Seq::<char>::empty(),
                mode: PromptMode::Insert,
            }),
            r.prompt_state.input_start == input_start,
            r.prompt_state.input_row == input_row,
            r.prompt_state.wf(),
    {
        SelectionState {
            selected: 0,
            first_item: 0,
            items_shown,
            max_index,
            has_options: true,
            prompt_state: PromptState::new(input_start, input_row),
        }
    }

    /// Record the filtered list's new size, clamping the selection down to
    /// it; when the viewport would extend past the new last option, pull it
    /// back so its last row lands there.
    pub fn update_max_index(&mut self, max_index: u16, has_options: bool)
        ensures
            final(self).max_index == max_index,
            final(self).has_options == has_options,
            (final(self).selected as int, final(self).first_item as int) == nav_rebound(
                old(self).selected as int,
                old(self).first_item as int,
                old(self).items_shown as int,
                max_index as int,
            ),
            final(self).items_shown == old(self).items_shown,
            final(self).prompt_state == old(self).prompt_state,
            old(self).items_shown >= 1 && old(self).first_item <= old(self).selected
                ==> sel_in_range(
                final(self).selected as int,
                final(self).first_item as int,
                final(self).max_index as int,
            ),
    {
        self.has_options = has_options;
        self.max_index = max_index;
        if self.selected > self.max_index {
            self.selected = self.max_index;
        }
        if (self.first_item as u32) + (self.items_shown as u32) > (self.max_index as u32) + 1 {
            if (self.max_index as u32) + 1 > (self.items_shown as u32) {
                let pulled_back = (self.max_index as u32) - (self.items_shown as u32) + 1;
                self.first_item = if pulled_back > u16::MAX as u32 {
                    u16::MAX
                } else {
                    pulled_back as u16
                };
            } else {
                self.first_item = 0;
            }
        }
    }

    /// Move the selection down one option, scrolling the viewport when the
    /// selection would fall within one row of its bottom.
    pub fn next_item(&mut self)
        ensures
            (final(self).selected as int, final(self).first_item as int) == nav_next(
                old(self).selected as int,
                old(self).first_item as int,
                old(self).items_shown as int,
                old(self).max_index as int,
            ),
            final(self).items_shown == old(self).items_shown,
            final(self).max_index == old(self).max_index,
            final(self).has_options == old(self).has_options,
            final(self).prompt_state == old(self).prompt_state,
    {
        if self.selected < self.max_index {
            self.selected = self.selected + 1;
            // keep one row of lookahead visible below the selection
            if (self.first_item as u32) + (self.items_shown as u32) < (self.selected as u32) + 2
                && self.first_item < self.max_index {
                self.first_item = self.first_item + 1;
            }
        }
    }

    /// Move the selection up one option, scrolling the viewport when the
    /// selection reaches its top row.
    pub fn previous_item(&mut self)
        ensures
            (final(self).selected as int, final(self).first_item as int) == nav_prev(
                old(self).selected as int,
                old(self).first_item as int,
                old(self).items_shown as int,
                old(self).max_index as int,
            ),
            final(self).items_shown == old(self).items_shown,
            final(self).max_index == old(self).max_index,
            final(self).has_options == old(self).has_options,
            final(self).prompt_state == old(self).prompt_state,
    {
        if self.selected > 0 {
            self.selected = self.selected - 1;
            // keep the selected row on screen
            if (self.first_item as u32) + 1 > (self.selected as u32) && self.first_item > 0 {
                self.first_item = self.first_item - 1;
            }
        }
    }
}

/// One navigation step keeps the selection between the viewport's top and
/// the end of the list, and inside the viewport.
pub proof fn lemma_nav_step_preserves_viewport(
    sel: int,
    first: int,
    shown: int,
    max: int,
    down: bool,
)
    requires
        shown >= 1,
        sel_in_range(sel, first, max),
        sel_visible(sel, first, shown),
    ensures
        ({
            let (sel2, first2) = if down {
                nav_next(sel, first, shown, max)
            } else {
                nav_prev(sel, first, shown, max)
            };
            sel_in_range(sel2, first2, max) && sel_visible(sel2, first2, shown)
        }),
{
}

/// A whole run of `next_item`/`previous_item` calls, as the keys arrive:
/// `true` moves down, `false` moves up.
pub open spec fn nav_apply(sel: int, first: int, shown: int, max: int, ops: Seq<bool>) -> (
    int,
    int,
)
    decreases ops.len(),
{
    if ops.len() == 0 {
        (sel, first)
    } else {
        let (sel1, first1) = if ops[0] {
            nav_next(sel, first, shown, max)
        } else {
            nav_prev(sel, first, shown, max)
        };
        nav_apply(sel1, first1, shown, max, ops.skip(1))
    }
}

/// The viewport invariant holds after every sequence of `next_item` and
/// `previous_item` calls: the selection never leaves `[first_item,
/// first_item + items_shown - 1]`, the viewport never starts below 0, and
/// the selection stays within the list.
pub proof fn lemma_nav_viewport_invariant(
    sel: int,
    first: int,
    shown: int,
    max: int,
    ops: Seq<bool>,
)
    requires
        shown >= 1,
        sel_in_range(sel, first, max),
        sel_visible(sel, first, shown),
    ensures
        ({
            let (sel2, first2) = nav_apply(sel, first, shown, max, ops);
            sel_in_range(sel2, first2, max) && sel_visible(sel2, first2, shown)
        }),
    decreases ops.len(),
{
    if ops.len() > 0 {
        lemma_nav_step_preserves_viewport(sel, first, shown, max, ops[0]);
        let (sel1, first1) = if ops[0] {
            nav_next(sel, first, shown, max)
        } else {
            nav_prev(sel, first, shown, max)
        };
        lemma_nav_viewport_invariant(sel1, first1, shown, max, ops.skip(1));
    }
}

/// Dispatch one key event for the selection prompt: Enter accepts when
/// matches exist, `j`/`k` (normal mode) and Ctrl-N/Ctrl-P (insert mode)
/// move the selection, and everything else edits the filter text.
pub fn select_handle_key(state: &mut SelectionState, key: KeyInput, mods: KeyMods) -> (r: Result<
    bool,
    PromptError,
>)
    requires
        old(state).prompt_state.wf(),
    ensures
        final(state).prompt_state.wf(),
        final(state).items_shown == old(state).items_shown,
        final(state).max_index == old(state).max_index,
        final(state).has_options == old(state).has_options,
        ({
            let mode = old(state).prompt_state@.mode;
            if key == KeyInput::Enter && mods == KeyMods::Plain {
                &&& *final(state) == *old(state)
                &&& r == Ok::<bool, PromptError>(old(state).has_options)
            } else if mode == PromptMode::Normal && key == KeyInput::Char('j') && mods
                == KeyMods::Plain {
                &&& (final(state).selected as int, final(state).first_item as int) == nav_next(
                    old(state).selected as int,
                    old(state).first_item as int,
                    old(state).items_shown as int,
                    old(state).max_index as int,
                )
                &&& final(state).prompt_state == old(state).prompt_state
                &&& r == Ok::<bool, PromptError>(false)
            } else if mode == PromptMode::Normal && key == KeyInput::Char('k') && mods
                == KeyMods::Plain {
                &&& (final(state).selected as int, final(state).first_item as int) == nav_prev(
                    old(state).selected as int,
                    old(state).first_item as int,
                    old(state).items_shown as int,
                    old(state).max_index as int,
                )
                &&& final(state).prompt_state == old(state).prompt_state
                &&& r == Ok::<bool, PromptError>(false)
            } else if mode == PromptMode::Insert && key == KeyInput::Char('n') && mods
                == KeyMods::Control {
                &&& (final(state).selected as int, final(state).first_item as int) == nav_next(
                    old(state).selected as int,
                    old(state).first_item as int,
                    old(state).items_shown as int,
                    old(state).max_index as int,
                )
                &&& final(state).prompt_state == old(state).prompt_state
                &&& r == Ok::<bool, PromptError>(false)
            } else if mode == PromptMode::Insert && key == KeyInput::Char('p') && mods
                == KeyMods::Control {
                &&& (final(state).selected as int, final(state).first_item as int) == nav_prev(
                    old(state).selected as int,
                    old(state).first_item as int,
                    old(state).items_shown as int,
                    old(state).max_index as int,
                )
                &&& final(state).prompt_state == old(state).prompt_state
                &&& r == Ok::<bool, PromptError>(false)
            } else {
                &&& final(state).selected == old(state).selected
                &&& final(state).first_item == old(state).first_item
                &&& final(state).prompt_state@ == spec_step(old(state).prompt_state@, key, mods)
                &&& final(state).prompt_state.input_start == old(
                    state,
                ).prompt_state.input_start
                &&& final(state).prompt_state.input_row == old(state).prompt_state.input_row
                &&& r == (if step_interrupts(key, mods) {
                    Err::<bool, PromptError>(PromptError::Interrupted)
                } else {
                    Ok::<bool, PromptError>(step_done(key, mods))
                })
            }
        }),
{
    if matches!(key, KeyInput::Enter) && matches!(mods, KeyMods::Plain) {
        if state.has_options {
            return Ok(true);
        }
        return Ok(false);
    }
    let in_normal = matches!(state.prompt_state.mode, PromptMode::Normal);
    let in_insert = matches!(state.prompt_state.mode, PromptMode::Insert);
    if in_normal && matches!(key, KeyInput::Char('j')) && matches!(mods, KeyMods::Plain) {
        state.next_item();
        Ok(false)
    } else if in_normal && matches!(key, KeyInput::Char('k')) && matches!(mods, KeyMods::Plain) {
        state.previous_item();
        Ok(false)
    } else if in_insert && matches!(key, KeyInput::Char('n')) && matches!(mods, KeyMods::Control) {
        state.next_item();
        Ok(false)
    } else if in_insert && matches!(key, KeyInput::Char('p')) && matches!(mods, KeyMods::Control) {
        state.previous_item();
        Ok(false)
    } else {
        handle_key(&mut state.prompt_state, key, mods)
    }
}

/// The list size `refilter` reports to the viewport for a filtered list of
/// `len` options: one less than the option count, except that a count
/// beyond the terminal's coordinate type falls back to the viewport height
/// and an empty list reports 0.
pub open spec fn refiltered_max(len: int, shown: int) -> int {
    if len == 0 {
        0
    } else if len <= u16::MAX {
        len - 1
    } else if shown >= 1 {
        shown - 1
    } else {
        0
    }
}

/// Re-filter the options against the current filter text and fold the new
/// list size into the selection state: the selection is clamped to the new
/// list and the viewport pulled back exactly as `nav_rebound` says, and the
/// no-match state freezes the selection with Enter disabled.
/// Returns the filtered option indices, best first.
pub fn refilter(state: &mut SelectionState, options: &Vec<String>) -> (r: Vec<usize>)
    requires
        old(state).prompt_state.wf(),
    ensures
        final(state).prompt_state == old(state).prompt_state,
        final(state).items_shown == old(state).items_shown,
        is_filtered_sequence(r@, options@, split_ws(old(state).prompt_state.line@)),
        final(state).has_options == (r@.len() > 0),
        final(state).max_index == refiltered_max(
            r@.len() as int,
            old(state).items_shown as int,
        ),
        (final(state).selected as int, final(state).first_item as int) == nav_rebound(
            old(state).selected as int,
            old(state).first_item as int,
            old(state).items_shown as int,
            refiltered_max(r@.len() as int, old(state).items_shown as int),
        ),
{
    let filtered = filter_options(&state.prompt_state.line, options);
    if filtered.len() == 0 {
        state.update_max_index(0, false);
    } else {
        let new_num_items: u16 = if filtered.len() <= u16::MAX as usize {
            filtered.len() as u16
        } else {
            state.items_shown
        };
        if new_num_items >= 1 {
            state.update_max_index(new_num_items - 1, true);
        } else {
            state.update_max_index(0, true);
        }
    }
    filtered
}

/// The option the selection currently rests on, after one final filtering
/// of the options against the filter text: the entry at position `selected`
/// of the score-ordered filtered list (the one list `is_filtered_sequence`
/// allows), or nothing when the selection lies past that list.
pub fn selected_option(state: &SelectionState, options: &Vec<String>) -> (r: Option<String>)
    requires
        state.prompt_state.wf(),
    ensures
        ({
            let terms = split_ws(state.prompt_state.line@);
            &&& r.is_some() == ((state.selected as int) < matched_count(
                options@,
                terms,
                options@.len() as int,
            ))
            &&& r matches Some(s) ==> exists|f: Seq<usize>|
                #[trigger] is_filtered_sequence(f, options@, terms) && (state.selected as int)
                    < f.len() && s == options@[f[state.selected as int] as int]
        }),
{
    let filtered = filter_options(&state.prompt_state.line, options);
    if (state.selected as usize) < filtered.len() {
        let idx = filtered[state.selected as usize];
        let chosen = options[idx].clone();
        proof {
            let terms = split_ws(state.prompt_state.line@);
            assert(is_filtered_sequence(filtered@, options@, terms) && (state.selected as int)
                < filtered@.len() && chosen == options@[filtered@[state.selected as int] as int]);
        }
        Some(chosen)
    } else {
        None
    }
}

} // verus!

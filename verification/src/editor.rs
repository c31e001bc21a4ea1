//! Modal single-line editor: cursor, text and mode, driven one key at a time.
//!
//! The text is a vector of characters and the cursor is a character offset,
//! so cursor arithmetic never crosses byte boundaries (each character is
//! assumed to occupy one terminal column; wide glyphs are a known
//! limitation). In `Insert` mode the cursor may rest one past the end of
//! the text; in `Normal` and operator-pending modes motions keep it on the
//! last character.
//!
//! `handle_key` is the only mutator the prompt loops call; its contract
//! pins the whole state transition to the specification function
//! [`spec_step`].

use vstd::prelude::*;

use crate::keys::{CursorShape, KeyInput, KeyMods, PromptError};
use crate::words::{
    find_non_word_at, find_word_at, first_non_word_at, first_word_at, is_word_char, last_non_word_at,
    last_offset, last_word_at, lemma_first_word_at_bounds, lemma_first_word_at_found,
    lemma_last_word_at_bounds, lemma_motion_targets_in_bounds, lemma_word_start_moves_backward,
    spec_next_word_start, spec_word_end, spec_word_start,
};

verus! {

/// Qualifier refining the range an operator acts on: none yet (also the
/// "to next word" reading), the inner word only, or the word together with
/// the run of characters up to the next word.
#[derive(Clone, Copy, Debug, PartialEq, Eq, Structural)]
pub enum OpAdjust {
    Empty,
    Around,
    Inner,
}

/// A pending change or delete operator, with its qualifier.
#[derive(Clone, Copy, Debug, PartialEq, Eq, Structural)]
pub enum Operation {
    Change(OpAdjust),
    Delete(OpAdjust),
}

/// Editor mode: plain insertion, normal-mode motions, or a two-key
/// operator waiting for its motion.
#[derive(Clone, Copy, Debug, PartialEq, Eq, Structural)]
pub enum PromptMode {
    Normal,
    Insert,
    OperatorPending(Operation),
}

/// The mathematical model of an editor: a cursor offset, the text as a
/// sequence of characters, and the mode.
#[verifier::ext_equal]
pub ghost struct EdView {
    pub cursor: int,
    pub line: Seq<char>,
    pub mode: PromptMode,
}

/// The line buffer of one prompt: cursor offset, text, mode, and the fixed
/// screen position where rendering of the text begins.
pub struct PromptState {
    pub cursor: usize,
    pub input_start: u16,
    pub input_row: u16,
    pub line: Vec<char>,
    pub mode: PromptMode,
}

impl View for PromptState {
    type V = EdView;

    open spec fn view(&self) -> EdView {
        EdView { cursor: self.cursor as int, line: self.line@, mode: self.mode }
    }
}

/// Largest cursor offset the mode allows: one past the end in `Insert`
/// mode, the last character (or 0 on empty text) otherwise.
pub open spec fn ed_max_cursor(v: EdView) -> int {
    match v.mode {
        PromptMode::Insert => v.line.len() as int,
        _ => last_offset(v.line),
    }
}

/// The editor's invariant: in insert mode the cursor may rest one past the
/// end of the text; in normal and operator-pending modes it stays on the
/// last character (offset 0 on empty text). Deletes outside insert mode
/// clamp the cursor back onto the text to keep this.
pub open spec fn ed_wf(v: EdView) -> bool {
    0 <= v.cursor <= ed_max_cursor(v)
}

impl PromptState {
    pub open spec fn wf(&self) -> bool {
        ed_wf(self@)
    }

    pub fn new(input_start: u16, input_row: u16) -> (r: Self)
        ensures
            r@ == (EdView { cursor: 0, line: Seq::<char>::empty(), mode: PromptMode::Insert }),
            r.input_start == input_start,
            r.input_row == input_row,
            r.wf(),
    {
        let s = PromptState {
            cursor: 0,
            input_start,
            input_row,
            line: Vec::new(),
            mode: PromptMode::Insert,
        };
        proof {
            assert(s@ =~= EdView { cursor: 0, line: Seq::<char>::empty(), mode: PromptMode::Insert });
        }
        s
    }

    pub fn max_cursor(&self) -> (r: usize)
        ensures
            r == ed_max_cursor(self@),
    {
        match self.mode {
            PromptMode::Insert => self.line.len(),
            _ => {
                if self.line.len() == 0 {
                    0
                } else {
                    self.line.len() - 1
                }
            },
        }
    }

    pub fn insert_mode(&mut self)
        ensures
            final(self)@ == (EdView { mode: PromptMode::Insert, ..old(self)@ }),
            final(self).input_start == old(self).input_start,
            final(self).input_row == old(self).input_row,
    {
        self.mode = PromptMode::Insert;
    }

    pub fn normal_mode(&mut self)
        ensures
            final(self)@ == (EdView { mode: PromptMode::Normal, ..old(self)@ }),
            final(self).input_start == old(self).input_start,
            final(self).input_row == old(self).input_row,
    {
        self.mode = PromptMode::Normal;
    }

    pub fn operator_pending_mode(&mut self, op: Operation)
        ensures
            final(self)@ == (EdView { mode: PromptMode::OperatorPending(op), ..old(self)@ }),
            final(self).input_start == old(self).input_start,
            final(self).input_row == old(self).input_row,
    {
        self.mode = PromptMode::OperatorPending(op);
    }

    pub fn move_to_start(&mut self)
        ensures
            final(self)@ == (EdView { cursor: 0, ..old(self)@ }),
            final(self).input_start == old(self).input_start,
            final(self).input_row == old(self).input_row,
    {
        self.cursor = 0;
    }

    pub fn move_to_end(&mut self)
        ensures
            final(self)@ == (EdView { cursor: ed_max_cursor(old(self)@), ..old(self)@ }),
            final(self).input_start == old(self).input_start,
            final(self).input_row == old(self).input_row,
    {
        self.cursor = self.max_cursor();
    }

    pub fn move_left(&mut self)
        ensures
            final(self)@ == (EdView { cursor: ed_moved_left(old(self)@), ..old(self)@ }),
            final(self).input_start == old(self).input_start,
            final(self).input_row == old(self).input_row,
    {
        if self.cursor > 0 {
            self.cursor = self.cursor - 1;
        }
    }

    pub fn move_right(&mut self)
        ensures
            final(self)@ == (EdView { cursor: ed_moved_right(old(self)@), ..old(self)@ }),
            final(self).input_start == old(self).input_start,
            final(self).input_row == old(self).input_row,
    {
        let max_cursor = self.max_cursor();
        if self.cursor < max_cursor {
            self.cursor = self.cursor + 1;
        }
    }

    /// Offset the `e` motion lands on, from the current cursor.
    pub fn get_current_word_end(&self) -> (r: usize)
        requires
            self.wf(),
        ensures
            r == spec_word_end(self@.line, self@.cursor),
    {
        let len = self.line.len();
        let i = if self.cursor >= len {
            len
        } else {
            find_word_at(&self.line, self.cursor + 1)
        };
        if i == len {
            if len == 0 {
                0
            } else {
                len - 1
            }
        } else {
            proof {
                lemma_first_word_at_found(self@.line, self@.cursor + 1);
                assert(first_non_word_at(self@.line, i as int) == first_non_word_at(
                    self@.line,
                    i + 1,
                ));
                lemma_first_word_at_bounds(self@.line, i + 1);
            }
            let j = find_non_word_at(&self.line, i);
            j - 1
        }
    }

    /// Offset the `b` motion lands on, from the current cursor.
    pub fn get_current_word_start(&self) -> (r: usize)
        requires
            self.wf(),
        ensures
            r == spec_word_start(self@.line, self@.cursor),
    {
        let ghost s = self@.line;
        let ghost c = self@.cursor;
        let mut i: usize = self.cursor;
        while i > 0 && !is_word_char(self.line[i - 1])
            invariant
                0 <= i <= c,
                c <= s.len(),
                s == self.line@,
                last_word_at(s, c - 1) == last_word_at(s, i - 1),
            decreases i,
        {
            i = i - 1;
        }
        if i == 0 {
            proof {
                assert(last_word_at(s, -1) == -1);
            }
            return 0;
        }
        // the character at i - 1 begins the backward word scan
        let ghost b = i - 1;
        let mut j: usize = i - 1;
        while j > 0 && is_word_char(self.line[j - 1])
            invariant
                0 <= j <= b,
                b < s.len(),
                s == self.line@,
                last_non_word_at(s, b) == last_non_word_at(s, j - 1),
            decreases j,
        {
            j = j - 1;
        }
        proof {
            if j == 0 {
                assert(last_non_word_at(s, -1) == -1);
            }
        }
        j
    }

    /// Offset the `w` motion lands on, from the current cursor.
    pub fn get_next_word_start(&self) -> (r: usize)
        requires
            self.wf(),
        ensures
            r == spec_next_word_start(self@.line, self@.cursor),
    {
        let len = self.line.len();
        let i0 = find_non_word_at(&self.line, self.cursor);
        proof {
            lemma_first_word_at_bounds(self@.line, self@.cursor);
        }
        let j = find_word_at(&self.line, i0);
        if j == len {
            if len == 0 {
                0
            } else {
                len - 1
            }
        } else {
            j
        }
    }

    pub fn move_to_current_word_end(&mut self)
        requires
            old(self).wf(),
        ensures
            final(self)@ == ed_word_end_moved(old(self)@),
            final(self).wf(),
            final(self).input_start == old(self).input_start,
            final(self).input_row == old(self).input_row,
    {
        if self.cursor < self.max_cursor() {
            proof {
                lemma_motion_targets_in_bounds(self@.line, self@.cursor);
            }
            self.cursor = self.get_current_word_end();
        }
    }

    pub fn move_to_current_word_start(&mut self)
        requires
            old(self).wf(),
        ensures
            final(self)@ == ed_word_start_moved(old(self)@),
            final(self).wf(),
            final(self).input_start == old(self).input_start,
            final(self).input_row == old(self).input_row,
    {
        if self.cursor > 0 {
            proof {
                lemma_word_start_moves_backward(self@.line, self@.cursor);
            }
            self.cursor = self.get_current_word_start();
        }
    }

    pub fn move_to_next_word_start(&mut self)
        requires
            old(self).wf(),
        ensures
            final(self)@ == ed_next_word_moved(old(self)@),
            final(self).wf(),
            final(self).input_start == old(self).input_start,
            final(self).input_row == old(self).input_row,
    {
        if self.cursor < self.max_cursor() {
            proof {
                lemma_motion_targets_in_bounds(self@.line, self@.cursor);
            }
            self.cursor = self.get_next_word_start();
        }
    }

    /// Remove the characters in `[start, end)` and leave the cursor at
    /// `start`.
    pub fn delete_range(&mut self, start: usize, end: usize)
        requires
            start <= end <= old(self).line.len(),
        ensures
            final(self)@ == (EdView {
                cursor: start as int,
                line: old(self)@.line.subrange(0, start as int) + old(self)@.line.subrange(
                    end as int,
                    old(self)@.line.len() as int,
                ),
                mode: old(self)@.mode,
            }),
            final(self).input_start == old(self).input_start,
            final(self).input_row == old(self).input_row,
    {
        let ghost s = self.line@;
        let mut out: Vec<char> = Vec::new();
        let mut k: usize = 0;
        while k < start
            invariant
                0 <= k <= start,
                start <= end <= s.len(),
                s == self.line@,
                out@ =~= s.subrange(0, k as int),
            decreases start - k,
        {
            out.push(self.line[k]);
            k = k + 1;
        }
        let mut k2: usize = end;
        while k2 < self.line.len()
            invariant
                end <= k2 <= s.len(),
                start <= end <= s.len(),
                s == self.line@,
                out@ =~= s.subrange(0, start as int) + s.subrange(end as int, k2 as int),
            decreases s.len() - k2,
        {
            out.push(self.line[k2]);
            k2 = k2 + 1;
        }
        self.line = out;
        self.cursor = start;
        proof {
            assert(final(self)@ =~= EdView {
                cursor: start as int,
                line: s.subrange(0, start as int) + s.subrange(end as int, s.len() as int),
                mode: old(self)@.mode,
            });
        }
    }

    /// Remove the character under the cursor; on an empty text or with the
    /// cursor past the end this does nothing.
    pub fn delete_current_char(&mut self)
        ensures
            final(self)@ == ed_deleted_current(old(self)@),
            final(self).input_start == old(self).input_start,
            final(self).input_row == old(self).input_row,
    {
        if self.cursor < self.line.len() {
            self.line.remove(self.cursor);
        }
    }

    /// Clear the whole text and rest the cursor at the start.
    pub fn delete_all(&mut self)
        ensures
            final(self)@ == (EdView {
                cursor: 0,
                line: Seq::<char>::empty(),
                mode: old(self)@.mode,
            }),
            final(self).input_start == old(self).input_start,
            final(self).input_row == old(self).input_row,
    {
        self.line = Vec::new();
        self.cursor = 0;
        proof {
            assert(final(self)@ =~= EdView {
                cursor: 0,
                line: Seq::<char>::empty(),
                mode: old(self)@.mode,
            });
        }
    }

    /// Pull the cursor back onto the text's last offset after a delete
    /// shortened the text under it.
    pub fn clamp_cursor(&mut self)
        ensures
            final(self)@ == ed_clamped(old(self)@),
            final(self).input_start == old(self).input_start,
            final(self).input_row == old(self).input_row,
    {
        let last = if self.line.len() == 0 {
            0
        } else {
            self.line.len() - 1
        };
        if self.cursor > last {
            self.cursor = last;
        }
    }

    /// Insert a character at the cursor (or push it at the end when the
    /// cursor rests one past the last character).
    pub fn insert_char(&mut self, c: char)
        requires
            old(self).wf(),
        ensures
            final(self)@ == (EdView {
                line: ed_inserted_line(old(self)@, c),
                ..old(self)@
            }),
            final(self).wf(),
            final(self).input_start == old(self).input_start,
            final(self).input_row == old(self).input_row,
    {
        if self.cursor < self.max_cursor() {
            self.line.insert(self.cursor, c);
        } else {
            self.line.push(c);
        }
    }

    /// Delete the range an operator with qualifier `adjustment` covers:
    /// from the cursor (or the word's start for a qualified operator) up to
    /// the inner word's end or the next word's start, as the qualifier
    /// asks. On empty text this does nothing.
    pub fn delete_word(&mut self, adjustment: OpAdjust)
        requires
            old(self).wf(),
        ensures
            final(self)@ == ed_word_deleted(old(self)@, adjustment),
            0 <= final(self)@.cursor <= final(self)@.line.len(),
            final(self).input_start == old(self).input_start,
            final(self).input_row == old(self).input_row,
    {
        if self.line.len() == 0 {
            return ;
        }
        proof {
            lemma_motion_targets_in_bounds(self@.line, self@.cursor);
            lemma_word_start_moves_backward(self@.line, self@.cursor);
        }
        let start = if matches!(adjustment, OpAdjust::Empty) {
            self.cursor
        } else {
            self.get_current_word_start()
        };

        let end = if matches!(adjustment, OpAdjust::Inner) {
            self.get_current_word_end()
        } else {
            let word_start = self.get_next_word_start();
            if word_start == self.line.len() - 1 {
                word_start
            } else {
                proof {
                    let s = self@.line;
                    let c = self@.cursor;
                    lemma_first_word_at_bounds(s, c);
                    let nw = first_non_word_at(s, c);
                    lemma_first_word_at_bounds(s, nw);
                    lemma_first_word_at_found(s, nw);
                    lemma_first_word_at_found(s, c);
                    // a next word start left of the last offset sits after
                    // at least one non-word character, so it is not 0
                    assert(word_start as int >= 1) by {
                        if first_word_at(s, nw) == 0 {
                            assert(nw == 0);
                            assert(!crate::words::alphanumeric_of(s[0]));
                        }
                    }
                }
                word_start - 1
            }
        };
        proof {
            lemma_delete_word_range(self@, adjustment);
        }
        self.delete_range(start, end + 1);
    }

    /// The cursor glyph for the current mode: a block outside insert mode,
    /// a bar while inserting.
    pub fn cursor_shape(&self) -> (r: CursorShape)
        ensures
            r == spec_cursor_shape(self@.mode),
    {
        match self.mode {
            PromptMode::Insert => CursorShape::SteadyBar,
            _ => CursorShape::SteadyBlock,
        }
    }

    /// The terminal column of the cursor: the column where the text begins
    /// plus the cursor offset. Fails when that does not fit in the
    /// terminal's 16-bit column type.
    pub fn cursor_column(&self) -> (r: Result<u16, PromptError>)
        ensures
            self@.cursor + self.input_start <= u16::MAX ==> r == Ok::<u16, PromptError>(
                (self.input_start + self@.cursor) as u16,
            ),
            self@.cursor + self.input_start > u16::MAX ==> r == Err::<u16, PromptError>(
                PromptError::ConversionOverflow,
            ),
    {
        if self.cursor <= (u16::MAX as usize) && (self.cursor as u16) <= u16::MAX - self.input_start {
            Ok(self.input_start + self.cursor as u16)
        } else {
            Err(PromptError::ConversionOverflow)
        }
    }
}

/// Cursor after a step left (stopping at the start).
pub open spec fn ed_moved_left(v: EdView) -> int {
    if v.cursor > 0 {
        v.cursor - 1
    } else {
        v.cursor
    }
}

/// Cursor after a step right (stopping at the mode's bound).
pub open spec fn ed_moved_right(v: EdView) -> int {
    if v.cursor < ed_max_cursor(v) {
        v.cursor + 1
    } else {
        v.cursor
    }
}

/// State after the `e` motion.
pub open spec fn ed_word_end_moved(v: EdView) -> EdView {
    if v.cursor < ed_max_cursor(v) {
        EdView { cursor: spec_word_end(v.line, v.cursor), ..v }
    } else {
        v
    }
}

/// State after the `b` motion.
pub open spec fn ed_word_start_moved(v: EdView) -> EdView {
    if v.cursor > 0 {
        EdView { cursor: spec_word_start(v.line, v.cursor), ..v }
    } else {
        v
    }
}

/// State after the `w` motion.
pub open spec fn ed_next_word_moved(v: EdView) -> EdView {
    if v.cursor < ed_max_cursor(v) {
        EdView { cursor: spec_next_word_start(v.line, v.cursor), ..v }
    } else {
        v
    }
}

/// Text after removing the characters in `[start, end)`.
pub open spec fn ed_range_removed(line: Seq<char>, start: int, end: int) -> Seq<char> {
    line.subrange(0, start) + line.subrange(end, line.len() as int)
}

/// State after deleting the character under the cursor (unchanged when the
/// cursor is past the end).
pub open spec fn ed_deleted_current(v: EdView) -> EdView {
    if v.cursor < v.line.len() {
        EdView { line: v.line.remove(v.cursor), ..v }
    } else {
        v
    }
}

/// The state with the cursor pulled back onto the text's last offset, as
/// the deletes outside insert mode leave it.
pub open spec fn ed_clamped(v: EdView) -> EdView {
    if v.cursor > last_offset(v.line) {
        EdView { cursor: last_offset(v.line), ..v }
    } else {
        v
    }
}

/// Text after inserting `c` at the cursor (pushed at the end when the
/// cursor rests one past the last character).
pub open spec fn ed_inserted_line(v: EdView, c: char) -> Seq<char> {
    if v.cursor < ed_max_cursor(v) {
        v.line.insert(v.cursor, c)
    } else {
        v.line.push(c)
    }
}

/// Start of the range an operator with qualifier `adj` deletes.
pub open spec fn ed_op_start(v: EdView, adj: OpAdjust) -> int {
    if adj is Empty {
        v.cursor
    } else {
        spec_word_start(v.line, v.cursor)
    }
}

/// Last offset (inclusive) of the range an operator with qualifier `adj`
/// deletes: the inner word's end, or the offset before the next word's
/// start (the next word's start itself when it is the text's last offset).
pub open spec fn ed_op_end(v: EdView, adj: OpAdjust) -> int {
    if adj is Inner {
        spec_word_end(v.line, v.cursor)
    } else {
        let ws = spec_next_word_start(v.line, v.cursor);
        if ws == v.line.len() - 1 {
            ws
        } else {
            ws - 1
        }
    }
}

/// State after an operator's word deletion (unchanged text when empty).
pub open spec fn ed_word_deleted(v: EdView, adj: OpAdjust) -> EdView {
    if v.line.len() == 0 {
        v
    } else {
        let start = ed_op_start(v, adj);
        let end = ed_op_end(v, adj);
        EdView { cursor: start, line: ed_range_removed(v.line, start, end + 1), mode: v.mode }
    }
}

/// The operator range is well formed: it starts no later than one past its
/// inclusive end, and ends inside the text.
pub proof fn lemma_delete_word_range(v: EdView, adj: OpAdjust)
    requires
        ed_wf(v),
        v.line.len() > 0,
    ensures
        0 <= ed_op_start(v, adj),
        ed_op_start(v, adj) <= ed_op_end(v, adj) + 1,
        ed_op_end(v, adj) + 1 <= v.line.len(),
{
    let s = v.line;
    let c = v.cursor;
    lemma_motion_targets_in_bounds(s, c);
    lemma_word_start_moves_backward(s, c);
    if adj is Inner {
        // the word's end is never left of the cursor unless the scan ran
        // off the end of the text
        lemma_first_word_at_bounds(s, c + 1);
        let i = first_word_at(s, c + 1);
        if i < s.len() {
            lemma_first_word_at_found(s, c + 1);
            assert(first_non_word_at(s, i) == first_non_word_at(s, i + 1));
            lemma_first_word_at_bounds(s, i + 1);
        }
    } else {
        lemma_first_word_at_bounds(s, c);
        let nw = first_non_word_at(s, c);
        lemma_first_word_at_bounds(s, nw);
        lemma_first_word_at_found(s, nw);
        let j = first_word_at(s, nw);
        if j < s.len() && j != s.len() - 1 {
            // a word character at offset 0 would have ended the first scan
            // at once, so a later word start is at least 1
            assert(j >= 1) by {
                if j == 0 {
                    assert(nw == 0);
                    assert(!crate::words::alphanumeric_of(s[0]));
                }
            }
        }
    }
}

/// The cursor glyph for a mode.
pub open spec fn spec_cursor_shape(mode: PromptMode) -> CursorShape {
    match mode {
        PromptMode::Insert => CursorShape::SteadyBar,
        _ => CursorShape::SteadyBlock,
    }
}

/// Whether a key event interrupts the prompt (Ctrl-C).
pub open spec fn step_interrupts(key: KeyInput, mods: KeyMods) -> bool {
    key == KeyInput::Char('c') && mods == KeyMods::Control
}

/// Whether a key event finishes the prompt (Enter without modifiers other
/// than shift).
pub open spec fn step_done(key: KeyInput, mods: KeyMods) -> bool {
    key == KeyInput::Enter && (mods == KeyMods::Plain || mods == KeyMods::Shift)
}

/// The editor's transition for a normal-mode character.
pub open spec fn spec_step_normal(v: EdView, c: char) -> EdView {
    if c == 'i' {
        EdView { mode: PromptMode::Insert, ..v }
    } else if c == 'I' {
        EdView { cursor: 0, mode: PromptMode::Insert, ..v }
    } else if c == 'a' {
        let v1 = EdView { mode: PromptMode::Insert, ..v };
        EdView { cursor: ed_moved_right(v1), ..v1 }
    } else if c == 'A' {
        let v1 = EdView { mode: PromptMode::Insert, ..v };
        EdView { cursor: ed_max_cursor(v1), ..v1 }
    } else if c == 'x' {
        ed_clamped(ed_deleted_current(v))
    } else if c == 'X' {
        ed_clamped(ed_deleted_current(EdView { cursor: ed_moved_left(v), ..v }))
    } else if c == 'h' {
        EdView { cursor: ed_moved_left(v), ..v }
    } else if c == 'l' {
        EdView { cursor: ed_moved_right(v), ..v }
    } else if c == 'c' {
        EdView { mode: PromptMode::OperatorPending(Operation::Change(OpAdjust::Empty)), ..v }
    } else if c == 'd' {
        EdView { mode: PromptMode::OperatorPending(Operation::Delete(OpAdjust::Empty)), ..v }
    } else if c == 'e' {
        ed_word_end_moved(v)
    } else if c == 'b' {
        ed_word_start_moved(v)
    } else if c == 'w' {
        ed_next_word_moved(v)
    } else {
        v
    }
}

/// The editor's transition for a character in operator-pending mode.
pub open spec fn spec_step_operator(v: EdView, op: Operation, c: char) -> EdView {
    if op == Operation::Change(OpAdjust::Empty) && c == 'i' {
        EdView { mode: PromptMode::OperatorPending(Operation::Change(OpAdjust::Inner)), ..v }
    } else if op == Operation::Change(OpAdjust::Empty) && c == 'a' {
        EdView { mode: PromptMode::OperatorPending(Operation::Change(OpAdjust::Around)), ..v }
    } else if op == Operation::Delete(OpAdjust::Empty) && c == 'i' {
        EdView { mode: PromptMode::OperatorPending(Operation::Delete(OpAdjust::Inner)), ..v }
    } else if op == Operation::Delete(OpAdjust::Empty) && c == 'a' {
        EdView { mode: PromptMode::OperatorPending(Operation::Delete(OpAdjust::Around)), ..v }
    } else if c == 'w' {
        match op {
            Operation::Change(adj) => EdView { mode: PromptMode::Insert, ..ed_word_deleted(v, adj) },
            Operation::Delete(adj) => EdView {
                mode: PromptMode::Normal,
                ..ed_clamped(ed_word_deleted(v, adj))
            },
        }
    } else if c == 'e' && (op == Operation::Change(OpAdjust::Empty) || op == Operation::Delete(
        OpAdjust::Empty,
    )) {
        let next_mode = if op == Operation::Change(OpAdjust::Empty) {
            PromptMode::Insert
        } else {
            PromptMode::Normal
        };
        if v.line.len() == 0 {
            EdView { mode: next_mode, ..v }
        } else {
            let end = spec_word_end(v.line, v.cursor);
            let deleted = EdView {
                cursor: v.cursor,
                line: ed_range_removed(v.line, v.cursor, end + 1),
                mode: v.mode,
            };
            EdView {
                mode: next_mode,
                ..(if next_mode == PromptMode::Normal {
                    ed_clamped(deleted)
                } else {
                    deleted
                })
            }
        }
    } else if c == 'b' && (op == Operation::Change(OpAdjust::Empty) || op == Operation::Delete(
        OpAdjust::Empty,
    )) {
        let next_mode = if op == Operation::Change(OpAdjust::Empty) {
            PromptMode::Insert
        } else {
            PromptMode::Normal
        };
        let start = spec_word_start(v.line, v.cursor);
        EdView {
            cursor: start,
            line: ed_range_removed(v.line, start, v.cursor),
            mode: next_mode,
        }
    } else if c == 'c' && op == Operation::Change(OpAdjust::Empty) {
        EdView { cursor: 0, line: Seq::<char>::empty(), mode: PromptMode::Insert }
    } else if c == 'd' && op == Operation::Delete(OpAdjust::Empty) {
        EdView { cursor: 0, line: Seq::<char>::empty(), mode: PromptMode::Normal }
    } else {
        EdView { mode: PromptMode::Normal, ..v }
    }
}

/// The editor's full transition for one key event: what `handle_key`
/// leaves in the state. Interrupting and finishing events leave the state
/// unchanged.
pub open spec fn spec_step(v: EdView, key: KeyInput, mods: KeyMods) -> EdView {
    if step_interrupts(key, mods) || !(mods == KeyMods::Plain || mods == KeyMods::Shift) {
        v
    } else {
        match key {
            KeyInput::Enter => v,
            KeyInput::Esc => {
                if v.mode == PromptMode::Insert {
                    let v1 = EdView { mode: PromptMode::Normal, ..v };
                    EdView { cursor: ed_moved_left(v1), ..v1 }
                } else {
                    v
                }
            },
            KeyInput::Backspace => {
                match v.mode {
                    PromptMode::Normal => EdView { cursor: ed_moved_left(v), ..v },
                    PromptMode::Insert => {
                        if v.cursor < ed_max_cursor(v) {
                            if v.cursor != 0 {
                                ed_deleted_current(EdView { cursor: v.cursor - 1, ..v })
                            } else {
                                v
                            }
                        } else if v.line.len() > 0 {
                            let v1 = EdView {
                                line: v.line.subrange(0, v.line.len() - 1),
                                ..v
                            };
                            EdView { cursor: ed_moved_left(v1), ..v1 }
                        } else {
                            v
                        }
                    },
                    _ => v,
                }
            },
            KeyInput::Char(c) => {
                match v.mode {
                    PromptMode::Insert => {
                        let v1 = EdView { line: ed_inserted_line(v, c), ..v };
                        EdView { cursor: ed_moved_right(v1), ..v1 }
                    },
                    PromptMode::Normal => spec_step_normal(v, c),
                    PromptMode::OperatorPending(op) => spec_step_operator(v, op, c),
                }
            },
            KeyInput::Other => v,
        }
    }
}

/// Interpret one key event against the editor state.
///
/// Ctrl-C fails with `Interrupted` and Enter reports the prompt done; any
/// other event updates the state exactly as [`spec_step`] says and reports
/// the prompt still running. The screen is never touched here.
pub fn handle_key(state: &mut PromptState, key: KeyInput, mods: KeyMods) -> (r: Result<
    bool,
    PromptError,
>)
    requires
        old(state).wf(),
    ensures
        final(state).wf(),
        final(state)@ == spec_step(old(state)@, key, mods),
        r == (if step_interrupts(key, mods) {
            Err::<bool, PromptError>(PromptError::Interrupted)
        } else {
            Ok::<bool, PromptError>(step_done(key, mods))
        }),
        final(state).input_start == old(state).input_start,
        final(state).input_row == old(state).input_row,
{
    let ghost v0 = state@;
    if matches!(key, KeyInput::Char('c')) && matches!(mods, KeyMods::Control) {
        return Err(PromptError::Interrupted);
    }
    if !(matches!(mods, KeyMods::Plain) || matches!(mods, KeyMods::Shift)) {
        return Ok(false);
    }
    match key {
        KeyInput::Enter => {
            return Ok(true);
        },
        KeyInput::Esc => {
            if matches!(state.mode, PromptMode::Insert) {
                state.normal_mode();
                state.move_left();
            }
        },
        KeyInput::Backspace => {
            match state.mode {
                PromptMode::Normal => state.move_left(),
                PromptMode::Insert => {
                    if state.cursor < state.max_cursor() {
                        if state.cursor != 0 {
                            state.move_left();
                            state.delete_current_char();
                        }
                    } else if state.line.pop().is_some() {
                        state.move_left();
                        proof {
                            assert(state@ =~= spec_step(v0, key, mods));
                        }
                    } else {
                        proof {
                            assert(state@ =~= spec_step(v0, key, mods));
                        }
                    }
                },
                _ => {},
            }
        },
        KeyInput::Char(c) => {
            match state.mode {
                PromptMode::Insert => {
                    state.insert_char(c);
                    state.move_right();
                },
                PromptMode::Normal => handle_normal_char(state, c),
                PromptMode::OperatorPending(op) => handle_operator_char(state, op, c),
            }
        },
        KeyInput::Other => {},
    }
    proof {
        assert(state@ =~= spec_step(v0, key, mods));
    }
    Ok(false)
}

/// Dispatch one normal-mode character.
fn handle_normal_char(state: &mut PromptState, c: char)
    requires
        old(state).wf(),
        old(state).mode == PromptMode::Normal,
    ensures
        final(state).wf(),
        final(state)@ == spec_step_normal(old(state)@, c),
        final(state).input_start == old(state).input_start,
        final(state).input_row == old(state).input_row,
{
    let ghost v0 = state@;
    match c {
        'i' => state.insert_mode(),
        'I' => {
            state.insert_mode();
            state.move_to_start();
        },
        'a' => {
            state.insert_mode();
            state.move_right();
        },
        'A' => {
            state.insert_mode();
            state.move_to_end();
        },
        'x' => {
            state.delete_current_char();
            state.clamp_cursor();
        },
        'X' => {
            state.move_left();
            state.delete_current_char();
            state.clamp_cursor();
        },
        'h' => state.move_left(),
        'l' => state.move_right(),
        'c' => state.operator_pending_mode(Operation::Change(OpAdjust::Empty)),
        'd' => state.operator_pending_mode(Operation::Delete(OpAdjust::Empty)),
        'e' => state.move_to_current_word_end(),
        'b' => state.move_to_current_word_start(),
        'w' => state.move_to_next_word_start(),
        _ => {},
    }
    proof {
        assert(state@ =~= spec_step_normal(v0, c));
    }
}

/// Dispatch one character while an operator is pending.
fn handle_operator_char(state: &mut PromptState, op: Operation, c: char)
    requires
        old(state).wf(),
        old(state).mode == PromptMode::OperatorPending(op),
    ensures
        final(state).wf(),
        final(state)@ == spec_step_operator(old(state)@, op, c),
        final(state).input_start == old(state).input_start,
        final(state).input_row == old(state).input_row,
{
    let ghost v0 = state@;
    match (op, c) {
        (Operation::Change(OpAdjust::Empty), 'i') => {
            state.operator_pending_mode(Operation::Change(OpAdjust::Inner));
        },
        (Operation::Change(OpAdjust::Empty), 'a') => {
            state.operator_pending_mode(Operation::Change(OpAdjust::Around));
        },
        (Operation::Delete(OpAdjust::Empty), 'i') => {
            state.operator_pending_mode(Operation::Delete(OpAdjust::Inner));
        },
        (Operation::Delete(OpAdjust::Empty), 'a') => {
            state.operator_pending_mode(Operation::Delete(OpAdjust::Around));
        },
        (Operation::Change(adjustment), 'w') => {
            state.delete_word(adjustment);
            state.insert_mode();
        },
        (Operation::Delete(adjustment), 'w') => {
            state.delete_word(adjustment);
            state.clamp_cursor();
            state.normal_mode();
        },
        (Operation::Change(OpAdjust::Empty), 'e') => {
            proof {
                if v0.line.len() > 0 {
                    lemma_motion_targets_in_bounds(v0.line, v0.cursor);
                }
            }
            delete_to_word_end(state);
            state.insert_mode();
        },
        (Operation::Delete(OpAdjust::Empty), 'e') => {
            delete_to_word_end(state);
            state.clamp_cursor();
            state.normal_mode();
        },
        (Operation::Change(OpAdjust::Empty), 'b') => {
            delete_back_to_word_start(state);
            state.insert_mode();
        },
        (Operation::Delete(OpAdjust::Empty), 'b') => {
            proof {
                lemma_word_start_moves_backward(v0.line, v0.cursor);
            }
            delete_back_to_word_start(state);
            state.normal_mode();
        },
        (Operation::Change(OpAdjust::Empty), 'c') => {
            state.delete_all();
            state.insert_mode();
        },
        (Operation::Delete(OpAdjust::Empty), 'd') => {
            state.delete_all();
            state.normal_mode();
        },
        (_, _) => state.normal_mode(),
    }
    proof {
        assert(state@ =~= spec_step_operator(v0, op, c));
    }
}

/// Pressing `c` twice from normal mode empties any buffer and rests the
/// cursor at the start, leaving the editor inserting.
pub proof fn lemma_cc_clears_line(v: EdView, mods: KeyMods)
    requires
        v.mode == PromptMode::Normal,
        mods == KeyMods::Plain || mods == KeyMods::Shift,
    ensures
        ({
            let after = spec_step(spec_step(v, KeyInput::Char('c'), mods), KeyInput::Char('c'), mods);
            after.line =~= Seq::<char>::empty() && after.cursor == 0 && after.mode
                == PromptMode::Insert
        }),
{
}

/// Pressing `d` twice from normal mode empties any buffer and rests the
/// cursor at the start, returning the editor to normal mode.
pub proof fn lemma_dd_clears_line(v: EdView, mods: KeyMods)
    requires
        v.mode == PromptMode::Normal,
        mods == KeyMods::Plain || mods == KeyMods::Shift,
    ensures
        ({
            let after = spec_step(spec_step(v, KeyInput::Char('d'), mods), KeyInput::Char('d'), mods);
            after.line =~= Seq::<char>::empty() && after.cursor == 0 && after.mode
                == PromptMode::Normal
        }),
{
}

/// Once the cursor rests on the mode's last allowed offset, further `w`
/// presses leave the editor exactly where it is.
pub proof fn lemma_w_settles_at_end(v: EdView, mods: KeyMods)
    requires
        v.mode == PromptMode::Normal,
        v.cursor == ed_max_cursor(v),
        mods == KeyMods::Plain || mods == KeyMods::Shift,
    ensures
        spec_step(v, KeyInput::Char('w'), mods) == v,
{
}

/// Delete from the cursor through the current word's end (nothing on empty
/// text).
fn delete_to_word_end(state: &mut PromptState)
    requires
        old(state).wf(),
    ensures
        0 <= final(state)@.cursor <= final(state)@.line.len(),
        final(state)@ == (if old(state)@.line.len() == 0 {
            old(state)@
        } else {
            EdView {
                cursor: old(state)@.cursor,
                line: ed_range_removed(
                    old(state)@.line,
                    old(state)@.cursor,
                    spec_word_end(old(state)@.line, old(state)@.cursor) + 1,
                ),
                mode: old(state)@.mode,
            }
        }),
        final(state).input_start == old(state).input_start,
        final(state).input_row == old(state).input_row,
{
    if state.line.len() == 0 {
        return ;
    }
    proof {
        let s = state@.line;
        let c = state@.cursor;
        lemma_motion_targets_in_bounds(s, c);
        lemma_first_word_at_bounds(s, c + 1);
        let i = first_word_at(s, c + 1);
        if i < s.len() {
            lemma_first_word_at_found(s, c + 1);
            assert(first_non_word_at(s, i) == first_non_word_at(s, i + 1));
            lemma_first_word_at_bounds(s, i + 1);
        }
    }
    let end = state.get_current_word_end();
    let cursor = state.cursor;
    state.delete_range(cursor, end + 1);
}

/// Delete from the current word's start up to the cursor.
fn delete_back_to_word_start(state: &mut PromptState)
    requires
        old(state).wf(),
    ensures
        0 <= final(state)@.cursor <= final(state)@.line.len(),
        final(state)@ == (EdView {
            cursor: spec_word_start(old(state)@.line, old(state)@.cursor),
            line: ed_range_removed(
                old(state)@.line,
                spec_word_start(old(state)@.line, old(state)@.cursor),
                old(state)@.cursor,
            ),
            mode: old(state)@.mode,
        }),
        final(state).input_start == old(state).input_start,
        final(state).input_row == old(state).input_row,
{
    proof {
        lemma_word_start_moves_backward(state@.line, state@.cursor);
        lemma_last_word_at_bounds(state@.line, state@.cursor - 1);
        let b = last_word_at(state@.line, state@.cursor - 1);
        if b >= 0 {
            lemma_last_word_at_bounds(state@.line, b);
            assert(last_non_word_at(state@.line, b) == last_non_word_at(state@.line, b - 1));
            lemma_last_word_at_bounds(state@.line, b - 1);
        }
    }
    let start = state.get_current_word_start();
    let cursor = state.cursor;
    state.delete_range(start, cursor);
}

} // verus!

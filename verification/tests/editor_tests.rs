use wkfl::editor::{handle_key, OpAdjust, Operation, PromptMode, PromptState};
use wkfl::keys::{KeyInput, KeyMods, PromptError};

fn normal_state(text: &str, cursor: usize) -> PromptState {
    PromptState {
        cursor,
        input_start: 0,
        input_row: 0,
        line: text.chars().collect(),
        mode: PromptMode::Normal,
    }
}

fn press(state: &mut PromptState, c: char) -> Result<bool, PromptError> {
    handle_key(state, KeyInput::Char(c), KeyMods::Plain)
}

fn line_text(state: &PromptState) -> String {
    state.line.iter().collect()
}

#[test]
fn typing_inserts_and_advances() {
    let mut state = PromptState::new(0, 0);
    for c in "hello".chars() {
        press(&mut state, c).unwrap();
    }
    assert_eq!(line_text(&state), "hello");
    assert_eq!(state.cursor, 5);
    assert_eq!(state.mode, PromptMode::Insert);
}

#[test]
fn enter_finishes_without_changing_state() {
    let mut state = PromptState::new(0, 0);
    press(&mut state, 'a').unwrap();
    let done = handle_key(&mut state, KeyInput::Enter, KeyMods::Plain).unwrap();
    assert!(done);
    assert_eq!(line_text(&state), "a");
}

#[test]
fn ctrl_c_interrupts() {
    let mut state = PromptState::new(0, 0);
    let r = handle_key(&mut state, KeyInput::Char('c'), KeyMods::Control);
    assert_eq!(r, Err(PromptError::Interrupted));
}

#[test]
fn esc_enters_normal_mode_and_steps_back() {
    let mut state = PromptState::new(0, 0);
    press(&mut state, 'a').unwrap();
    press(&mut state, 'b').unwrap();
    handle_key(&mut state, KeyInput::Esc, KeyMods::Plain).unwrap();
    assert_eq!(state.mode, PromptMode::Normal);
    assert_eq!(state.cursor, 1);
}

#[test]
fn backspace_deletes_before_cursor() {
    let mut state = PromptState::new(0, 0);
    for c in "abc".chars() {
        press(&mut state, c).unwrap();
    }
    handle_key(&mut state, KeyInput::Backspace, KeyMods::Plain).unwrap();
    assert_eq!(line_text(&state), "ab");
    assert_eq!(state.cursor, 2);
    // mid-line backspace removes the character before the cursor
    press(&mut state, 'c').unwrap();
    handle_key(&mut state, KeyInput::Esc, KeyMods::Plain).unwrap();
    state.cursor = 1;
    state.mode = PromptMode::Insert;
    handle_key(&mut state, KeyInput::Backspace, KeyMods::Plain).unwrap();
    assert_eq!(line_text(&state), "bc");
    assert_eq!(state.cursor, 0);
}

#[test]
fn x_deletes_under_cursor() {
    let mut state = normal_state("abc", 1);
    press(&mut state, 'x').unwrap();
    assert_eq!(line_text(&state), "ac");
    let mut state2 = normal_state("abc", 1);
    press(&mut state2, 'X').unwrap();
    assert_eq!(line_text(&state2), "bc");
    assert_eq!(state2.cursor, 0);
}

#[test]
fn motions_move_within_bounds() {
    let mut state = normal_state("one two", 0);
    press(&mut state, 'l').unwrap();
    assert_eq!(state.cursor, 1);
    press(&mut state, 'h').unwrap();
    assert_eq!(state.cursor, 0);
    press(&mut state, 'h').unwrap();
    assert_eq!(state.cursor, 0);
    press(&mut state, 'A').unwrap();
    assert_eq!(state.mode, PromptMode::Insert);
    assert_eq!(state.cursor, 7);
    handle_key(&mut state, KeyInput::Esc, KeyMods::Plain).unwrap();
    press(&mut state, 'I').unwrap();
    assert_eq!(state.cursor, 0);
    assert_eq!(state.mode, PromptMode::Insert);
}

#[test]
fn word_motions_follow_word_boundaries() {
    // the `w` motion from the start of "one two three" visits the word
    // starts at 0, 4 and 8, then walks to the last offset and rests there
    let mut state = normal_state("one two three", 0);
    assert_eq!(state.cursor, 0);
    press(&mut state, 'w').unwrap();
    assert_eq!(state.cursor, 4);
    press(&mut state, 'w').unwrap();
    assert_eq!(state.cursor, 8);
    press(&mut state, 'w').unwrap();
    assert_eq!(state.cursor, 12);
    press(&mut state, 'w').unwrap();
    assert_eq!(state.cursor, 12);

    let mut state2 = normal_state("one two", 0);
    press(&mut state2, 'e').unwrap();
    assert_eq!(state2.cursor, 2);
    press(&mut state2, 'e').unwrap();
    assert_eq!(state2.cursor, 6);

    let mut state3 = normal_state("one two", 6);
    press(&mut state3, 'b').unwrap();
    assert_eq!(state3.cursor, 4);
    press(&mut state3, 'b').unwrap();
    assert_eq!(state3.cursor, 0);
}

#[test]
fn dw_deletes_word_and_following_space() {
    let mut state = normal_state("foo bar baz", 0);
    press(&mut state, 'd').unwrap();
    assert_eq!(
        state.mode,
        PromptMode::OperatorPending(Operation::Delete(OpAdjust::Empty))
    );
    press(&mut state, 'w').unwrap();
    assert_eq!(line_text(&state), "bar baz");
    assert_eq!(state.cursor, 0);
    assert_eq!(state.mode, PromptMode::Normal);
}

#[test]
fn de_deletes_through_word_end() {
    let mut state = normal_state("foo bar baz", 0);
    press(&mut state, 'd').unwrap();
    press(&mut state, 'e').unwrap();
    assert_eq!(line_text(&state), " bar baz");
    assert_eq!(state.cursor, 0);
}

#[test]
fn cw_changes_word_and_enters_insert() {
    let mut state = normal_state("foo bar baz", 0);
    press(&mut state, 'c').unwrap();
    press(&mut state, 'w').unwrap();
    assert_eq!(state.mode, PromptMode::Insert);
    assert_eq!(line_text(&state), "bar baz");
    press(&mut state, 'x').unwrap();
    assert_eq!(line_text(&state), "xbar baz");
    assert_eq!(state.cursor, 1);
}

#[test]
fn db_deletes_back_to_word_start() {
    let mut state = normal_state("foo bar", 4);
    press(&mut state, 'd').unwrap();
    press(&mut state, 'b').unwrap();
    assert_eq!(line_text(&state), "bar");
    assert_eq!(state.cursor, 0);
}

#[test]
fn diw_deletes_inner_word() {
    let mut state = normal_state("foo bar baz", 5);
    press(&mut state, 'd').unwrap();
    press(&mut state, 'i').unwrap();
    assert_eq!(
        state.mode,
        PromptMode::OperatorPending(Operation::Delete(OpAdjust::Inner))
    );
    press(&mut state, 'w').unwrap();
    assert_eq!(line_text(&state), "foo  baz");
    assert_eq!(state.cursor, 4);
}

#[test]
fn cc_clears_whole_line() {
    let mut state = normal_state("foo bar baz", 5);
    press(&mut state, 'c').unwrap();
    press(&mut state, 'c').unwrap();
    assert_eq!(line_text(&state), "");
    assert_eq!(state.cursor, 0);
    assert_eq!(state.mode, PromptMode::Insert);
}

#[test]
fn dd_clears_whole_line() {
    let mut state = normal_state("foo bar baz", 5);
    press(&mut state, 'd').unwrap();
    press(&mut state, 'd').unwrap();
    assert_eq!(line_text(&state), "");
    assert_eq!(state.cursor, 0);
    assert_eq!(state.mode, PromptMode::Normal);
}

#[test]
fn unknown_operator_key_cancels() {
    let mut state = normal_state("foo", 0);
    press(&mut state, 'd').unwrap();
    press(&mut state, 'q').unwrap();
    assert_eq!(state.mode, PromptMode::Normal);
    assert_eq!(line_text(&state), "foo");
}

#[test]
fn word_scans_stay_in_bounds_on_edges() {
    // single character text: every motion stays at offset 0
    let mut state = normal_state("a", 0);
    press(&mut state, 'w').unwrap();
    assert_eq!(state.cursor, 0);
    press(&mut state, 'e').unwrap();
    assert_eq!(state.cursor, 0);
    press(&mut state, 'b').unwrap();
    assert_eq!(state.cursor, 0);
    // empty text in normal mode: the editor never panics or moves
    let mut empty = normal_state("", 0);
    press(&mut empty, 'w').unwrap();
    press(&mut empty, 'e').unwrap();
    press(&mut empty, 'b').unwrap();
    press(&mut empty, 'x').unwrap();
    press(&mut empty, 'd').unwrap();
    press(&mut empty, 'w').unwrap();
    assert_eq!(line_text(&empty), "");
    assert_eq!(empty.cursor, 0);
}

#[test]
fn cursor_column_reports_overflow() {
    let state = PromptState {
        cursor: 70000,
        input_start: 0,
        input_row: 0,
        line: Vec::new(),
        mode: PromptMode::Insert,
    };
    assert_eq!(state.cursor_column(), Err(PromptError::ConversionOverflow));
    let small = PromptState {
        cursor: 3,
        input_start: 10,
        input_row: 0,
        line: "abcd".chars().collect(),
        mode: PromptMode::Insert,
    };
    assert_eq!(small.cursor_column(), Ok(13));
}

#[test]
fn delete_at_end_keeps_cursor_on_text() {
    // deleting the last character pulls the cursor back onto the text, so
    // the normal-mode invariant (cursor on a character) is kept
    let mut state = normal_state("ab", 1);
    press(&mut state, 'x').unwrap();
    assert_eq!(line_text(&state), "a");
    assert_eq!(state.cursor, 0);

    let mut state2 = normal_state("a b", 2);
    press(&mut state2, 'd').unwrap();
    press(&mut state2, 'w').unwrap();
    assert_eq!(line_text(&state2), "a ");
    assert_eq!(state2.cursor, 1);

    let mut state3 = normal_state("a b", 2);
    press(&mut state3, 'd').unwrap();
    press(&mut state3, 'e').unwrap();
    assert_eq!(line_text(&state3), "a ");
    assert_eq!(state3.cursor, 1);
}

use wkfl::editor::PromptMode;
use wkfl::fuzzy::{filter_options, split_filter_terms};
use wkfl::keys::{KeyInput, KeyMods, PromptError};
use wkfl::selection::{refilter, select_handle_key, selected_option, SelectionState};
use wkfl::toggle::toggle_step;

fn options(names: &[&str]) -> Vec<String> {
    names.iter().map(|s| s.to_string()).collect()
}

fn chars(text: &str) -> Vec<char> {
    text.chars().collect()
}

#[test]
fn all_options_match_single_common_letter() {
    let opts = options(&["alpha", "beta", "gamma"]);
    let filtered = filter_options(&chars("a"), &opts);
    assert_eq!(filtered.len(), 3);
    assert!(filtered.contains(&0));
    assert!(filtered.contains(&1));
    assert!(filtered.contains(&2));
}

#[test]
fn narrowing_the_filter_keeps_a_subset() {
    let opts = options(&["alpha", "beta", "gamma"]);
    let filtered = filter_options(&chars("al"), &opts);
    assert_eq!(filtered, vec![0]);
}

#[test]
fn empty_filter_keeps_original_order() {
    let opts = options(&["one", "two", "three"]);
    let filtered = filter_options(&chars(""), &opts);
    assert_eq!(filtered, vec![0, 1, 2]);
}

#[test]
fn equal_options_keep_first_on_ties() {
    let opts = options(&["same", "same", "same"]);
    let filtered = filter_options(&chars("sa"), &opts);
    assert_eq!(filtered, vec![0, 1, 2]);
}

#[test]
fn uppercase_term_matches_case_sensitively() {
    let opts = options(&["Alpha", "alpha"]);
    assert_eq!(filter_options(&chars("Al"), &opts), vec![0]);
    assert_eq!(filter_options(&chars("al"), &opts).len(), 2);
}

#[test]
fn every_term_must_match() {
    let opts = options(&["alpha beta", "alpha", "beta"]);
    let filtered = filter_options(&chars("al be"), &opts);
    assert_eq!(filtered, vec![0]);
}

#[test]
fn split_terms_breaks_on_whitespace() {
    let terms = split_filter_terms(&chars("  one  two\tthree "));
    let as_strings: Vec<String> = terms.iter().map(|t| t.iter().collect()).collect();
    assert_eq!(as_strings, vec!["one", "two", "three"]);
}

#[test]
fn viewport_follows_next_and_previous() {
    let mut state = SelectionState::new(3, 0, 0, 5);
    assert_eq!((state.selected, state.first_item), (0, 0));
    state.next_item();
    assert_eq!((state.selected, state.first_item), (1, 0));
    state.next_item();
    assert_eq!((state.selected, state.first_item), (2, 1));
    state.next_item();
    assert_eq!((state.selected, state.first_item), (3, 2));
    state.previous_item();
    assert_eq!((state.selected, state.first_item), (2, 1));
    state.previous_item();
    assert_eq!((state.selected, state.first_item), (1, 0));
    // the selection always stays inside the three visible rows
    for _ in 0..10 {
        state.next_item();
        assert!(state.first_item <= state.selected);
        assert!(state.selected < state.first_item + state.items_shown);
        assert!(state.selected <= state.max_index);
    }
    for _ in 0..10 {
        state.previous_item();
        assert!(state.first_item <= state.selected);
        assert!(state.selected < state.first_item + state.items_shown);
    }
}

#[test]
fn update_max_index_clamps_selection() {
    let mut state = SelectionState::new(3, 0, 0, 9);
    for _ in 0..9 {
        state.next_item();
    }
    assert_eq!(state.selected, 9);
    state.update_max_index(4, true);
    assert_eq!(state.selected, 4);
    assert!(state.first_item <= state.selected);
    state.update_max_index(0, false);
    assert_eq!(state.selected, 0);
    assert_eq!(state.first_item, 0);
    assert!(!state.has_options);
}

#[test]
fn shrinking_the_list_keeps_the_selection_on_screen() {
    let mut state = SelectionState::new(3, 0, 0, 9);
    state.first_item = 5;
    state.selected = 6;
    state.update_max_index(3, true);
    // the viewport is pulled back so its last row lands on the new last
    // option, keeping the selection visible
    assert_eq!(state.selected, 3);
    assert_eq!(state.first_item, 1);
    assert!(state.first_item <= state.selected);
    assert!(state.selected < state.first_item + state.items_shown);
}

#[test]
fn selection_keys_move_only_in_the_right_mode() {
    let mut state = SelectionState::new(3, 0, 0, 5);
    // typing goes to the filter editor, which starts inserting
    select_handle_key(&mut state, KeyInput::Char('j'), KeyMods::Plain).unwrap();
    assert_eq!(state.selected, 0);
    assert_eq!(state.prompt_state.line, vec!['j']);
    // Ctrl-N moves the selection while inserting
    select_handle_key(&mut state, KeyInput::Char('n'), KeyMods::Control).unwrap();
    assert_eq!(state.selected, 1);
    select_handle_key(&mut state, KeyInput::Char('p'), KeyMods::Control).unwrap();
    assert_eq!(state.selected, 0);
    // after Esc, j and k drive the selection
    select_handle_key(&mut state, KeyInput::Esc, KeyMods::Plain).unwrap();
    assert_eq!(state.prompt_state.mode, PromptMode::Normal);
    select_handle_key(&mut state, KeyInput::Char('j'), KeyMods::Plain).unwrap();
    assert_eq!(state.selected, 1);
    select_handle_key(&mut state, KeyInput::Char('k'), KeyMods::Plain).unwrap();
    assert_eq!(state.selected, 0);
}

#[test]
fn enter_accepts_only_with_matches() {
    let mut state = SelectionState::new(3, 0, 0, 5);
    let done = select_handle_key(&mut state, KeyInput::Enter, KeyMods::Plain).unwrap();
    assert!(done);
    state.has_options = false;
    let done2 = select_handle_key(&mut state, KeyInput::Enter, KeyMods::Plain).unwrap();
    assert!(!done2);
}

#[test]
fn select_ctrl_c_interrupts() {
    let mut state = SelectionState::new(3, 0, 0, 5);
    let r = select_handle_key(&mut state, KeyInput::Char('c'), KeyMods::Control);
    assert_eq!(r, Err(PromptError::Interrupted));
}

#[test]
fn refilter_freezes_on_no_matches() {
    let opts = options(&["alpha", "beta", "gamma"]);
    let mut state = SelectionState::new(3, 0, 0, 2);
    for c in "zz".chars() {
        select_handle_key(&mut state, KeyInput::Char(c), KeyMods::Plain).unwrap();
    }
    let filtered = refilter(&mut state, &opts);
    assert!(filtered.is_empty());
    assert!(!state.has_options);
    assert_eq!(state.max_index, 0);
}

#[test]
fn selected_option_returns_the_highlighted_match() {
    let opts = options(&["alpha", "beta", "gamma"]);
    let mut state = SelectionState::new(3, 0, 0, 2);
    for c in "ga".chars() {
        select_handle_key(&mut state, KeyInput::Char(c), KeyMods::Plain).unwrap();
    }
    refilter(&mut state, &opts);
    assert_eq!(selected_option(&state, &opts), Some("gamma".to_string()));
    // with no matches nothing is selected
    for c in "zz".chars() {
        select_handle_key(&mut state, KeyInput::Char(c), KeyMods::Plain).unwrap();
    }
    refilter(&mut state, &opts);
    assert_eq!(selected_option(&state, &opts), None);
}

#[test]
fn boolean_prompt_defaults_until_toggled() {
    // Enter with no other keys accepts the default
    assert_eq!(toggle_step(true, KeyInput::Enter, KeyMods::Plain), Ok((true, true)));
    assert_eq!(toggle_step(false, KeyInput::Enter, KeyMods::Plain), Ok((true, false)));
    // pressing n chooses no, then Enter returns it
    let (done, value) = toggle_step(true, KeyInput::Char('n'), KeyMods::Plain).unwrap();
    assert!(!done);
    assert!(!value);
    assert_eq!(toggle_step(value, KeyInput::Enter, KeyMods::Plain), Ok((true, false)));
}

#[test]
fn toggle_keys_set_each_side() {
    for c in ['h', 't', 'y'] {
        assert_eq!(toggle_step(false, KeyInput::Char(c), KeyMods::Plain), Ok((false, true)));
    }
    for c in ['l', 'f', 'n'] {
        assert_eq!(toggle_step(true, KeyInput::Char(c), KeyMods::Plain), Ok((false, false)));
    }
    // other keys leave the value alone
    assert_eq!(toggle_step(true, KeyInput::Char('q'), KeyMods::Plain), Ok((false, true)));
    assert_eq!(
        toggle_step(true, KeyInput::Char('c'), KeyMods::Control),
        Err(PromptError::Interrupted)
    );
}

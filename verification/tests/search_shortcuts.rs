use scratchpad::cursor::{Key, Modifiers};
use scratchpad::keyboard::PressedKeyEvent;
use scratchpad::search::{
    SearchFreshness, SearchMode, SearchProgressSnapshot, SearchReplaceAvailability, SearchScope,
    SearchScopeOrigin, SearchStatus, SearchStripActions, SearchStripState, TextInputKind,
};
use scratchpad::search_shortcuts::{
    consume_key, consume_search_action_shortcuts, consume_search_option_shortcuts,
    consume_search_scope_shortcuts, consume_search_strip_shortcuts, consume_text_input_keys,
};

fn mods(alt: bool, ctrl: bool, shift: bool) -> Modifiers {
    Modifiers { alt, ctrl, shift, mac_cmd: false, command: ctrl }
}

fn press(key: Key, modifiers: Modifiers) -> PressedKeyEvent {
    PressedKeyEvent { key, modifiers }
}

fn dialog(match_count: usize, replace: SearchReplaceAvailability) -> SearchStripState {
    SearchStripState {
        query: "needle".to_owned(),
        replacement: String::new(),
        replace_open: true,
        scope: SearchScope::ActiveBuffer,
        scope_origin: SearchScopeOrigin::Explicit,
        mode: SearchMode::PlainText,
        match_case: false,
        whole_word: false,
        match_count,
        active_match_index: None,
        progress: SearchProgressSnapshot::from_progress(SearchStatus::Ready, 1, 1, match_count, match_count, SearchFreshness::Fresh),
        result_groups: Vec::new(),
        replace_availability: replace,
        can_undo_text_operation: true,
        can_redo_text_operation: true,
        requested_focus: None,
        retained_focus: None,
    }
}

#[test]
fn consuming_a_key_takes_every_matching_press() {
    let none = mods(false, false, false);
    let mut presses = vec![
        press(Key::Enter, none),
        press(Key::Escape, none),
        press(Key::Enter, mods(false, false, true)),
        press(Key::Enter, mods(false, true, false)),
    ];
    assert!(consume_key(&mut presses, none, Key::Enter));
    assert_eq!(presses, vec![press(Key::Escape, none), press(Key::Enter, mods(false, true, false))]);
    assert!(!consume_key(&mut presses, none, Key::Enter));
    assert_eq!(presses.len(), 2);
}

#[test]
fn shift_enter_in_find_input_requests_previous_match() {
    let mut presses = vec![press(Key::Enter, mods(false, false, true))];
    let mut actions = SearchStripActions::default();
    consume_text_input_keys(&mut presses, &mut actions, TextInputKind::Find);
    assert!(actions.previous_requested);
    assert!(!actions.next_requested);
    assert!(presses.is_empty());
}

#[test]
fn shift_enter_in_replace_input_counts_as_enter() {
    let mut presses = vec![press(Key::Enter, mods(false, false, true))];
    let mut actions = SearchStripActions::default();
    consume_text_input_keys(&mut presses, &mut actions, TextInputKind::Replace);
    assert!(actions.replace_current_requested);
    assert!(!actions.previous_requested);
    assert!(presses.is_empty());
}

#[test]
fn ctrl_enter_wins_over_plain_enter_and_escape_still_closes() {
    let none = mods(false, false, false);
    let mut presses = vec![
        press(Key::Enter, none),
        press(Key::Enter, mods(false, true, false)),
        press(Key::Escape, none),
    ];
    let mut actions = SearchStripActions::default();
    consume_text_input_keys(&mut presses, &mut actions, TextInputKind::Find);
    assert!(actions.replace_current_requested);
    assert!(!actions.next_requested);
    assert!(actions.close_requested);
    assert_eq!(presses, vec![press(Key::Enter, none)]);
}

#[test]
fn alt_number_picks_the_first_pressed_scope() {
    let alt = mods(true, false, false);
    let mut presses = vec![press(Key::Num3, alt), press(Key::Num2, alt)];
    let mut state = dialog(2, SearchReplaceAvailability::Allowed);
    state.scope = SearchScope::SelectionOnly;
    consume_search_scope_shortcuts(&mut presses, &mut state);
    assert_eq!(state.scope, SearchScope::ActiveBuffer);
    assert_eq!(presses, vec![press(Key::Num3, alt)]);

    let mut presses = vec![press(Key::Num4, alt)];
    consume_search_scope_shortcuts(&mut presses, &mut state);
    assert_eq!(state.scope, SearchScope::AllOpenTabs);

    let mut presses = vec![press(Key::Num1, mods(false, false, false))];
    consume_search_scope_shortcuts(&mut presses, &mut state);
    assert_eq!(state.scope, SearchScope::AllOpenTabs);
    assert_eq!(presses.len(), 1);
}

#[test]
fn alt_letters_toggle_search_options() {
    let alt = mods(true, false, false);
    let mut presses = vec![press(Key::R, alt), press(Key::W, alt), press(Key::C, mods(false, true, false))];
    let mut state = dialog(2, SearchReplaceAvailability::Allowed);
    consume_search_option_shortcuts(&mut presses, &mut state);
    assert_eq!(state.mode, SearchMode::Regex);
    assert!(state.whole_word);
    assert!(!state.match_case);
    assert_eq!(presses, vec![press(Key::C, mods(false, true, false))]);
}

#[test]
fn shift_f3_is_taken_by_the_next_match_shortcut() {
    let mut presses = vec![press(Key::F3, mods(false, false, true))];
    let state = dialog(3, SearchReplaceAvailability::Allowed);
    let mut actions = SearchStripActions::default();
    consume_search_action_shortcuts(&mut presses, &state, &mut actions, false);
    assert!(actions.next_requested);
    assert!(!actions.previous_requested);
    assert!(presses.is_empty());
}

#[test]
fn action_shortcuts_follow_availability() {
    let ctrl = mods(false, true, false);
    let mut presses = vec![
        press(Key::F3, mods(false, false, false)),
        press(Key::Enter, mods(true, false, false)),
        press(Key::Z, ctrl),
        press(Key::Y, ctrl),
    ];
    let state = dialog(0, SearchReplaceAvailability::Allowed);
    let mut actions = SearchStripActions::default();
    consume_search_action_shortcuts(&mut presses, &state, &mut actions, true);
    assert!(!actions.next_requested);
    assert!(actions.replace_all_requested);
    assert!(!actions.undo_requested);
    assert!(!actions.redo_requested);
    assert!(presses.is_empty());
}

#[test]
fn strip_shortcuts_run_scope_options_then_actions() {
    let alt = mods(true, false, false);
    let ctrl = mods(false, true, false);
    let mut presses = vec![press(Key::Num1, alt), press(Key::C, alt), press(Key::Z, ctrl)];
    let mut state = dialog(1, SearchReplaceAvailability::Allowed);
    let mut actions = SearchStripActions::default();
    consume_search_strip_shortcuts(&mut presses, &mut state, &mut actions, false);
    assert_eq!(state.scope, SearchScope::SelectionOnly);
    assert!(state.match_case);
    assert!(actions.undo_requested);
    assert!(presses.is_empty());
}

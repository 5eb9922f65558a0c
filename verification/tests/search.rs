use scratchpad::search::{
    SearchActionAvailability, SearchActionShortcut, SearchFocusTarget, SearchFreshness,
    SearchMode, SearchProgressSnapshot, SearchReplaceAvailability, SearchResultEntry,
    SearchResultGroup, SearchScope, SearchScopeOrigin, SearchStatus, SearchStripActions,
    SearchStripState, TextInputKind, TextInputShortcut, active_match_local_row,
    apply_search_action_shortcut, apply_text_input_shortcut, empty_message,
    empty_message_from_parts, file_match_count_label, match_preview, replace_tooltip,
    results_summary, search_result_group_key, toggled_search_mode,
};

#[test]
fn find_input_enter_shortcuts_choose_navigation_actions() {
    let mut actions = SearchStripActions::default();
    apply_text_input_shortcut(
        &mut actions,
        TextInputKind::Find,
        TextInputShortcut::PlainEnter,
    );
    assert!(actions.next_requested);

    let mut actions = SearchStripActions::default();
    apply_text_input_shortcut(
        &mut actions,
        TextInputKind::Find,
        TextInputShortcut::ShiftEnter,
    );
    assert!(actions.previous_requested);
}

#[test]
fn replace_input_plain_enter_requests_replace_current() {
    let mut actions = SearchStripActions::default();
    apply_text_input_shortcut(
        &mut actions,
        TextInputKind::Replace,
        TextInputShortcut::PlainEnter,
    );

    assert!(actions.replace_current_requested);
    assert!(!actions.next_requested);
}

#[test]
fn escape_and_modified_enter_in_inputs() {
    let mut actions = SearchStripActions::default();
    apply_text_input_shortcut(&mut actions, TextInputKind::Replace, TextInputShortcut::Escape);
    assert!(actions.close_requested);

    let mut actions = SearchStripActions::default();
    apply_text_input_shortcut(&mut actions, TextInputKind::Find, TextInputShortcut::AltEnter);
    assert!(actions.replace_all_requested);

    let mut actions = SearchStripActions::default();
    apply_text_input_shortcut(&mut actions, TextInputKind::Replace, TextInputShortcut::ShiftEnter);
    assert!(!actions.previous_requested);
}

#[test]
fn global_navigation_shortcuts_require_matches() {
    assert!(
        !shortcut_actions(
            action_availability(0, true, false),
            SearchActionShortcut::Next
        )
        .next_requested
    );
    assert!(
        shortcut_actions(
            action_availability(1, true, false),
            SearchActionShortcut::Next
        )
        .next_requested
    );
}

#[test]
fn global_replace_shortcuts_require_allowed_replace_state() {
    assert!(
        !shortcut_actions(
            action_availability(1, false, false),
            SearchActionShortcut::ReplaceAll,
        )
        .replace_all_requested
    );
    assert!(
        shortcut_actions(
            action_availability(1, true, false),
            SearchActionShortcut::ReplaceAll,
        )
        .replace_all_requested
    );
}

#[test]
fn undo_redo_shortcuts_do_not_steal_text_input_focus() {
    assert!(
        !shortcut_actions(
            action_availability(1, true, true),
            SearchActionShortcut::Undo
        )
        .undo_requested
    );
    assert!(
        shortcut_actions(
            action_availability(1, true, false),
            SearchActionShortcut::Redo
        )
        .redo_requested
    );
}

fn shortcut_actions(
    availability: SearchActionAvailability,
    shortcut: SearchActionShortcut,
) -> SearchStripActions {
    let mut actions = SearchStripActions::default();
    apply_search_action_shortcut(&mut actions, availability, shortcut);
    actions
}

fn action_availability(
    match_count: usize,
    replace_allowed: bool,
    text_input_focused: bool,
) -> SearchActionAvailability {
    SearchActionAvailability {
        match_count,
        replace_allowed,
        can_undo_text_operation: true,
        can_redo_text_operation: true,
        text_input_focused,
    }
}

#[test]
fn regex_mode_shortcut_toggles_between_modes() {
    assert_eq!(
        toggled_search_mode(SearchMode::PlainText),
        SearchMode::Regex
    );
    assert_eq!(
        toggled_search_mode(SearchMode::Regex),
        SearchMode::PlainText
    );
}

fn group(first_match_index: usize, total_match_count: usize) -> SearchResultGroup {
    SearchResultGroup {
        tab_index: 2,
        buffer_id: 7,
        buffer_label: "notes.txt".to_owned(),
        tab_label: "Tab".to_owned(),
        first_match_index,
        total_match_count,
        active: false,
    }
}

fn entry(preview: &str) -> SearchResultEntry {
    SearchResultEntry {
        match_index: 4,
        buffer_id: 7,
        buffer_label: "notes.txt".to_owned(),
        line_number: 3,
        column_number: 8,
        preview: preview.to_owned(),
        active: false,
    }
}

#[test]
fn active_match_local_row_requires_match_inside_group() {
    let group = group(10, 4);

    assert_eq!(active_match_local_row(&group, Some(10)), Some(0));
    assert_eq!(active_match_local_row(&group, Some(13)), Some(3));
    assert_eq!(active_match_local_row(&group, Some(9)), None);
    assert_eq!(active_match_local_row(&group, Some(14)), None);
    assert_eq!(active_match_local_row(&group, None), None);
}

#[test]
fn search_result_group_key_uses_stable_identity_fields() {
    assert_eq!(search_result_group_key(&group(10, 4)), (2, 7, 10));
}

#[test]
fn file_match_count_label_pluralizes_only_non_one_counts() {
    assert_eq!(file_match_count_label(0), "0 matches");
    assert_eq!(file_match_count_label(1), "1 match");
    assert_eq!(file_match_count_label(2), "2 matches");
}

#[test]
fn match_preview_uses_placeholder_for_empty_preview() {
    assert_eq!(match_preview(&entry("")), "Match");
    assert_eq!(
        match_preview(&entry("needle in haystack")),
        "needle in haystack"
    );
}

#[test]
fn empty_message_prioritizes_query_status_then_result_presence() {
    assert_eq!(
        empty_message_from_parts(true, None, false, false),
        Some("Type to search across the selected scope.")
    );
    assert_eq!(
        empty_message_from_parts(false, Some("Invalid query"), false, false),
        Some("Invalid query")
    );
    assert_eq!(
        empty_message_from_parts(false, None, true, false),
        Some("Searching\u{2026}")
    );
    assert_eq!(
        empty_message_from_parts(false, None, false, false),
        Some("No matches found.")
    );
    assert_eq!(empty_message_from_parts(false, None, false, true), None);
}

#[test]
fn replace_tooltip_explains_why_replace_is_unavailable() {
    assert_eq!(replace_tooltip(&SearchReplaceAvailability::Allowed, "Replace all"), "Replace all");
    assert_eq!(
        replace_tooltip(&SearchReplaceAvailability::Disabled, "Replace all"),
        "Replace is unavailable until results are ready."
    );
    let blocked = SearchReplaceAvailability::Blocked("Read-only buffer".to_owned());
    assert_eq!(replace_tooltip(&blocked, "Replace all"), "Read-only buffer");
}

fn state(query: &str, progress: SearchProgressSnapshot, groups: Vec<SearchResultGroup>) -> SearchStripState {
    SearchStripState {
        query: query.to_owned(),
        replacement: String::new(),
        replace_open: false,
        scope: SearchScope::ActiveBuffer,
        scope_origin: SearchScopeOrigin::Explicit,
        mode: SearchMode::PlainText,
        match_case: false,
        whole_word: false,
        match_count: 5,
        active_match_index: None,
        progress,
        result_groups: groups,
        replace_availability: SearchReplaceAvailability::Allowed,
        can_undo_text_operation: false,
        can_redo_text_operation: false,
        requested_focus: None,
        retained_focus: None,
    }
}

#[test]
fn progress_snapshot_is_searching_only_while_searching() {
    let searching = SearchProgressSnapshot::from_progress(SearchStatus::Searching {}, 1, 3, 0, 0, SearchFreshness::Fresh);
    let ready = SearchProgressSnapshot::from_progress(SearchStatus::Ready, 3, 3, 5, 5, SearchFreshness::Fresh);

    assert!(searching.searching);
    assert!(!ready.searching);
    assert_eq!(ready.total_match_count, 5);
}

#[test]
fn results_summary_reports_progress_and_counts() {
    let searching = SearchProgressSnapshot::from_progress(SearchStatus::Searching {}, 4, 3, 0, 0, SearchFreshness::Fresh);
    assert_eq!(results_summary(&state("x", searching, vec![])), "Searching 3 of 3 targets...");

    let ready = SearchProgressSnapshot::from_progress(SearchStatus::Ready, 3, 3, 5, 5, SearchFreshness::Fresh);
    let st = state("x", ready, vec![group(0, 3), group(3, 2)]);
    assert_eq!(results_summary(&st), "5 matches in 2 files");
    assert_eq!(st.results_summary(), "5 matches in 2 files");

    let partial = SearchProgressSnapshot::from_progress(SearchStatus::Ready, 3, 3, 2, 5, SearchFreshness::Fresh);
    assert_eq!(results_summary(&state("x", partial, vec![group(0, 5)])), "2 of 5 matches");

    let invalid = SearchProgressSnapshot::from_progress(
        SearchStatus::InvalidQuery("bad".to_owned()),
        0,
        0,
        0,
        0,
        SearchFreshness::Fresh,
    );
    assert_eq!(results_summary(&state("(", invalid, vec![])), "Invalid query");

    let idle = SearchProgressSnapshot::from_progress(SearchStatus::Idle, 0, 0, 0, 0, SearchFreshness::Fresh);
    assert_eq!(results_summary(&state("", idle, vec![])), "");
}

#[test]
fn strip_summary_names_files() {
    let stale = SearchProgressSnapshot::from_progress(SearchStatus::Ready, 1, 2, 0, 0, SearchFreshness::Stale);
    assert_eq!(state("x", stale, vec![]).results_summary(), "Searching 1 of 2 files...");

    let ready = SearchProgressSnapshot::from_progress(SearchStatus::Ready, 1, 1, 5, 5, SearchFreshness::Fresh);
    assert_eq!(state("x", ready, vec![group(0, 5)]).results_summary(), "5 matches in 1 file");
}

#[test]
fn empty_message_reads_the_strip_state() {
    let idle = SearchProgressSnapshot::from_progress(SearchStatus::Idle, 0, 0, 0, 0, SearchFreshness::Fresh);
    assert_eq!(empty_message(&state("", idle, vec![])), Some("Type to search across the selected scope."));

    let error = SearchProgressSnapshot::from_progress(
        SearchStatus::Error("disk gone".to_owned()),
        0,
        0,
        0,
        0,
        SearchFreshness::Fresh,
    );
    assert_eq!(empty_message(&state("x", error, vec![])), Some("disk gone"));
}

#[test]
fn focus_defaults_to_the_find_input() {
    let idle = SearchProgressSnapshot::from_progress(SearchStatus::Idle, 0, 0, 0, 0, SearchFreshness::Fresh);
    let mut st = state("", idle, vec![]);
    assert_eq!(st.target_focus(), SearchFocusTarget::FindInput);
    st.retained_focus = Some(SearchFocusTarget::ReplaceInput);
    assert_eq!(st.target_focus(), SearchFocusTarget::ReplaceInput);
}

use scratchpad::search::{
    EditCommand, SearchCommand, SearchInputs, StripCommand, StripRequest, apply_search_inputs,
    dispatch_search_actions,
};

#[test]
fn changed_inputs_are_reported_with_the_dialog_values() {
    let idle = SearchProgressSnapshot::from_progress(SearchStatus::Idle, 0, 0, 0, 0, SearchFreshness::Fresh);
    let mut st = state("needle", idle, vec![]);
    st.match_case = true;
    let current = SearchInputs {
        query: "need".to_owned(),
        replacement: String::new(),
        replace_open: false,
        scope: SearchScope::ActiveBuffer,
        mode: SearchMode::PlainText,
        match_case: false,
        whole_word: false,
    };

    let changes = apply_search_inputs(&st, &current);

    assert_eq!(changes.query, Some("needle".to_owned()));
    assert_eq!(changes.replacement, None);
    assert_eq!(changes.replace_open, None);
    assert_eq!(changes.scope, None);
    assert_eq!(changes.mode, None);
    assert_eq!(changes.match_case, Some(true));
    assert_eq!(changes.whole_word, None);
}

#[test]
fn dispatched_actions_keep_focus_before_each_command() {
    let mut actions = SearchStripActions::default();
    actions.next_requested = true;
    actions.undo_requested = true;
    actions.selected_match_index = Some(4);

    let requests = dispatch_search_actions(SearchFocusTarget::ReplaceInput, &actions);

    assert_eq!(
        requests,
        vec![
            StripRequest::RequestFocus(SearchFocusTarget::ReplaceInput),
            StripRequest::Command(StripCommand::Search(SearchCommand::NextSearchMatch)),
            StripRequest::RequestFocus(SearchFocusTarget::ReplaceInput),
            StripRequest::Command(StripCommand::Edit(EditCommand::UndoActiveBufferTextOperation)),
            StripRequest::Command(StripCommand::Search(SearchCommand::ActivateSearchMatch { match_index: 4 })),
        ]
    );
}

#[test]
fn no_actions_dispatch_nothing() {
    assert!(dispatch_search_actions(SearchFocusTarget::FindInput, &SearchStripActions::default()).is_empty());
}

use scratchpad::search::{search_action_availability, sync_focus, virtual_row_bounds};

#[test]
fn availability_reads_replace_state() {
    let idle = SearchProgressSnapshot::from_progress(SearchStatus::Idle, 0, 0, 0, 0, SearchFreshness::Fresh);
    let mut st = state("x", idle, vec![]);
    st.can_undo_text_operation = true;
    let allowed = search_action_availability(&st, true);
    assert!(allowed.replace_allowed && allowed.text_input_focused && allowed.can_undo_text_operation);
    assert_eq!(allowed.match_count, 5);

    st.replace_availability = SearchReplaceAvailability::Disabled;
    assert!(!search_action_availability(&st, false).replace_allowed);
}

#[test]
fn requested_focus_is_requested_and_retained() {
    let idle = SearchProgressSnapshot::from_progress(SearchStatus::Idle, 0, 0, 0, 0, SearchFreshness::Fresh);
    let mut st = state("x", idle, vec![]);
    st.requested_focus = Some(SearchFocusTarget::ReplaceInput);

    assert!(!sync_focus(&mut st, false, SearchFocusTarget::FindInput));
    assert_eq!(st.retained_focus, None);
    assert!(sync_focus(&mut st, false, SearchFocusTarget::ReplaceInput));
    assert_eq!(st.retained_focus, Some(SearchFocusTarget::ReplaceInput));
    assert!(!sync_focus(&mut st, true, SearchFocusTarget::FindInput));
    assert_eq!(st.retained_focus, Some(SearchFocusTarget::FindInput));
}

#[test]
fn virtual_row_bounds_add_overscan_within_the_results() {
    assert_eq!(virtual_row_bounds(2, 7, 1, 20), (1, 8));
    assert_eq!(virtual_row_bounds(277, 282, 2, 5), (5, 5));
    assert_eq!(virtual_row_bounds(0, 3, 4, 20), (0, 7));
}

//! Search and replace dialog logic: keyboard shortcuts, result grouping and
//! the texts the dialog shows.
use vstd::prelude::*;
use crate::text::{decimal, push_decimal, push_str};

verus! {

/// How the query is matched.
#[derive(Clone, Copy, Debug, PartialEq, Eq, Structural)]
pub enum SearchMode {
    PlainText,
    Regex,
}

/// Which text a search looks through.
#[derive(Clone, Copy, Debug, PartialEq, Eq, Structural)]
pub enum SearchScope {
    SelectionOnly,
    ActiveBuffer,
    ActiveWorkspaceTab,
    AllOpenTabs,
}

/// Whether the scope was chosen by the user or defaulted from a selection.
#[derive(Clone, Copy, Debug, PartialEq, Eq, Structural)]
pub enum SearchScopeOrigin {
    Explicit,
    SelectionDefault,
}

/// Whether the shown results match the current query and documents.
#[derive(Clone, Copy, Debug, PartialEq, Eq, Structural)]
pub enum SearchFreshness {
    Fresh,
    Stale,
}

/// The input that should hold keyboard focus in the dialog.
#[derive(Clone, Copy, Debug, PartialEq, Eq, Structural)]
pub enum SearchFocusTarget {
    FindInput,
    ReplaceInput,
}

/// Whether replacing is possible now, and why not.
#[derive(Clone, Debug, PartialEq, Eq)]
pub enum SearchReplaceAvailability {
    Allowed,
    Disabled,
    Blocked(String),
}

/// Where a search stands.
#[derive(Clone, Debug, PartialEq, Eq)]
pub enum SearchStatus {
    Idle,
    Searching {},
    Ready,
    NoMatches,
    InvalidQuery(String),
    Error(String),
}

impl SearchStatus {
    /// The message this status shows in place of results, if any.
    pub fn message(&self) -> (message: Option<&str>)
        ensures
            match self {
                SearchStatus::InvalidQuery(_) => message is Some && message->0@ == "Invalid query"@,
                SearchStatus::Error(m) => message is Some && message->0@ == m@,
                _ => message is None,
            },
    {
        match self {
            SearchStatus::InvalidQuery(_) => Some("Invalid query"),
            SearchStatus::Error(message) => Some(message.as_str()),
            _ => None,
        }
    }
}

/// Progress of the running or last search.
pub struct SearchProgressSnapshot {
    pub searching: bool,
    pub scanned_targets: usize,
    pub target_count: usize,
    pub displayed_match_count: usize,
    pub total_match_count: usize,
    pub status: SearchStatus,
    pub freshness: SearchFreshness,
}

impl SearchProgressSnapshot {
    /// A snapshot of a search's progress; it is searching exactly while the status says so.
    pub fn from_progress(
        status: SearchStatus,
        scanned_targets: usize,
        target_count: usize,
        displayed_match_count: usize,
        total_match_count: usize,
        freshness: SearchFreshness,
    ) -> (snapshot: Self)
        ensures
            snapshot.searching == (status is Searching),
            snapshot.scanned_targets == scanned_targets,
            snapshot.target_count == target_count,
            snapshot.displayed_match_count == displayed_match_count,
            snapshot.total_match_count == total_match_count,
            snapshot.status == status,
            snapshot.freshness == freshness,
    {
        let searching = match &status {
            SearchStatus::Searching { .. } => true,
            _ => false,
        };
        SearchProgressSnapshot {
            searching,
            scanned_targets,
            target_count,
            displayed_match_count,
            total_match_count,
            status,
            freshness,
        }
    }
}

/// Matches of one buffer, as a group of consecutive match indices.
pub struct SearchResultGroup {
    pub tab_index: usize,
    pub buffer_id: u64,
    pub buffer_label: String,
    pub tab_label: String,
    pub first_match_index: usize,
    pub total_match_count: usize,
    pub active: bool,
}

/// One match in the results list.
pub struct SearchResultEntry {
    pub match_index: usize,
    pub buffer_id: u64,
    pub buffer_label: String,
    pub line_number: usize,
    pub column_number: usize,
    pub preview: String,
    pub active: bool,
}

/// Row of the active match within its group, when the group holds it.
pub fn active_match_local_row(group: &SearchResultGroup, active_match_index: Option<usize>) -> (row: Option<usize>)
    ensures
        match active_match_index {
            Some(a) => if group.first_match_index <= a < group.first_match_index + group.total_match_count {
                row == Some((a - group.first_match_index) as usize)
            } else {
                row is None
            },
            None => row is None,
        },
{
    let active = match active_match_index {
        Some(a) => a,
        None => {
            return None;
        },
    };
    if group.first_match_index <= active && active - group.first_match_index < group.total_match_count {
        Some(active - group.first_match_index)
    } else {
        None
    }
}

/// Stable identity of a group: tab, buffer and first match.
pub fn search_result_group_key(group: &SearchResultGroup) -> (key: (usize, u64, usize))
    ensures
        key == (group.tab_index, group.buffer_id, group.first_match_index),
{
    (group.tab_index, group.buffer_id, group.first_match_index)
}

/// "1 match", otherwise "<n> matches".
pub fn file_match_count_label(match_count: usize) -> (label: String)
    ensures
        label@ == if match_count == 1 { "1 match"@ } else { decimal(match_count as nat) + " matches"@ },
{
    if match_count == 1 {
        let mut label = String::new();
        push_str(&mut label, "1 match");
        label
    } else {
        let mut label = String::new();
        push_decimal(&mut label, match_count);
        push_str(&mut label, " matches");
        label
    }
}

/// The preview line of a match, or "Match" when it has none.
pub fn match_preview(entry: &SearchResultEntry) -> (preview: &str)
    ensures
        preview@ == if entry.preview@.len() == 0 { "Match"@ } else { entry.preview@ },
{
    if entry.preview.as_str().is_empty() {
        "Match"
    } else {
        entry.preview.as_str()
    }
}

/// What the results area shows instead of results: a prompt for an empty
/// query, the status message, a searching note or "no matches"; `None` when
/// there are results.
pub fn empty_message_from_parts<'a>(
    query_empty: bool,
    status_message: Option<&'a str>,
    searching: bool,
    has_result_groups: bool,
) -> (message: Option<&'a str>)
    ensures
        if query_empty {
            message is Some && message->0@ == "Type to search across the selected scope."@
        } else if status_message is Some {
            message == status_message
        } else if !has_result_groups {
            message is Some && message->0@ == (if searching { "Searching\u{2026}"@ } else { "No matches found."@ })
        } else {
            message is None
        },
{
    if query_empty {
        Some("Type to search across the selected scope.")
    } else if let Some(message) = status_message {
        Some(message)
    } else if !has_result_groups {
        if searching {
            Some("Searching\u{2026}")
        } else {
            Some("No matches found.")
        }
    } else {
        None
    }
}

/// The requests raised while the dialog handled this frame's input.
pub struct SearchStripActions {
    pub close_requested: bool,
    pub next_requested: bool,
    pub previous_requested: bool,
    pub undo_requested: bool,
    pub redo_requested: bool,
    pub replace_current_requested: bool,
    pub replace_all_requested: bool,
    pub focused_file_match_index: Option<usize>,
    pub selected_match_index: Option<usize>,
}

/// No requests.
pub open spec fn no_actions() -> SearchStripActions {
    SearchStripActions {
        close_requested: false,
        next_requested: false,
        previous_requested: false,
        undo_requested: false,
        redo_requested: false,
        replace_current_requested: false,
        replace_all_requested: false,
        focused_file_match_index: None,
        selected_match_index: None,
    }
}

impl Default for SearchStripActions {
    fn default() -> (actions: Self)
        ensures
            actions == no_actions(),
    {
        SearchStripActions {
            close_requested: false,
            next_requested: false,
            previous_requested: false,
            undo_requested: false,
            redo_requested: false,
            replace_current_requested: false,
            replace_all_requested: false,
            focused_file_match_index: None,
            selected_match_index: None,
        }
    }
}

/// The two text inputs of the dialog.
#[derive(Clone, Copy, Debug, PartialEq, Eq, Structural)]
pub enum TextInputKind {
    Find,
    Replace,
}

/// Keys handled inside a text input.
#[derive(Clone, Copy, Debug, PartialEq, Eq, Structural)]
pub enum TextInputShortcut {
    CtrlEnter,
    AltEnter,
    ShiftEnter,
    PlainEnter,
    Escape,
}

/// Dialog-wide shortcuts.
#[derive(Clone, Copy, Debug, PartialEq, Eq, Structural)]
pub enum SearchActionShortcut {
    Next,
    Previous,
    ReplaceCurrent,
    ReplaceAll,
    Undo,
    Redo,
}

/// What the dialog-wide shortcuts may do now.
#[derive(Clone, Copy, Debug, PartialEq, Eq, Structural)]
pub struct SearchActionAvailability {
    pub match_count: usize,
    pub replace_allowed: bool,
    pub can_undo_text_operation: bool,
    pub can_redo_text_operation: bool,
    pub text_input_focused: bool,
}

/// The requests after a text-input key: Enter in the find input goes to the
/// next match (Shift: previous); in the replace input it replaces the
/// current match; Ctrl+Enter replaces the current match, Alt+Enter replaces
/// all; Escape closes.
pub open spec fn text_input_shortcut_applied(
    actions: SearchStripActions,
    input_kind: TextInputKind,
    shortcut: TextInputShortcut,
) -> SearchStripActions {
    match shortcut {
        TextInputShortcut::CtrlEnter => SearchStripActions { replace_current_requested: true, ..actions },
        TextInputShortcut::AltEnter => SearchStripActions { replace_all_requested: true, ..actions },
        TextInputShortcut::ShiftEnter => if input_kind == TextInputKind::Find {
            SearchStripActions { previous_requested: true, ..actions }
        } else {
            actions
        },
        TextInputShortcut::PlainEnter => if input_kind == TextInputKind::Find {
            SearchStripActions { next_requested: true, ..actions }
        } else {
            SearchStripActions { replace_current_requested: true, ..actions }
        },
        TextInputShortcut::Escape => SearchStripActions { close_requested: true, ..actions },
    }
}

/// Applies a text-input key to the requests.
pub fn apply_text_input_shortcut(actions: &mut SearchStripActions, input_kind: TextInputKind, shortcut: TextInputShortcut)
    ensures
        *final(actions) == text_input_shortcut_applied(*old(actions), input_kind, shortcut),
{
    match shortcut {
        TextInputShortcut::CtrlEnter => actions.replace_current_requested = true,
        TextInputShortcut::AltEnter => actions.replace_all_requested = true,
        TextInputShortcut::ShiftEnter => {
            if input_kind == TextInputKind::Find {
                actions.previous_requested = true;
            }
        },
        TextInputShortcut::PlainEnter => match input_kind {
            TextInputKind::Find => actions.next_requested = true,
            TextInputKind::Replace => actions.replace_current_requested = true,
        },
        TextInputShortcut::Escape => actions.close_requested = true,
    }
}

/// The requests after a dialog-wide shortcut: navigation needs matches,
/// replacing needs an allowed replace state, and undo/redo act only while no
/// text input has focus and the history allows it.
pub open spec fn search_action_shortcut_applied(
    actions: SearchStripActions,
    availability: SearchActionAvailability,
    shortcut: SearchActionShortcut,
) -> SearchStripActions {
    match shortcut {
        SearchActionShortcut::Next => if availability.match_count > 0 {
            SearchStripActions { next_requested: true, ..actions }
        } else {
            actions
        },
        SearchActionShortcut::Previous => if availability.match_count > 0 {
            SearchStripActions { previous_requested: true, ..actions }
        } else {
            actions
        },
        SearchActionShortcut::ReplaceCurrent => if availability.replace_allowed {
            SearchStripActions { replace_current_requested: true, ..actions }
        } else {
            actions
        },
        SearchActionShortcut::ReplaceAll => if availability.replace_allowed {
            SearchStripActions { replace_all_requested: true, ..actions }
        } else {
            actions
        },
        SearchActionShortcut::Undo => if !availability.text_input_focused && availability.can_undo_text_operation {
            SearchStripActions { undo_requested: true, ..actions }
        } else {
            actions
        },
        SearchActionShortcut::Redo => if !availability.text_input_focused && availability.can_redo_text_operation {
            SearchStripActions { redo_requested: true, ..actions }
        } else {
            actions
        },
    }
}

/// Applies a dialog-wide shortcut to the requests.
pub fn apply_search_action_shortcut(
    actions: &mut SearchStripActions,
    availability: SearchActionAvailability,
    shortcut: SearchActionShortcut,
)
    ensures
        *final(actions) == search_action_shortcut_applied(*old(actions), availability, shortcut),
{
    match shortcut {
        SearchActionShortcut::Next => {
            if availability.match_count > 0 {
                actions.next_requested = true;
            }
        },
        SearchActionShortcut::Previous => {
            if availability.match_count > 0 {
                actions.previous_requested = true;
            }
        },
        SearchActionShortcut::ReplaceCurrent => {
            if availability.replace_allowed {
                actions.replace_current_requested = true;
            }
        },
        SearchActionShortcut::ReplaceAll => {
            if availability.replace_allowed {
                actions.replace_all_requested = true;
            }
        },
        SearchActionShortcut::Undo => {
            if !availability.text_input_focused && availability.can_undo_text_operation {
                actions.undo_requested = true;
            }
        },
        SearchActionShortcut::Redo => {
            if !availability.text_input_focused && availability.can_redo_text_operation {
                actions.redo_requested = true;
            }
        },
    }
}

/// Alt+R switches between plain-text and regex matching.
pub fn toggled_search_mode(mode: SearchMode) -> (toggled: SearchMode)
    ensures
        toggled == match mode {
            SearchMode::PlainText => SearchMode::Regex,
            SearchMode::Regex => SearchMode::PlainText,
        },
{
    match mode {
        SearchMode::PlainText => SearchMode::Regex,
        SearchMode::Regex => SearchMode::PlainText,
    }
}

/// Tooltip of the replace buttons: the given one when replacing is allowed,
/// otherwise why it is not.
pub fn replace_tooltip<'a>(availability: &'a SearchReplaceAvailability, allowed_tooltip: &'a str) -> (tooltip: &'a str)
    ensures
        tooltip@ == match availability {
            SearchReplaceAvailability::Allowed => allowed_tooltip@,
            SearchReplaceAvailability::Disabled => "Replace is unavailable until results are ready."@,
            SearchReplaceAvailability::Blocked(message) => message@,
        },
{
    match availability {
        SearchReplaceAvailability::Allowed => allowed_tooltip,
        SearchReplaceAvailability::Disabled => "Replace is unavailable until results are ready.",
        SearchReplaceAvailability::Blocked(message) => message.as_str(),
    }
}

/// "<count> <noun>", with an "s" unless the count is one.
pub open spec fn pluralized(count: nat, noun: Seq<char>) -> Seq<char> {
    decimal(count) + " "@ + noun + if count == 1 { Seq::<char>::empty() } else { "s"@ }
}

/// Appends "<count> <noun>" with the noun in the plural unless the count is one.
pub fn push_pluralized(out: &mut String, count: usize, noun: &str)
    ensures
        final(out)@ == old(out)@ + pluralized(count as nat, noun@),
{
    push_decimal(out, count);
    push_str(out, " ");
    push_str(out, noun);
    if count != 1 {
        push_str(out, "s");
    }
    assert(out@ =~= old(out)@ + pluralized(count as nat, noun@));
}

} // verus!

verus! {

/// The dialog's view of the search for one frame.
pub struct SearchStripState {
    pub query: String,
    pub replacement: String,
    pub replace_open: bool,
    pub scope: SearchScope,
    pub scope_origin: SearchScopeOrigin,
    pub mode: SearchMode,
    pub match_case: bool,
    pub whole_word: bool,
    pub match_count: usize,
    pub active_match_index: Option<usize>,
    pub progress: SearchProgressSnapshot,
    pub result_groups: Vec<SearchResultGroup>,
    pub replace_availability: SearchReplaceAvailability,
    pub can_undo_text_operation: bool,
    pub can_redo_text_operation: bool,
    pub requested_focus: Option<SearchFocusTarget>,
    pub retained_focus: Option<SearchFocusTarget>,
}

/// Summary while searching: how many files of how many are done, when known.
pub open spec fn searching_summary_text(progress: SearchProgressSnapshot) -> Seq<char> {
    if progress.target_count > 0 {
        let scanned = if progress.scanned_targets < progress.target_count { progress.scanned_targets } else { progress.target_count };
        "Searching "@ + decimal(scanned as nat) + " of "@ + pluralized(progress.target_count as nat, "file"@) + "..."@
    } else {
        "Searching\u{2026}"@
    }
}

/// Summary text a status replaces the counts with, if any.
pub open spec fn status_summary_text(status: SearchStatus) -> Option<Seq<char>> {
    match status {
        SearchStatus::InvalidQuery(_) => Some("Invalid query"@),
        SearchStatus::Error(m) => Some(m@),
        _ => None,
    }
}

/// The summary line above the results.
pub open spec fn summary_text(state: SearchStripState) -> Seq<char> {
    if state.progress.searching || state.progress.freshness == SearchFreshness::Stale {
        searching_summary_text(state.progress)
    } else if state.query@.len() == 0 {
        Seq::empty()
    } else if status_summary_text(state.progress.status) is Some {
        status_summary_text(state.progress.status)->0
    } else if state.progress.displayed_match_count < state.progress.total_match_count {
        decimal(state.progress.displayed_match_count as nat) + " previews of "@
            + decimal(state.progress.total_match_count as nat) + " matches"@
    } else {
        decimal(state.match_count as nat) + " matches in "@ + pluralized(state.result_groups@.len(), "file"@)
    }
}

/// The searching summary.
pub fn searching_summary(progress: &SearchProgressSnapshot) -> (summary: String)
    ensures
        summary@ == searching_summary_text(*progress),
{
    let mut summary = String::new();
    if progress.target_count > 0 {
        let scanned = if progress.scanned_targets < progress.target_count { progress.scanned_targets } else { progress.target_count };
        push_str(&mut summary, "Searching ");
        push_decimal(&mut summary, scanned);
        push_str(&mut summary, " of ");
        push_pluralized(&mut summary, progress.target_count, "file");
        push_str(&mut summary, "...");
    } else {
        push_str(&mut summary, "Searching\u{2026}");
    }
    assert(summary@ =~= searching_summary_text(*progress));
    summary
}

/// The summary a status gives instead of counts, if any.
pub fn status_summary(status: &SearchStatus) -> (summary: Option<String>)
    ensures
        match status_summary_text(*status) {
            Some(t) => summary is Some && summary->0@ == t,
            None => summary is None,
        },
{
    match status {
        SearchStatus::InvalidQuery(_) => {
            let mut s = String::new();
            push_str(&mut s, "Invalid query");
            Some(s)
        },
        SearchStatus::Error(message) => Some(crate::text::string_of_chars_of(message)),
        _ => None,
    }
}

impl SearchStripState {
    /// The input to focus: the one last focused or requested, else the find input.
    pub fn target_focus(&self) -> (target: SearchFocusTarget)
        ensures
            target == match self.retained_focus {
                Some(t) => t,
                None => SearchFocusTarget::FindInput,
            },
    {
        match self.retained_focus {
            Some(t) => t,
            None => SearchFocusTarget::FindInput,
        }
    }

    /// The summary line above the results.
    pub fn results_summary(&self) -> (summary: String)
        ensures
            summary@ == summary_text(*self),
    {
        if self.progress.searching || self.progress.freshness == SearchFreshness::Stale {
            return searching_summary(&self.progress);
        }
        if self.query.as_str().is_empty() {
            return String::new();
        }
        if let Some(summary) = status_summary(&self.progress.status) {
            return summary;
        }
        let mut summary = String::new();
        if self.progress.displayed_match_count < self.progress.total_match_count {
            push_decimal(&mut summary, self.progress.displayed_match_count);
            push_str(&mut summary, " previews of ");
            push_decimal(&mut summary, self.progress.total_match_count);
            push_str(&mut summary, " matches");
        } else {
            push_decimal(&mut summary, self.match_count);
            push_str(&mut summary, " matches in ");
            push_pluralized(&mut summary, self.result_groups.len(), "file");
        }
        assert(summary@ =~= summary_text(*self));
        summary
    }
}

/// What the results area shows in place of results for this state.
pub fn empty_message(state: &SearchStripState) -> (message: Option<&str>)
    ensures
        if state.query@.len() == 0 {
            message is Some && message->0@ == "Type to search across the selected scope."@
        } else if state.progress.status is InvalidQuery {
            message is Some && message->0@ == "Invalid query"@
        } else if state.progress.status is Error {
            message is Some && message->0@ == state.progress.status->Error_0@
        } else if state.result_groups@.len() == 0 {
            message is Some && message->0@ == (if state.progress.searching { "Searching\u{2026}"@ } else { "No matches found."@ })
        } else {
            message is None
        },
{
    empty_message_from_parts(
        state.query.as_str().is_empty(),
        state.progress.status.message(),
        state.progress.searching,
        state.result_groups.len() > 0,
    )
}

/// The results list's own summary: progress over targets while searching,
/// nothing for an empty query, the status message, previews of matches, or
/// matches in files.
pub open spec fn list_summary_text(state: SearchStripState) -> Seq<char> {
    if state.progress.searching || state.progress.freshness == SearchFreshness::Stale {
        if state.progress.target_count > 0 {
            let scanned = if state.progress.scanned_targets < state.progress.target_count {
                state.progress.scanned_targets
            } else {
                state.progress.target_count
            };
            "Searching "@ + decimal(scanned as nat) + " of "@ + decimal(state.progress.target_count as nat) + " targets..."@
        } else {
            "Searching\u{2026}"@
        }
    } else if state.query@.len() == 0 {
        Seq::empty()
    } else if status_summary_text(state.progress.status) is Some {
        status_summary_text(state.progress.status)->0
    } else if state.progress.displayed_match_count < state.progress.total_match_count {
        decimal(state.progress.displayed_match_count as nat) + " of "@
            + decimal(state.progress.total_match_count as nat) + " matches"@
    } else {
        decimal(state.match_count as nat) + " matches in "@ + decimal(state.result_groups@.len())
            + if state.result_groups@.len() == 1 { " file"@ } else { " files"@ }
    }
}

/// The summary line of the results list.
pub fn results_summary(state: &SearchStripState) -> (summary: String)
    ensures
        summary@ == list_summary_text(*state),
{
    let mut summary = String::new();
    if state.progress.searching || state.progress.freshness == SearchFreshness::Stale {
        if state.progress.target_count > 0 {
            let scanned = if state.progress.scanned_targets < state.progress.target_count {
                state.progress.scanned_targets
            } else {
                state.progress.target_count
            };
            push_str(&mut summary, "Searching ");
            push_decimal(&mut summary, scanned);
            push_str(&mut summary, " of ");
            push_decimal(&mut summary, state.progress.target_count);
            push_str(&mut summary, " targets...");
        } else {
            push_str(&mut summary, "Searching\u{2026}");
        }
        assert(summary@ =~= list_summary_text(*state));
        return summary;
    }
    if state.query.as_str().is_empty() {
        return summary;
    }
    if let Some(status) = status_summary(&state.progress.status) {
        return status;
    }
    if state.progress.displayed_match_count < state.progress.total_match_count {
        push_decimal(&mut summary, state.progress.displayed_match_count);
        push_str(&mut summary, " of ");
        push_decimal(&mut summary, state.progress.total_match_count);
        push_str(&mut summary, " matches");
    } else {
        let file_count = state.result_groups.len();
        push_decimal(&mut summary, state.match_count);
        push_str(&mut summary, " matches in ");
        push_decimal(&mut summary, file_count);
        if file_count == 1 {
            push_str(&mut summary, " file");
        } else {
            push_str(&mut summary, " files");
        }
    }
    assert(summary@ =~= list_summary_text(*state));
    summary
}

} // verus!

verus! {

/// The search settings the application currently holds.
pub struct SearchInputs {
    pub query: String,
    pub replacement: String,
    pub replace_open: bool,
    pub scope: SearchScope,
    pub mode: SearchMode,
    pub match_case: bool,
    pub whole_word: bool,
}

/// The settings the dialog changed this frame; the application applies them
/// in field order.
pub struct SearchInputChanges {
    pub query: Option<String>,
    pub replacement: Option<String>,
    pub replace_open: Option<bool>,
    pub scope: Option<SearchScope>,
    pub mode: Option<SearchMode>,
    pub match_case: Option<bool>,
    pub whole_word: Option<bool>,
}

/// Each dialog setting that differs from the application's, with the
/// dialog's value.
pub fn apply_search_inputs(state: &SearchStripState, current: &SearchInputs) -> (changes: SearchInputChanges)
    ensures
        changes.query == if state.query@ != current.query@ { Some(state.query) } else { None },
        changes.replacement == if state.replacement@ != current.replacement@ { Some(state.replacement) } else { None },
        changes.replace_open == if state.replace_open != current.replace_open { Some(state.replace_open) } else { None },
        changes.scope == if state.scope != current.scope { Some(state.scope) } else { None },
        changes.mode == if state.mode != current.mode { Some(state.mode) } else { None },
        changes.match_case == if state.match_case != current.match_case { Some(state.match_case) } else { None },
        changes.whole_word == if state.whole_word != current.whole_word { Some(state.whole_word) } else { None },
{
    SearchInputChanges {
        query: if state.query != current.query { Some(state.query.clone()) } else { None },
        replacement: if state.replacement != current.replacement { Some(state.replacement.clone()) } else { None },
        replace_open: if state.replace_open != current.replace_open { Some(state.replace_open) } else { None },
        scope: if state.scope != current.scope { Some(state.scope) } else { None },
        mode: if state.mode != current.mode { Some(state.mode) } else { None },
        match_case: if state.match_case != current.match_case { Some(state.match_case) } else { None },
        whole_word: if state.whole_word != current.whole_word { Some(state.whole_word) } else { None },
    }
}

/// Search commands the dialog sends.
#[derive(Clone, Copy, Debug, PartialEq, Eq, Structural)]
pub enum SearchCommand {
    PreviousSearchMatch,
    NextSearchMatch,
    ReplaceCurrentMatch,
    ReplaceAllMatches,
    FocusSearchResultFile { match_index: usize },
    ActivateSearchMatch { match_index: usize },
}

/// Edit commands the dialog sends.
#[derive(Clone, Copy, Debug, PartialEq, Eq, Structural)]
pub enum EditCommand {
    UndoActiveBufferTextOperation,
    RedoActiveBufferTextOperation,
}

/// A command for the application.
#[derive(Clone, Copy, Debug, PartialEq, Eq, Structural)]
pub enum StripCommand {
    Search(SearchCommand),
    Edit(EditCommand),
}

/// What the dialog asks of the application, in order.
#[derive(Clone, Copy, Debug, PartialEq, Eq, Structural)]
pub enum StripRequest {
    /// Keep keyboard focus on this input of the dialog.
    RequestFocus(SearchFocusTarget),
    /// Run this command.
    Command(StripCommand),
}

/// A requested command, preceded by keeping the dialog's focus; nothing
/// when it was not requested.
pub open spec fn requested_command(target_focus: SearchFocusTarget, requested: bool, command: StripCommand) -> Seq<StripRequest> {
    if requested {
        seq![StripRequest::RequestFocus(target_focus), StripRequest::Command(command)]
    } else {
        Seq::empty()
    }
}

/// Appends a requested command, after keeping the dialog's focus.
pub fn dispatch_requested_command(
    requests: &mut Vec<StripRequest>,
    target_focus: SearchFocusTarget,
    requested: bool,
    command: StripCommand,
)
    ensures
        final(requests)@ == old(requests)@ + requested_command(target_focus, requested, command),
{
    if !requested {
        assert(old(requests)@ + Seq::<StripRequest>::empty() =~= old(requests)@);
        return;
    }
    requests.push(StripRequest::RequestFocus(target_focus));
    requests.push(StripRequest::Command(command));
    assert(requests@ =~= old(requests)@ + requested_command(target_focus, requested, command));
}

/// The requests for a frame's dialog actions: previous, next, undo, redo,
/// replace current and replace all (each keeping the dialog's focus), then
/// focusing a result file and activating a match.
pub open spec fn dispatched_actions(target_focus: SearchFocusTarget, actions: SearchStripActions) -> Seq<StripRequest> {
    requested_command(target_focus, actions.previous_requested, StripCommand::Search(SearchCommand::PreviousSearchMatch))
        + requested_command(target_focus, actions.next_requested, StripCommand::Search(SearchCommand::NextSearchMatch))
        + requested_command(target_focus, actions.undo_requested, StripCommand::Edit(EditCommand::UndoActiveBufferTextOperation))
        + requested_command(target_focus, actions.redo_requested, StripCommand::Edit(EditCommand::RedoActiveBufferTextOperation))
        + requested_command(target_focus, actions.replace_current_requested, StripCommand::Search(SearchCommand::ReplaceCurrentMatch))
        + requested_command(target_focus, actions.replace_all_requested, StripCommand::Search(SearchCommand::ReplaceAllMatches))
        + match actions.focused_file_match_index {
            Some(i) => seq![StripRequest::Command(StripCommand::Search(SearchCommand::FocusSearchResultFile { match_index: i }))],
            None => Seq::empty(),
        }
        + match actions.selected_match_index {
            Some(i) => seq![StripRequest::Command(StripCommand::Search(SearchCommand::ActivateSearchMatch { match_index: i }))],
            None => Seq::empty(),
        }
}

/// The application requests for a frame's dialog actions.
#[verifier::spinoff_prover]
#[verifier::rlimit(30)]
pub fn dispatch_search_actions(target_focus: SearchFocusTarget, actions: &SearchStripActions) -> (requests: Vec<StripRequest>)
    ensures
        requests@ == dispatched_actions(target_focus, *actions),
{
    let t = target_focus;
    let mut requests: Vec<StripRequest> = Vec::new();
    let ghost p1 = requested_command(t, actions.previous_requested, StripCommand::Search(SearchCommand::PreviousSearchMatch));
    let ghost p2 = requested_command(t, actions.next_requested, StripCommand::Search(SearchCommand::NextSearchMatch));
    let ghost p3 = requested_command(t, actions.undo_requested, StripCommand::Edit(EditCommand::UndoActiveBufferTextOperation));
    let ghost p4 = requested_command(t, actions.redo_requested, StripCommand::Edit(EditCommand::RedoActiveBufferTextOperation));
    let ghost p5 = requested_command(t, actions.replace_current_requested, StripCommand::Search(SearchCommand::ReplaceCurrentMatch));
    let ghost p6 = requested_command(t, actions.replace_all_requested, StripCommand::Search(SearchCommand::ReplaceAllMatches));
    dispatch_requested_command(&mut requests, t, actions.previous_requested,
        StripCommand::Search(SearchCommand::PreviousSearchMatch));
    assert(requests@ =~= p1);
    dispatch_requested_command(&mut requests, t, actions.next_requested,
        StripCommand::Search(SearchCommand::NextSearchMatch));
    dispatch_requested_command(&mut requests, t, actions.undo_requested,
        StripCommand::Edit(EditCommand::UndoActiveBufferTextOperation));
    dispatch_requested_command(&mut requests, t, actions.redo_requested,
        StripCommand::Edit(EditCommand::RedoActiveBufferTextOperation));
    dispatch_requested_command(&mut requests, t, actions.replace_current_requested,
        StripCommand::Search(SearchCommand::ReplaceCurrentMatch));
    dispatch_requested_command(&mut requests, t, actions.replace_all_requested,
        StripCommand::Search(SearchCommand::ReplaceAllMatches));
    let ghost commands = requests@;
    assert(commands == p1 + p2 + p3 + p4 + p5 + p6);
    let ghost q1: Seq<StripRequest> = match actions.focused_file_match_index {
        Some(i) => seq![StripRequest::Command(StripCommand::Search(SearchCommand::FocusSearchResultFile { match_index: i }))],
        None => Seq::empty(),
    };
    let ghost q2: Seq<StripRequest> = match actions.selected_match_index {
        Some(i) => seq![StripRequest::Command(StripCommand::Search(SearchCommand::ActivateSearchMatch { match_index: i }))],
        None => Seq::empty(),
    };
    if let Some(match_index) = actions.focused_file_match_index {
        requests.push(StripRequest::Command(StripCommand::Search(SearchCommand::FocusSearchResultFile { match_index })));
    }
    assert(requests@ =~= commands + q1);
    let ghost focused = requests@;
    if let Some(match_index) = actions.selected_match_index {
        requests.push(StripRequest::Command(StripCommand::Search(SearchCommand::ActivateSearchMatch { match_index })));
    }
    assert(requests@ =~= focused + q2);
    requests
}

} // verus!

verus! {

/// What the dialog-wide shortcuts may do, read from the dialog's state:
/// replacing needs an allowed replace state.
pub fn search_action_availability(state: &SearchStripState, text_input_focused: bool) -> (availability: SearchActionAvailability)
    ensures
        availability == (SearchActionAvailability {
            match_count: state.match_count,
            replace_allowed: state.replace_availability is Allowed,
            can_undo_text_operation: state.can_undo_text_operation,
            can_redo_text_operation: state.can_redo_text_operation,
            text_input_focused,
        }),
{
    SearchActionAvailability {
        match_count: state.match_count,
        replace_allowed: match state.replace_availability {
            SearchReplaceAvailability::Allowed => true,
            _ => false,
        },
        can_undo_text_operation: state.can_undo_text_operation,
        can_redo_text_operation: state.can_redo_text_operation,
        text_input_focused,
    }
}

/// Focus bookkeeping for one input of the dialog: an input that was asked
/// for focus requests it and keeps it; an input that has focus keeps it.
/// Returns whether to request focus for the input.
pub fn sync_focus(state: &mut SearchStripState, has_focus: bool, focus_target: SearchFocusTarget) -> (request_focus: bool)
    ensures
        request_focus == (old(state).requested_focus == Some(focus_target)),
        *final(state) == if request_focus || has_focus {
            SearchStripState { retained_focus: Some(focus_target), ..*old(state) }
        } else {
            *old(state)
        },
{
    if state.requested_focus == Some(focus_target) {
        state.retained_focus = Some(focus_target);
        true
    } else {
        if has_focus {
            state.retained_focus = Some(focus_target);
        }
        false
    }
}

/// Result rows to lay out for a clip: from `overscan` rows before the first
/// visible row to `overscan` rows after the last, both kept within
/// `row_count`.
pub fn virtual_row_bounds(first_visible: usize, last_visible: usize, overscan: usize, row_count: usize) -> (bounds: (usize, usize))
    ensures
        bounds.0 == if first_visible >= overscan + row_count {
            row_count as int
        } else if first_visible >= overscan {
            first_visible - overscan
        } else {
            0
        },
        bounds.1 == if last_visible + overscan < row_count { last_visible + overscan } else { row_count as int },
{
    let first = first_visible.saturating_sub(overscan);
    let last = last_visible.saturating_add(overscan);
    (if first < row_count { first } else { row_count }, if last < row_count { last } else { row_count })
}

} // verus!

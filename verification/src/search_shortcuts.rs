//! The search dialog's keyboard shortcuts: which key presses of a frame the
//! dialog takes, in what order, and what each one requests.
use vstd::prelude::*;
use crate::cursor::{Key, Modifiers};
use crate::keyboard::PressedKeyEvent;
use crate::search::{
    SearchActionAvailability, SearchActionShortcut, SearchMode, SearchScope, SearchStripActions,
    SearchStripState, TextInputKind, TextInputShortcut, apply_search_action_shortcut,
    apply_text_input_shortcut, search_action_availability, search_action_shortcut_applied,
    text_input_shortcut_applied, toggled_search_mode,
};

verus! {

/// Whether the modifiers held during a press satisfy a shortcut's modifiers:
/// Alt and Shift of the shortcut must be held, extra ones do not matter; a
/// Mac Cmd shortcut needs Cmd and the same Ctrl; a shortcut with neither
/// Ctrl nor Command takes a press with neither; otherwise the shortcut's
/// Ctrl and Command must be held.
pub open spec fn logically_matches(pressed: Modifiers, pattern: Modifiers) -> bool {
    &&& pattern.alt ==> pressed.alt
    &&& pattern.shift ==> pressed.shift
    &&& if pattern.mac_cmd {
        pressed.mac_cmd && pattern.ctrl == pressed.ctrl
    } else if !pattern.ctrl && !pattern.command {
        !pressed.ctrl && !pressed.command
    } else {
        (pattern.ctrl ==> pressed.ctrl) && (pattern.command ==> pressed.command)
    }
}

/// egui's `Modifiers::matches_logically`, with the held modifiers as the
/// receiver: its source checks Alt and Shift, then Ctrl and Command as
/// [`logically_matches`] states.
#[verifier::external_body]
fn modifiers_match_logically(pressed: Modifiers, pattern: Modifiers) -> (matched: bool)
    ensures
        matched == logically_matches(pressed, pattern),
{
    let pressed = egui::Modifiers {
        alt: pressed.alt,
        ctrl: pressed.ctrl,
        shift: pressed.shift,
        mac_cmd: pressed.mac_cmd,
        command: pressed.command,
    };
    let pattern = egui::Modifiers {
        alt: pattern.alt,
        ctrl: pattern.ctrl,
        shift: pattern.shift,
        mac_cmd: pattern.mac_cmd,
        command: pattern.command,
    };
    pressed.matches_logically(pattern)
}

/// The modifiers of a shortcut that names only Alt, Ctrl and Shift.
pub open spec fn held(alt: bool, ctrl: bool, shift: bool) -> Modifiers {
    Modifiers { alt, ctrl, shift, mac_cmd: false, command: false }
}

fn held_keys(alt: bool, ctrl: bool, shift: bool) -> (modifiers: Modifiers)
    ensures
        modifiers == held(alt, ctrl, shift),
{
    Modifiers { alt, ctrl, shift, mac_cmd: false, command: false }
}

/// Whether a press is the shortcut `modifiers` with `key`.
pub open spec fn press_matches(press: PressedKeyEvent, modifiers: Modifiers, key: Key) -> bool {
    press.key == key && logically_matches(press.modifiers, modifiers)
}

/// Whether the frame holds a press of the shortcut.
pub open spec fn shortcut_pressed(presses: Seq<PressedKeyEvent>, modifiers: Modifiers, key: Key) -> bool {
    exists|i: int| 0 <= i < presses.len() && #[trigger] press_matches(presses[i], modifiers, key)
}

/// The frame's presses once every press of the shortcut is taken, in order.
pub open spec fn without_shortcut(presses: Seq<PressedKeyEvent>, modifiers: Modifiers, key: Key) -> Seq<PressedKeyEvent>
    decreases presses.len(),
{
    if presses.len() == 0 {
        Seq::empty()
    } else {
        let earlier = without_shortcut(presses.drop_last(), modifiers, key);
        if press_matches(presses.last(), modifiers, key) {
            earlier
        } else {
            earlier.push(presses.last())
        }
    }
}

proof fn lemma_pressed_push(seen: Seq<PressedKeyEvent>, press: PressedKeyEvent, modifiers: Modifiers, key: Key)
    ensures
        shortcut_pressed(seen.push(press), modifiers, key)
            == (shortcut_pressed(seen, modifiers, key) || press_matches(press, modifiers, key)),
{
    let next = seen.push(press);
    if shortcut_pressed(next, modifiers, key) && !press_matches(press, modifiers, key) {
        let j = choose|j: int| 0 <= j < next.len() && #[trigger] press_matches(next[j], modifiers, key);
        assert(press_matches(seen[j], modifiers, key));
    }
    if shortcut_pressed(seen, modifiers, key) {
        let j = choose|j: int| 0 <= j < seen.len() && #[trigger] press_matches(seen[j], modifiers, key);
        assert(press_matches(next[j], modifiers, key));
    }
    if press_matches(press, modifiers, key) {
        assert(press_matches(next[seen.len() as int], modifiers, key));
    }
}

/// Takes every press of the shortcut from the frame, as egui's
/// `InputState::consume_key` does with its events; whether there was one.
pub fn consume_key(presses: &mut Vec<PressedKeyEvent>, modifiers: Modifiers, key: Key) -> (consumed: bool)
    ensures
        consumed == shortcut_pressed(old(presses)@, modifiers, key),
        final(presses)@ == without_shortcut(old(presses)@, modifiers, key),
{
    let mut kept: Vec<PressedKeyEvent> = Vec::new();
    let mut consumed = false;
    let mut i: usize = 0;
    while i < presses.len()
        invariant
            i <= presses@.len(),
            kept@ == without_shortcut(presses@.take(i as int), modifiers, key),
            consumed == shortcut_pressed(presses@.take(i as int), modifiers, key),
        decreases presses@.len() - i,
    {
        let press = presses[i];
        let ghost seen = presses@.take(i as int);
        proof {
            assert(presses@.take(i + 1) =~= seen.push(press));
            lemma_pressed_push(seen, press, modifiers, key);
        }
        if press.key == key && modifiers_match_logically(press.modifiers, modifiers) {
            consumed = true;
        } else {
            kept.push(press);
        }
        proof {
            assert(seen.push(press).drop_last() =~= seen);
        }
        i = i + 1;
    }
    assert(presses@.take(presses@.len() as int) =~= presses@);
    *presses = kept;
    consumed
}

/// A shortcut is taken once: after its presses are taken none is left, and
/// taking it again leaves the presses as they are.
pub proof fn shortcut_taken_once(presses: Seq<PressedKeyEvent>, modifiers: Modifiers, key: Key)
    ensures
        !shortcut_pressed(without_shortcut(presses, modifiers, key), modifiers, key),
        without_shortcut(without_shortcut(presses, modifiers, key), modifiers, key)
            == without_shortcut(presses, modifiers, key),
    decreases presses.len(),
{
    if presses.len() > 0 {
        let earlier = without_shortcut(presses.drop_last(), modifiers, key);
        shortcut_taken_once(presses.drop_last(), modifiers, key);
        if !press_matches(presses.last(), modifiers, key) {
            let left = earlier.push(presses.last());
            lemma_pressed_push(earlier, presses.last(), modifiers, key);
            assert(left.drop_last() =~= earlier);
        }
    }
}

/// The text input's keys: Ctrl+Enter, else Alt+Enter, else (in the find
/// input only) Shift+Enter, else Enter, each taken from the frame when it is
/// checked; then Escape. Returns the presses left and the requests.
pub open spec fn text_input_keys(
    presses: Seq<PressedKeyEvent>,
    actions: SearchStripActions,
    input_kind: TextInputKind,
) -> (Seq<PressedKeyEvent>, SearchStripActions) {
    let after_ctrl = without_shortcut(presses, held(false, true, false), Key::Enter);
    let after_alt = without_shortcut(after_ctrl, held(true, false, false), Key::Enter);
    let after_shift = if input_kind == TextInputKind::Find {
        without_shortcut(after_alt, held(false, false, true), Key::Enter)
    } else {
        after_alt
    };
    let after_plain = without_shortcut(after_shift, held(false, false, false), Key::Enter);
    let (entered, enter_actions) = if shortcut_pressed(presses, held(false, true, false), Key::Enter) {
        (after_ctrl, text_input_shortcut_applied(actions, input_kind, TextInputShortcut::CtrlEnter))
    } else if shortcut_pressed(after_ctrl, held(true, false, false), Key::Enter) {
        (after_alt, text_input_shortcut_applied(actions, input_kind, TextInputShortcut::AltEnter))
    } else if input_kind == TextInputKind::Find && shortcut_pressed(after_alt, held(false, false, true), Key::Enter) {
        (after_shift, text_input_shortcut_applied(actions, input_kind, TextInputShortcut::ShiftEnter))
    } else if shortcut_pressed(after_shift, held(false, false, false), Key::Enter) {
        (after_plain, text_input_shortcut_applied(actions, input_kind, TextInputShortcut::PlainEnter))
    } else {
        (after_plain, actions)
    };
    let escaped = without_shortcut(entered, held(false, false, false), Key::Escape);
    if shortcut_pressed(entered, held(false, false, false), Key::Escape) {
        (escaped, text_input_shortcut_applied(enter_actions, input_kind, TextInputShortcut::Escape))
    } else {
        (escaped, enter_actions)
    }
}

/// Takes the text input's keys from the frame and records their requests.
pub fn consume_text_input_keys(
    presses: &mut Vec<PressedKeyEvent>,
    actions: &mut SearchStripActions,
    input_kind: TextInputKind,
)
    ensures
        (final(presses)@, *final(actions)) == text_input_keys(old(presses)@, *old(actions), input_kind),
{
    if consume_key(presses, held_keys(false, true, false), Key::Enter) {
        apply_text_input_shortcut(actions, input_kind, TextInputShortcut::CtrlEnter);
    } else if consume_key(presses, held_keys(true, false, false), Key::Enter) {
        apply_text_input_shortcut(actions, input_kind, TextInputShortcut::AltEnter);
    } else if input_kind == TextInputKind::Find && consume_key(presses, held_keys(false, false, true), Key::Enter) {
        apply_text_input_shortcut(actions, input_kind, TextInputShortcut::ShiftEnter);
    } else if consume_key(presses, held_keys(false, false, false), Key::Enter) {
        apply_text_input_shortcut(actions, input_kind, TextInputShortcut::PlainEnter);
    }
    if consume_key(presses, held_keys(false, false, false), Key::Escape) {
        apply_text_input_shortcut(actions, input_kind, TextInputShortcut::Escape);
    }
}

/// Alt with 1 to 4 picks the search scope: selection, document, workspace
/// tab, all open tabs.
pub open spec fn scope_shortcuts() -> Seq<(Key, SearchScope)> {
    seq![
        (Key::Num1, SearchScope::SelectionOnly),
        (Key::Num2, SearchScope::ActiveBuffer),
        (Key::Num3, SearchScope::ActiveWorkspaceTab),
        (Key::Num4, SearchScope::AllOpenTabs),
    ]
}

/// The scope shortcuts in `table` checked in order, each taken from the
/// frame when it is checked, up to the first that was pressed, whose scope
/// replaces `scope`.
pub open spec fn scope_keys(
    presses: Seq<PressedKeyEvent>,
    scope: SearchScope,
    table: Seq<(Key, SearchScope)>,
) -> (Seq<PressedKeyEvent>, SearchScope)
    decreases table.len(),
{
    if table.len() == 0 {
        (presses, scope)
    } else {
        let rest = without_shortcut(presses, held(true, false, false), table[0].0);
        if shortcut_pressed(presses, held(true, false, false), table[0].0) {
            (rest, table[0].1)
        } else {
            scope_keys(rest, scope, table.drop_first())
        }
    }
}

/// Takes the scope shortcuts from the frame and sets the scope.
pub fn consume_search_scope_shortcuts(presses: &mut Vec<PressedKeyEvent>, state: &mut SearchStripState)
    ensures
        final(presses)@ == scope_keys(old(presses)@, old(state).scope, scope_shortcuts()).0,
        *final(state) == (SearchStripState {
            scope: scope_keys(old(presses)@, old(state).scope, scope_shortcuts()).1,
            ..*old(state)
        }),
{
    let ghost table = scope_shortcuts();
    assert(table.drop_first() == seq![
        (Key::Num2, SearchScope::ActiveBuffer),
        (Key::Num3, SearchScope::ActiveWorkspaceTab),
        (Key::Num4, SearchScope::AllOpenTabs),
    ]);
    assert(table.drop_first().drop_first() == seq![
        (Key::Num3, SearchScope::ActiveWorkspaceTab),
        (Key::Num4, SearchScope::AllOpenTabs),
    ]);
    assert(table.drop_first().drop_first().drop_first() == seq![(Key::Num4, SearchScope::AllOpenTabs)]);
    assert(table.drop_first().drop_first().drop_first().drop_first() == Seq::<(Key, SearchScope)>::empty());
    proof {
        reveal_with_fuel(scope_keys, 5);
    }
    let alt = held_keys(true, false, false);
    if consume_key(presses, alt, Key::Num1) {
        state.scope = SearchScope::SelectionOnly;
        return;
    }
    if consume_key(presses, alt, Key::Num2) {
        state.scope = SearchScope::ActiveBuffer;
        return;
    }
    if consume_key(presses, alt, Key::Num3) {
        state.scope = SearchScope::ActiveWorkspaceTab;
        return;
    }
    if consume_key(presses, alt, Key::Num4) {
        state.scope = SearchScope::AllOpenTabs;
        return;
    }
}

/// The option shortcuts, each taken from the frame: Alt+R switches plain
/// text and regex matching, Alt+C toggles matching case, Alt+W toggles whole
/// words. Returns the presses left and the mode, case and whole-word flags.
pub open spec fn option_keys(
    presses: Seq<PressedKeyEvent>,
    mode: SearchMode,
    match_case: bool,
    whole_word: bool,
) -> (Seq<PressedKeyEvent>, SearchMode, bool, bool) {
    let alt = held(true, false, false);
    let after_r = without_shortcut(presses, alt, Key::R);
    let after_c = without_shortcut(after_r, alt, Key::C);
    let after_w = without_shortcut(after_c, alt, Key::W);
    (
        after_w,
        if shortcut_pressed(presses, alt, Key::R) {
            match mode {
                SearchMode::PlainText => SearchMode::Regex,
                SearchMode::Regex => SearchMode::PlainText,
            }
        } else {
            mode
        },
        if shortcut_pressed(after_r, alt, Key::C) { !match_case } else { match_case },
        if shortcut_pressed(after_c, alt, Key::W) { !whole_word } else { whole_word },
    )
}

/// Takes the option shortcuts from the frame and applies them.
pub fn consume_search_option_shortcuts(presses: &mut Vec<PressedKeyEvent>, state: &mut SearchStripState)
    ensures
        ({
            let (left, mode, match_case, whole_word) = option_keys(old(presses)@, old(state).mode,
                old(state).match_case, old(state).whole_word);
            &&& final(presses)@ == left
            &&& *final(state) == (SearchStripState { mode, match_case, whole_word, ..*old(state) })
        }),
{
    let alt = held_keys(true, false, false);
    if consume_key(presses, alt, Key::R) {
        state.mode = toggled_search_mode(state.mode);
    }
    if consume_key(presses, alt, Key::C) {
        state.match_case = !state.match_case;
    }
    if consume_key(presses, alt, Key::W) {
        state.whole_word = !state.whole_word;
    }
}

/// The dialog-wide shortcuts in the order they are checked: F3 (next),
/// Shift+F3 (previous), Ctrl+Enter (replace current), Alt+Enter (replace
/// all), Ctrl+Z (undo), Ctrl+Y (redo).
pub open spec fn action_shortcuts() -> Seq<(Modifiers, Key, SearchActionShortcut)> {
    seq![
        (held(false, false, false), Key::F3, SearchActionShortcut::Next),
        (held(false, false, true), Key::F3, SearchActionShortcut::Previous),
        (held(false, true, false), Key::Enter, SearchActionShortcut::ReplaceCurrent),
        (held(true, false, false), Key::Enter, SearchActionShortcut::ReplaceAll),
        (held(false, true, false), Key::Z, SearchActionShortcut::Undo),
        (held(false, true, false), Key::Y, SearchActionShortcut::Redo),
    ]
}

/// Each shortcut of `table` in order, taken from the frame, applied to the
/// requests when it was pressed.
pub open spec fn action_keys(
    presses: Seq<PressedKeyEvent>,
    actions: SearchStripActions,
    availability: SearchActionAvailability,
    table: Seq<(Modifiers, Key, SearchActionShortcut)>,
) -> (Seq<PressedKeyEvent>, SearchStripActions)
    decreases table.len(),
{
    if table.len() == 0 {
        (presses, actions)
    } else {
        let (modifiers, key, shortcut) = table[0];
        let rest = without_shortcut(presses, modifiers, key);
        let next = if shortcut_pressed(presses, modifiers, key) {
            search_action_shortcut_applied(actions, availability, shortcut)
        } else {
            actions
        };
        action_keys(rest, next, availability, table.drop_first())
    }
}

/// One dialog-wide shortcut: taken from the frame, applied when pressed.
fn consume_action_shortcut(
    presses: &mut Vec<PressedKeyEvent>,
    actions: &mut SearchStripActions,
    availability: SearchActionAvailability,
    modifiers: Modifiers,
    key: Key,
    shortcut: SearchActionShortcut,
)
    ensures
        final(presses)@ == without_shortcut(old(presses)@, modifiers, key),
        *final(actions) == if shortcut_pressed(old(presses)@, modifiers, key) {
            search_action_shortcut_applied(*old(actions), availability, shortcut)
        } else {
            *old(actions)
        },
{
    if consume_key(presses, modifiers, key) {
        apply_search_action_shortcut(actions, availability, shortcut);
    }
}

/// Takes the dialog-wide shortcuts from the frame and records what they
/// request, as far as the dialog's state allows.
pub fn consume_search_action_shortcuts(
    presses: &mut Vec<PressedKeyEvent>,
    state: &SearchStripState,
    actions: &mut SearchStripActions,
    text_input_focused: bool,
)
    ensures
        ({
            let availability = SearchActionAvailability {
                match_count: state.match_count,
                replace_allowed: state.replace_availability is Allowed,
                can_undo_text_operation: state.can_undo_text_operation,
                can_redo_text_operation: state.can_redo_text_operation,
                text_input_focused,
            };
            (final(presses)@, *final(actions)) == action_keys(old(presses)@, *old(actions), availability,
                action_shortcuts())
        }),
{
    let availability = search_action_availability(state, text_input_focused);
    proof {
        reveal_with_fuel(action_keys, 7);
    }
    consume_action_shortcut(presses, actions, availability, held_keys(false, false, false), Key::F3,
        SearchActionShortcut::Next);
    consume_action_shortcut(presses, actions, availability, held_keys(false, false, true), Key::F3,
        SearchActionShortcut::Previous);
    consume_action_shortcut(presses, actions, availability, held_keys(false, true, false), Key::Enter,
        SearchActionShortcut::ReplaceCurrent);
    consume_action_shortcut(presses, actions, availability, held_keys(true, false, false), Key::Enter,
        SearchActionShortcut::ReplaceAll);
    consume_action_shortcut(presses, actions, availability, held_keys(false, true, false), Key::Z,
        SearchActionShortcut::Undo);
    consume_action_shortcut(presses, actions, availability, held_keys(false, true, false), Key::Y,
        SearchActionShortcut::Redo);
}

/// The dialog's shortcuts for one frame: scope, then options, then the
/// dialog-wide actions, each taking its presses from the frame.
pub fn consume_search_strip_shortcuts(
    presses: &mut Vec<PressedKeyEvent>,
    state: &mut SearchStripState,
    actions: &mut SearchStripActions,
    text_input_focused: bool,
)
    ensures
        ({
            let (after_scope, scope) = scope_keys(old(presses)@, old(state).scope, scope_shortcuts());
            let (after_options, mode, match_case, whole_word) = option_keys(after_scope, old(state).mode,
                old(state).match_case, old(state).whole_word);
            let availability = SearchActionAvailability {
                match_count: old(state).match_count,
                replace_allowed: old(state).replace_availability is Allowed,
                can_undo_text_operation: old(state).can_undo_text_operation,
                can_redo_text_operation: old(state).can_redo_text_operation,
                text_input_focused,
            };
            &&& *final(state) == (SearchStripState { scope, mode, match_case, whole_word, ..*old(state) })
            &&& (final(presses)@, *final(actions)) == action_keys(after_options, *old(actions), availability,
                action_shortcuts())
        }),
{
    consume_search_scope_shortcuts(presses, state);
    consume_search_option_shortcuts(presses, state);
    consume_search_action_shortcuts(presses, state, actions, text_input_focused);
}

} // verus!

//! Keyboard and clipboard input of the editor: which events it reacts to
//! and what each one does to the buffer, the view and the clipboard.
use vstd::prelude::*;
use crate::buffer::{BufferState, PieceSource, line_ending_chars, redone, undone};
use crate::cursor::{CursorMovementRequest, Key, Modifiers, apply_cursor_movement, galley_rows, movement_outcome};
use crate::display_text::DisplayTextMap;
use crate::editing::{apply_backspace, apply_cut, apply_delete, apply_outdent, backspaced, edit_recorded, forward_deleted, outdented, text_inserted};
use crate::editor::{apply_cursor_update, apply_history, insert_text, insert_text_with_source, is_insertable_text, select_all_cursor, selected_text};
use crate::text::chars_of;
use crate::types::{CharCursor, CursorRange, sorted_ends};
use crate::view::{EditorViewState, ImePreeditState};

verus! {

/// A key press with the modifiers held.
#[derive(Clone, Copy, Debug, PartialEq, Eq, Structural)]
pub struct PressedKeyEvent {
    pub key: Key,
    pub modifiers: Modifiers,
}

/// An input event as the windowing layer reports it, reduced to what the
/// editor reads.
#[derive(Clone, Debug, PartialEq, Eq)]
pub enum InputEvent {
    Text(String),
    ImePreedit { text: String, active_range_chars: Option<std::ops::Range<usize>> },
    ImeCommit(String),
    Key { key: Key, pressed: bool, modifiers: Modifiers },
    Copy,
    Cut,
    Paste(String),
    Other,
}

/// An input event the editor acts on.
#[derive(Clone, Debug, PartialEq, Eq)]
pub enum RelevantInputEvent {
    Text(String),
    ImePreedit { text: String, active_range_chars: Option<std::ops::Range<usize>> },
    Key(PressedKeyEvent),
    Copy,
    Cut,
    Paste(String),
}

/// What the editor asks of the clipboard.
#[derive(Clone, Debug, PartialEq, Eq)]
pub enum ClipboardRequest {
    /// Put this text on the clipboard.
    Copy(String),
    /// Deliver the clipboard's text as a paste event.
    RequestPaste,
}

/// Result of one input event: whether the text changed, and what the
/// clipboard should do.
pub struct KeyOutcome {
    pub changed: bool,
    pub clipboard: Option<ClipboardRequest>,
}

/// Text that is inserted as typed: not empty and not a bare line break.
pub open spec fn insertable(s: Seq<char>) -> bool {
    s.len() > 0 && s != seq!['\n'] && s != seq!['\r']
}

/// The selection an event acts on: the view's, or the default caret at 0.
pub open spec fn view_cursor(view: EditorViewState) -> CursorRange {
    match view.cursor_range {
        Some(c) => c,
        None => CursorRange::default_spec(),
    }
}

/// The event the editor acts on for an input event: insertable typed or
/// committed text, the IME composition, pressed keys (not with Alt when Alt
/// is reserved for shortcuts), copy, cut and non-empty pastes.
pub open spec fn relevant_event(event: InputEvent, reserve_alt_for_shortcuts: bool) -> Option<RelevantInputEvent> {
    match event {
        InputEvent::Text(t) => if insertable(t@) { Some(RelevantInputEvent::Text(t)) } else { None },
        InputEvent::ImeCommit(t) => if insertable(t@) { Some(RelevantInputEvent::Text(t)) } else { None },
        InputEvent::ImePreedit { text, active_range_chars } =>
            Some(RelevantInputEvent::ImePreedit { text, active_range_chars }),
        InputEvent::Key { key, pressed, modifiers } =>
            if pressed && (!reserve_alt_for_shortcuts || !modifiers.alt) {
                Some(RelevantInputEvent::Key(PressedKeyEvent { key, modifiers }))
            } else {
                None
            },
        InputEvent::Copy => Some(RelevantInputEvent::Copy),
        InputEvent::Cut => Some(RelevantInputEvent::Cut),
        InputEvent::Paste(t) => if t@.len() > 0 { Some(RelevantInputEvent::Paste(t)) } else { None },
        InputEvent::Other => None,
    }
}

/// The relevant events among `events`, in order.
pub open spec fn relevant_events(events: Seq<InputEvent>, reserve_alt_for_shortcuts: bool) -> Seq<RelevantInputEvent>
    decreases events.len(),
{
    if events.len() == 0 {
        Seq::empty()
    } else {
        let head = match relevant_event(events[0], reserve_alt_for_shortcuts) {
            Some(r) => seq![r],
            None => Seq::empty(),
        };
        head + relevant_events(events.drop_first(), reserve_alt_for_shortcuts)
    }
}

/// The event the editor acts on for an input event, if any.
pub fn relevant_input_event(event: InputEvent, reserve_alt_for_shortcuts: bool) -> (relevant: Option<RelevantInputEvent>)
    ensures
        relevant == relevant_event(event, reserve_alt_for_shortcuts),
{
    match event {
        InputEvent::Text(text) => if is_insertable_text(text.as_str()) { Some(RelevantInputEvent::Text(text)) } else { None },
        InputEvent::ImeCommit(text) => if is_insertable_text(text.as_str()) { Some(RelevantInputEvent::Text(text)) } else { None },
        InputEvent::ImePreedit { text, active_range_chars } =>
            Some(RelevantInputEvent::ImePreedit { text, active_range_chars }),
        InputEvent::Key { key, pressed, modifiers } => if pressed && (!reserve_alt_for_shortcuts || !modifiers.alt) {
            Some(RelevantInputEvent::Key(PressedKeyEvent { key, modifiers }))
        } else {
            None
        },
        InputEvent::Copy => Some(RelevantInputEvent::Copy),
        InputEvent::Cut => Some(RelevantInputEvent::Cut),
        InputEvent::Paste(text) => if !text.as_str().is_empty() { Some(RelevantInputEvent::Paste(text)) } else { None },
        InputEvent::Other => None,
    }
}

/// The relevant events among `events`, in order.
pub fn relevant_input_events(events: Vec<InputEvent>, reserve_alt_for_shortcuts: bool) -> (relevant: Vec<RelevantInputEvent>)
    ensures
        relevant@ == relevant_events(events@, reserve_alt_for_shortcuts),
{
    let mut relevant: Vec<RelevantInputEvent> = Vec::new();
    let mut events = events;
    let ghost all = events@;
    while events.len() > 0
        invariant
            relevant@ + relevant_events(events@, reserve_alt_for_shortcuts) == relevant_events(all, reserve_alt_for_shortcuts),
        decreases events@.len(),
    {
        let ghost before = events@;
        let event = events.remove(0);
        assert(events@ =~= before.drop_first());
        let ghost rest = relevant_events(events@, reserve_alt_for_shortcuts);
        match relevant_input_event(event, reserve_alt_for_shortcuts) {
            Some(r) => {
                relevant.push(r);
                assert(relevant_events(before, reserve_alt_for_shortcuts) == seq![r] + rest);
                assert(relevant@ + rest =~= relevant@.drop_last() + (seq![r] + rest));
            },
            None => {
                assert(relevant_events(before, reserve_alt_for_shortcuts) =~= rest);
            },
        }
    }
    assert(relevant_events(events@, reserve_alt_for_shortcuts) =~= Seq::<RelevantInputEvent>::empty());
    assert(relevant@ =~= relevant@ + Seq::<RelevantInputEvent>::empty());
    relevant
}

/// Undo is Command without Shift.
pub fn is_undo_shortcut(modifiers: Modifiers) -> (undo: bool)
    ensures
        undo == (modifiers.command && !modifiers.shift),
{
    modifiers.command && !modifiers.shift
}

/// Redo is Command without Shift (on the Y key).
pub fn is_redo_shortcut(modifiers: Modifiers) -> (redo: bool)
    ensures
        redo == (modifiers.command && !modifiers.shift),
{
    modifiers.command && !modifiers.shift
}

/// The view after a history step handed back `selection`.
pub open spec fn history_view(old: EditorViewState, new: EditorViewState, changed: bool) -> bool {
    if changed {
        new.cursor_range is Some && new == (EditorViewState { cursor_range: new.cursor_range, ..old })
    } else {
        new == old
    }
}

/// Command+Z undoes and Command+Y redoes; the selection they give back
/// becomes the view's. Other keys are not handled here.
pub fn handle_history_key(key_event: PressedKeyEvent, buffer: &mut BufferState, view: &mut EditorViewState) -> (handled: Option<bool>)
    ensures
        if key_event.key == Key::Z && key_event.modifiers.command && !key_event.modifiers.shift {
            &&& handled is Some
            &&& undone(*old(buffer), *final(buffer), if handled->0 { final(view).cursor_range } else { None })
            &&& history_view(*old(view), *final(view), handled->0)
        } else if key_event.key == Key::Y && key_event.modifiers.command && !key_event.modifiers.shift {
            &&& handled is Some
            &&& redone(*old(buffer), *final(buffer), if handled->0 { final(view).cursor_range } else { None })
            &&& history_view(*old(view), *final(view), handled->0)
        } else {
            handled is None && *final(buffer) == *old(buffer) && *final(view) == *old(view)
        },
{
    if key_event.key == Key::Z && is_undo_shortcut(key_event.modifiers) {
        let selection = buffer.undo_last_text_operation();
        return Some(apply_history(view, selection));
    }
    if key_event.key == Key::Y && is_redo_shortcut(key_event.modifiers) {
        let selection = buffer.redo_last_text_operation();
        return Some(apply_history(view, selection));
    }
    None
}

/// Backspace and Delete delete backwards and forwards; the new caret
/// becomes the view's. Other keys are not handled here.
pub fn handle_delete_key(
    key_event: PressedKeyEvent,
    buffer: &mut BufferState,
    view: &mut EditorViewState,
    cursor: &CursorRange,
) -> (handled: Option<bool>)
    requires
        sorted_ends(*cursor).1 <= old(buffer)@.len(),
    ensures
        if key_event.key == Key::Backspace || key_event.key == Key::Delete {
            &&& handled == Some(true)
            &&& final(view).cursor_range is Some
            &&& *final(view) == (EditorViewState { cursor_range: final(view).cursor_range, ..*old(view) })
            &&& key_event.key == Key::Backspace ==> backspaced(*old(buffer), *final(buffer), *cursor,
                key_event.modifiers, final(view).cursor_range->0)
            &&& key_event.key == Key::Delete ==> forward_deleted(*old(buffer), *final(buffer), *cursor,
                key_event.modifiers, final(view).cursor_range->0)
        } else {
            handled is None && *final(buffer) == *old(buffer) && *final(view) == *old(view)
        },
{
    let new_cursor = match key_event.key {
        Key::Backspace => apply_backspace(buffer, cursor, &key_event.modifiers),
        Key::Delete => apply_delete(buffer, cursor, &key_event.modifiers),
        _ => {
            return None;
        },
    };
    view.set_cursor_range_anchored(new_cursor);
    Some(true)
}

/// Shift+Tab when Tab indents text: the caret's line is outdented (see
/// [`outdented`]) and the selection moves to the caret it gives, if any; the
/// change is not reported.
pub open spec fn outdent_handled(ob: BufferState, nb: BufferState, ov: EditorViewState, nv: EditorViewState, cursor: CursorRange) -> bool {
    exists|next: Option<CursorRange>| #[trigger] outdented(ob, nb, cursor, next) && match next {
        Some(c) => nv == (EditorViewState { cursor_range: Some(c), ..ov }),
        None => nv == ov,
    }
}

/// Enter inserts the buffer's preferred line ending; Shift+Tab outdents the
/// caret's line when Tab indents text. Other keys are not handled here.
pub fn handle_text_key(
    key_event: PressedKeyEvent,
    buffer: &mut BufferState,
    view: &mut EditorViewState,
    cursor: &CursorRange,
    tab_indents_text: bool,
) -> (handled: Option<bool>)
    requires
        key_event.key == Key::Enter ==> sorted_ends(*cursor).1 <= old(buffer)@.len()
            && old(buffer)@.len() + 4 < usize::MAX,
    ensures
        if key_event.key == Key::Tab && key_event.modifiers.shift && tab_indents_text {
            handled == Some(false) && outdent_handled(*old(buffer), *final(buffer), *old(view), *final(view), *cursor)
        } else if key_event.key == Key::Enter {
            &&& handled == Some(true)
            &&& final(view).cursor_range is Some
            &&& text_inserted(*old(buffer), *final(buffer), *cursor,
                line_ending_chars(old(buffer).document.preferred_line_ending()), PieceSource::Edit,
                final(view).cursor_range->0)
            &&& *final(view) == (EditorViewState { ime_preedit: None, cursor_range: final(view).cursor_range, ..*old(view) })
        } else {
            handled is None && *final(buffer) == *old(buffer) && *final(view) == *old(view)
        },
{
    match key_event.key {
        Key::Enter => {
            let line_ending = buffer.document().preferred_line_ending_str();
            Some(insert_text(buffer, view, cursor, line_ending))
        },
        Key::Tab => if key_event.modifiers.shift && tab_indents_text {
            let next = apply_outdent(buffer, cursor);
            Some(apply_cursor_update(view, next))
        } else {
            None
        },
        _ => None,
    }
}

/// The selected text as a clipboard copy; nothing for a collapsed selection.
pub fn copy_selection(buffer: &BufferState, cursor: &CursorRange) -> (request: Option<ClipboardRequest>)
    requires
        sorted_ends(*cursor).1 <= buffer@.len(),
    ensures
        if cursor.primary.index == cursor.secondary.index {
            request is None
        } else {
            request matches Some(ClipboardRequest::Copy(t))
                && t@ == buffer@.subrange(sorted_ends(*cursor).0 as int, sorted_ends(*cursor).1 as int)
        },
{
    match selected_text(buffer, *cursor) {
        Some(text) => Some(ClipboardRequest::Copy(text)),
        None => None,
    }
}

/// Ctrl+Insert copies the selection and Shift+Insert asks for a paste. Other
/// keys and modifier combinations are not handled here.
pub fn handle_insert_key(key_event: PressedKeyEvent, buffer: &BufferState, cursor: &CursorRange) -> (handled: Option<KeyOutcome>)
    requires
        key_reads_selection(key_event) ==> sorted_ends(*cursor).1 <= buffer@.len(),
    ensures
        if key_event.key == Key::Insert && key_event.modifiers.ctrl && !key_event.modifiers.shift {
            handled matches Some(o) && !o.changed && if cursor.primary.index == cursor.secondary.index {
                o.clipboard is None
            } else {
                o.clipboard matches Some(ClipboardRequest::Copy(t))
                    && t@ == buffer@.subrange(sorted_ends(*cursor).0 as int, sorted_ends(*cursor).1 as int)
            }
        } else if key_event.key == Key::Insert && key_event.modifiers.shift && !key_event.modifiers.ctrl {
            handled matches Some(o) && !o.changed && o.clipboard == Some(ClipboardRequest::RequestPaste)
        } else {
            handled is None
        },
{
    if key_event.key != Key::Insert {
        return None;
    }
    if key_event.modifiers.ctrl && !key_event.modifiers.shift {
        return Some(KeyOutcome { changed: false, clipboard: copy_selection(buffer, cursor) });
    }
    if key_event.modifiers.shift && !key_event.modifiers.ctrl {
        return Some(KeyOutcome { changed: false, clipboard: Some(ClipboardRequest::RequestPaste) });
    }
    None
}

/// Whether a key is handled by [`handle_non_movement_key_event`].
pub open spec fn non_movement_key(key_event: PressedKeyEvent, tab_indents_text: bool) -> bool {
    let key = key_event.key;
    let m = key_event.modifiers;
    ||| key == Key::Enter
    ||| key == Key::Tab && m.shift && tab_indents_text
    ||| (key == Key::Z || key == Key::Y) && m.command && !m.shift
    ||| key == Key::Insert && (m.ctrl != m.shift)
    ||| key == Key::Backspace || key == Key::Delete
    ||| key == Key::A && m.command
}

/// Whether a key acts on the text of the selection: Enter, Backspace and
/// Delete edit it, Ctrl+Insert copies it.
pub open spec fn key_reads_selection(key_event: PressedKeyEvent) -> bool {
    let key = key_event.key;
    let m = key_event.modifiers;
    ||| key == Key::Enter
    ||| key == Key::Backspace || key == Key::Delete
    ||| key == Key::Insert && m.ctrl && !m.shift
}

/// Effect of a key that edits, uses the history or the clipboard, or selects
/// everything, on buffer `ob` and view `ov`, giving `nb`, `nv` and `o`.
pub open spec fn non_movement_key_handled(
    key_event: PressedKeyEvent,
    ob: BufferState,
    nb: BufferState,
    ov: EditorViewState,
    nv: EditorViewState,
    cursor: CursorRange,
    total_chars: usize,
    o: KeyOutcome,
) -> bool {
    let key = key_event.key;
    let m = key_event.modifiers;
    if key == Key::Tab {
        !o.changed && o.clipboard is None && outdent_handled(ob, nb, ov, nv, cursor)
    } else if key == Key::Enter {
        &&& o.changed && o.clipboard is None
        &&& nv.cursor_range is Some
        &&& text_inserted(ob, nb, cursor, line_ending_chars(ob.document.preferred_line_ending()),
            PieceSource::Edit, nv.cursor_range->0)
        &&& nv == (EditorViewState { ime_preedit: None, cursor_range: nv.cursor_range, ..ov })
    } else if key == Key::Z && m.command && !m.shift {
        o.clipboard is None && undone(ob, nb, if o.changed { nv.cursor_range } else { None })
            && history_view(ov, nv, o.changed)
    } else if key == Key::Y && m.command && !m.shift {
        o.clipboard is None && redone(ob, nb, if o.changed { nv.cursor_range } else { None })
            && history_view(ov, nv, o.changed)
    } else if key == Key::Insert && m.ctrl && !m.shift {
        &&& !o.changed && nb == ob && nv == ov
        &&& if cursor.primary.index == cursor.secondary.index {
            o.clipboard is None
        } else {
            o.clipboard matches Some(ClipboardRequest::Copy(t))
                && t@ == ob@.subrange(sorted_ends(cursor).0 as int, sorted_ends(cursor).1 as int)
        }
    } else if key == Key::Insert && m.shift && !m.ctrl {
        !o.changed && nb == ob && nv == ov && o.clipboard == Some(ClipboardRequest::RequestPaste)
    } else if key == Key::Backspace || key == Key::Delete {
        &&& o.changed && o.clipboard is None
        &&& nv.cursor_range is Some
        &&& nv == (EditorViewState { cursor_range: nv.cursor_range, ..ov })
        &&& key == Key::Backspace ==> backspaced(ob, nb, cursor, m, nv.cursor_range->0)
        &&& key == Key::Delete ==> forward_deleted(ob, nb, cursor, m, nv.cursor_range->0)
    } else {
        &&& !o.changed && o.clipboard is None && nb == ob
        &&& nv == (EditorViewState { cursor_range: Some(select_all_spec(total_chars)), ..ov })
    }
}

/// Everything selected: from 0 to `total_chars`.
pub open spec fn select_all_spec(total_chars: usize) -> CursorRange {
    CursorRange {
        primary: CharCursor { index: total_chars, prefer_next_row: false },
        secondary: CharCursor { index: 0, prefer_next_row: false },
    }
}

/// Keys that edit (Enter, Backspace, Delete, and Shift+Tab when Tab indents
/// text), use the history (Command+Z, Command+Y), use the clipboard
/// (Ctrl+Insert, Shift+Insert) or select everything (Command+A). Other keys
/// are left to caret movement.
pub fn handle_non_movement_key_event(
    key_event: PressedKeyEvent,
    buffer: &mut BufferState,
    view: &mut EditorViewState,
    cursor: &CursorRange,
    total_chars: usize,
    tab_indents_text: bool,
) -> (handled: Option<KeyOutcome>)
    requires
        key_reads_selection(key_event) ==> sorted_ends(*cursor).1 <= old(buffer)@.len()
            && old(buffer)@.len() + 4 < usize::MAX,
    ensures
        handled is Some <==> non_movement_key(key_event, tab_indents_text),
        match handled {
            Some(o) => non_movement_key_handled(key_event, *old(buffer), *final(buffer), *old(view),
                *final(view), *cursor, total_chars, o),
            None => *final(buffer) == *old(buffer) && *final(view) == *old(view),
        },
{
    if let Some(changed) = handle_text_key(key_event, buffer, view, cursor, tab_indents_text) {
        return Some(KeyOutcome { changed, clipboard: None });
    }
    if let Some(changed) = handle_history_key(key_event, buffer, view) {
        return Some(KeyOutcome { changed, clipboard: None });
    }
    if let Some(outcome) = handle_insert_key(key_event, buffer, cursor) {
        return Some(outcome);
    }
    if key_event.key == Key::Backspace || key_event.key == Key::Delete {
        if let Some(changed) = handle_delete_key(key_event, buffer, view, cursor) {
            return Some(KeyOutcome { changed, clipboard: None });
        }
    }
    if key_event.key == Key::A && key_event.modifiers.command {
        view.set_cursor_range_anchored(select_all_cursor(total_chars));
        return Some(KeyOutcome { changed: false, clipboard: None });
    }
    None
}

/// What the editor needs, besides the buffer and the view, to act on
/// keyboard input: the laid-out slice for caret movement and the input policy.
pub struct KeyboardInputRequest<'a> {
    pub galley: &'a egui::Galley,
    pub page_jump_rows: usize,
    pub total_chars: usize,
    pub char_offset_base: usize,
    pub slice_chars: usize,
    pub display_map: Option<&'a DisplayTextMap>,
    pub reserve_alt_for_shortcuts: bool,
    pub tab_indents_text: bool,
}

/// The view after a movement key gave `moved`: the caret moves when there
/// is a target and nothing else changes.
pub open spec fn moved_view(old: EditorViewState, new: EditorViewState, moved: Option<CursorRange>) -> bool {
    match moved {
        Some(m) => new == (EditorViewState { cursor_range: Some(m), ..old }),
        None => new == old,
    }
}

/// A key press: edits, history and clipboard keys first, then caret movement.
pub fn handle_key_event(
    key_event: PressedKeyEvent,
    buffer: &mut BufferState,
    view: &mut EditorViewState,
    cursor: &CursorRange,
    total_chars: usize,
    request: &KeyboardInputRequest,
) -> (outcome: KeyOutcome)
    requires
        key_reads_selection(key_event) ==> sorted_ends(*cursor).1 <= old(buffer)@.len()
            && old(buffer)@.len() + 4 < usize::MAX,
        request.page_jump_rows <= isize::MAX,
    ensures
        if non_movement_key(key_event, request.tab_indents_text) {
            non_movement_key_handled(key_event, *old(buffer), *final(buffer), *old(view), *final(view),
                *cursor, total_chars, outcome)
        } else {
            &&& !outcome.changed && outcome.clipboard is None && *final(buffer) == *old(buffer)
            &&& exists|moved: Option<CursorRange>| movement_outcome(*cursor, key_event.key, key_event.modifiers,
                old(buffer)@, galley_rows(*request.galley), request.page_jump_rows as int, request.total_chars as int, request.char_offset_base,
                request.slice_chars, request.display_map, moved)
                && #[trigger] moved_view(*old(view), *final(view), moved)
        },
{
    if let Some(outcome) = handle_non_movement_key_event(key_event, buffer, view, cursor, total_chars,
        request.tab_indents_text) {
        return outcome;
    }
    let moved = apply_cursor_movement(CursorMovementRequest {
        cursor,
        key: key_event.key,
        modifiers: &key_event.modifiers,
        galley: request.galley,
        page_jump_rows: request.page_jump_rows,
        total_chars: request.total_chars,
        piece_tree: buffer.document().piece_tree(),
        char_offset_base: request.char_offset_base,
        slice_chars: request.slice_chars,
        display_map: request.display_map,
    });
    let changed = apply_cursor_update(view, moved);
    assert(moved_view(*old(view), *view, moved));
    KeyOutcome { changed, clipboard: None }
}

/// Whether the event's edit fits: the selection lies in the text and the
/// text stays short enough to grow by its insertions.
pub open spec fn event_fits(buffer: BufferState, cursor: CursorRange) -> bool {
    sorted_ends(cursor).1 <= buffer@.len() && buffer@.len() + 4 < usize::MAX
}

/// Whether an event acts on the text of the selection: typed text, pastes,
/// copy, cut and the keys of [`key_reads_selection`]. The IME composition,
/// caret movement, the history, paste requests and select-all do not.
pub open spec fn event_reads_selection(event: RelevantInputEvent) -> bool {
    match event {
        RelevantInputEvent::ImePreedit { .. } => false,
        RelevantInputEvent::Key(k) => key_reads_selection(k),
        _ => true,
    }
}

/// Whether the event acts on the text of the selection.
pub fn reads_selection(event: &RelevantInputEvent) -> (reads: bool)
    ensures
        reads == event_reads_selection(*event),
{
    match event {
        RelevantInputEvent::ImePreedit { .. } => false,
        RelevantInputEvent::Key(k) => match k.key {
            Key::Enter | Key::Backspace | Key::Delete => true,
            Key::Insert => k.modifiers.ctrl && !k.modifiers.shift,
            _ => false,
        },
        _ => true,
    }
}

/// Whether a text of `length` characters can take `count` more, each of
/// which may become two when line breaks are normalized.
pub fn fits_insertion(length: usize, count: usize) -> (fits: bool)
    ensures
        fits == (length + 2 * count < usize::MAX),
{
    if length >= usize::MAX {
        return false;
    }
    let room = usize::MAX - length;
    let limit = (room - 1) / 2;
    assert(count <= limit <==> 2 * count < room) by (nonlinear_arith)
        requires
            room >= 1,
            limit == (room - 1) / 2,
    ;
    count <= limit
}

/// What one input event does on the view's selection: typed text and
/// pastes replace the selection (a paste recorded as such) when the text can
/// take them; the IME composition is kept on the view; keys are edits,
/// history and clipboard keys or caret movement; copy puts the selection on
/// the clipboard; cut deletes a non-empty selection and puts it there.
pub open spec fn input_event_handled(
    event: RelevantInputEvent,
    b0: BufferState,
    b1: BufferState,
    v0: EditorViewState,
    v1: EditorViewState,
    total_chars: usize,
    request: &KeyboardInputRequest,
    outcome: KeyOutcome,
) -> bool {
    let cursor = view_cursor(v0);
    match event {
        RelevantInputEvent::Text(t) => if b0@.len() + 2 * t@.len() < usize::MAX {
            &&& outcome.changed && outcome.clipboard is None
            &&& v1.cursor_range is Some
            &&& text_inserted(b0, b1, cursor, t@, PieceSource::Edit, v1.cursor_range->0)
            &&& v1 == (EditorViewState { ime_preedit: None, cursor_range: v1.cursor_range, ..v0 })
        } else {
            !outcome.changed && outcome.clipboard is None && b1 == b0 && v1 == v0
        },
        RelevantInputEvent::Paste(t) => if b0@.len() + 2 * t@.len() < usize::MAX {
            &&& outcome.changed && outcome.clipboard is None
            &&& v1.cursor_range is Some
            &&& text_inserted(b0, b1, cursor, t@, PieceSource::Paste, v1.cursor_range->0)
            &&& v1 == (EditorViewState { ime_preedit: None, cursor_range: v1.cursor_range, ..v0 })
        } else {
            !outcome.changed && outcome.clipboard is None && b1 == b0 && v1 == v0
        },
        RelevantInputEvent::ImePreedit { text, active_range_chars } => {
            &&& !outcome.changed && outcome.clipboard is None && b1 == b0
            &&& v1 == (EditorViewState {
                ime_preedit: if text@.len() > 0 {
                    Some(ImePreeditState { text, active_range_chars })
                } else {
                    None
                },
                ..v0
            })
        },
        RelevantInputEvent::Key(k) => if non_movement_key(k, request.tab_indents_text) {
            non_movement_key_handled(k, b0, b1, v0, v1,
                cursor, total_chars, outcome)
        } else {
            &&& !outcome.changed && outcome.clipboard is None && b1 == b0
            &&& exists|moved: Option<CursorRange>| movement_outcome(cursor, k.key, k.modifiers,
                b0@, galley_rows(*request.galley), request.page_jump_rows as int, request.total_chars as int, request.char_offset_base,
                request.slice_chars, request.display_map, moved)
                && #[trigger] moved_view(v0, v1, moved)
        },
        RelevantInputEvent::Copy => {
            &&& !outcome.changed && b1 == b0 && v1 == v0
            &&& if cursor.primary.index == cursor.secondary.index {
                outcome.clipboard is None
            } else {
                outcome.clipboard matches Some(ClipboardRequest::Copy(t))
                    && t@ == b0@.subrange(sorted_ends(cursor).0 as int, sorted_ends(cursor).1 as int)
            }
        },
        RelevantInputEvent::Cut => if cursor.primary.index != cursor.secondary.index {
            let (start, end) = sorted_ends(cursor);
            let next = CursorRange::one_spec(CharCursor { index: start, prefer_next_row: true });
            &&& outcome.changed
            &&& outcome.clipboard matches Some(ClipboardRequest::Copy(t))
                && t@ == b0@.subrange(start as int, end as int)
            &&& edit_recorded(b0, b1, cursor, next, start as int,
                b0@.subrange(start as int, end as int), Seq::empty(), PieceSource::Cut)
            &&& v1 == (EditorViewState { cursor_range: Some(next), ..v0 })
        } else {
            !outcome.changed && outcome.clipboard is None && b1 == b0 && v1 == v0
        },
    }
}

/// Handles one input event on the view's selection; keys go to
/// [`handle_key_event`].
pub fn handle_relevant_input_event(
    event: RelevantInputEvent,
    buffer: &mut BufferState,
    view: &mut EditorViewState,
    total_chars: usize,
    request: &KeyboardInputRequest,
) -> (outcome: KeyOutcome)
    requires
        event_reads_selection(event) ==> event_fits(*old(buffer), view_cursor(*old(view))),
        request.page_jump_rows <= isize::MAX,
    ensures
        input_event_handled(event, *old(buffer), *final(buffer), *old(view), *final(view), total_chars,
            request, outcome),
{
    let cursor = match view.cursor_range {
        Some(c) => c,
        None => CursorRange::default(),
    };
    let length = buffer.current_file_length().chars;
    match event {
        RelevantInputEvent::Text(text) => {
            let count = chars_of(text.as_str()).len();
            if fits_insertion(length, count) {
                let changed = insert_text(buffer, view, &cursor, text.as_str());
                KeyOutcome { changed, clipboard: None }
            } else {
                KeyOutcome { changed: false, clipboard: None }
            }
        },
        RelevantInputEvent::ImePreedit { text, active_range_chars } => {
            view.ime_preedit = if !text.as_str().is_empty() {
                Some(ImePreeditState::new(text, active_range_chars))
            } else {
                None
            };
            KeyOutcome { changed: false, clipboard: None }
        },
        RelevantInputEvent::Key(key_event) => handle_key_event(key_event, buffer, view, &cursor, total_chars, request),
        RelevantInputEvent::Copy => KeyOutcome { changed: false, clipboard: copy_selection(buffer, &cursor) },
        RelevantInputEvent::Cut => {
            if !cursor.is_empty() {
                let (new_cursor, selected) = apply_cut(buffer, &cursor);
                view.set_cursor_range_anchored(new_cursor);
                KeyOutcome { changed: true, clipboard: Some(ClipboardRequest::Copy(selected)) }
            } else {
                KeyOutcome { changed: false, clipboard: None }
            }
        },
        RelevantInputEvent::Paste(text) => {
            let count = chars_of(text.as_str()).len();
            if fits_insertion(length, count) {
                let changed = insert_text_with_source(buffer, view, &cursor, text.as_str(), PieceSource::Paste);
                KeyOutcome { changed, clipboard: None }
            } else {
                KeyOutcome { changed: false, clipboard: None }
            }
        },
    }
}

/// What a batch of input events did: whether the text changed and the
/// clipboard requests, in order.
pub struct KeyboardOutcome {
    pub changed: bool,
    pub clipboard: Vec<ClipboardRequest>,
}

/// One step of a batch: an event that does not act on the selection's text,
/// or whose selection lies in the text and leaves the text room to grow, is
/// handled and gives an outcome; any other is skipped and changes nothing.
pub open spec fn event_step(
    event: RelevantInputEvent,
    b0: BufferState,
    b1: BufferState,
    v0: EditorViewState,
    v1: EditorViewState,
    total_chars: usize,
    request: &KeyboardInputRequest,
    step: Option<KeyOutcome>,
) -> bool {
    if !event_reads_selection(event) || event_fits(b0, view_cursor(v0)) {
        step matches Some(o) && input_event_handled(event, b0, b1, v0, v1, total_chars,
            request, o)
    } else {
        step is None && b1 == b0 && v1 == v0
    }
}

/// `buffers` and `views` are the states before and after each of `events`,
/// and `steps` what each step gave.
pub open spec fn handled_in_order(
    events: Seq<RelevantInputEvent>,
    buffers: Seq<BufferState>,
    views: Seq<EditorViewState>,
    steps: Seq<Option<KeyOutcome>>,
    total_chars: usize,
    request: &KeyboardInputRequest,
) -> bool {
    &&& buffers.len() == events.len() + 1
    &&& views.len() == events.len() + 1
    &&& steps.len() == events.len()
    &&& forall|i: int| #![trigger steps[i]] 0 <= i < events.len() ==> event_step(events[i], buffers[i],
        buffers[i + 1], views[i], views[i + 1], total_chars, request, steps[i])
}

/// Whether some handled step changed the text.
pub open spec fn any_changed(steps: Seq<Option<KeyOutcome>>) -> bool
    decreases steps.len(),
{
    if steps.len() == 0 {
        false
    } else {
        any_changed(steps.drop_last()) || (steps.last() matches Some(o) && o.changed)
    }
}

/// The clipboard requests of the handled steps, in order.
pub open spec fn requested(steps: Seq<Option<KeyOutcome>>) -> Seq<ClipboardRequest>
    decreases steps.len(),
{
    if steps.len() == 0 {
        Seq::empty()
    } else {
        let earlier = requested(steps.drop_last());
        match steps.last() {
            Some(o) => match o.clipboard {
                Some(r) => earlier.push(r),
                None => earlier,
            },
            None => earlier,
        }
    }
}

/// `events` handled in order from `before` and `view_before` to `after` and
/// `view_after`, the batch reporting `changed` and `clipboard`.
pub open spec fn batch_handled(
    events: Seq<RelevantInputEvent>,
    before: BufferState,
    after: BufferState,
    view_before: EditorViewState,
    view_after: EditorViewState,
    request: &KeyboardInputRequest,
    changed: bool,
    clipboard: Seq<ClipboardRequest>,
) -> bool {
    exists|buffers: Seq<BufferState>, views: Seq<EditorViewState>, steps: Seq<Option<KeyOutcome>>|
        #[trigger] handled_in_order(events, buffers, views, steps, before@.len() as usize,
            request)
        && buffers[0] == before && views[0] == view_before
        && buffers.last() == after && views.last() == view_after
        && changed == any_changed(steps) && clipboard == requested(steps)
}

/// Handles each relevant event in order. An event that acts on the text of a
/// selection reaching past the end of the text, or when the text is at the
/// largest length, is skipped. A changed text is reported, except that an
/// outdent by Shift+Tab, when Tab indents text, is not.
pub fn handle_keyboard_events_with(
    events: Vec<RelevantInputEvent>,
    buffer: &mut BufferState,
    view: &mut EditorViewState,
    request: &KeyboardInputRequest,
) -> (outcome: KeyboardOutcome)
    requires
        request.page_jump_rows <= isize::MAX,
    ensures
        batch_handled(events@, *old(buffer), *final(buffer), *old(view), *final(view),
            request, outcome.changed, outcome.clipboard@),
        !request.tab_indents_text ==> (final(buffer)@ != old(buffer)@ ==> outcome.changed),
{
    let total_chars = buffer.current_file_length().chars;
    let mut changed = false;
    let mut clipboard: Vec<ClipboardRequest> = Vec::new();
    let mut events = events;
    let ghost all = events@;
    let ghost mut buffers: Seq<BufferState> = seq![*buffer];
    let ghost mut views: Seq<EditorViewState> = seq![*view];
    let ghost mut steps: Seq<Option<KeyOutcome>> = Seq::empty();
    while events.len() > 0
        invariant
            request.page_jump_rows <= isize::MAX,
            total_chars == old(buffer)@.len(),
            steps.len() + events@.len() == all.len(),
            events@ == all.subrange(steps.len() as int, all.len() as int),
            handled_in_order(all.take(steps.len() as int), buffers, views, steps, total_chars,
                request),
            buffers[0] == *old(buffer),
            views[0] == *old(view),
            buffers.last() == *buffer,
            views.last() == *view,
            changed == any_changed(steps),
            clipboard@ == requested(steps),
            !request.tab_indents_text ==> (buffer@ != old(buffer)@ ==> changed),
        decreases events@.len(),
    {
        let ghost k = steps.len() as int;
        let ghost earlier = steps;
        let event = events.remove(0);
        let ghost handled_event = event;
        assert(handled_event == all[k]);
        let ghost b0 = *buffer;
        let ghost v0 = *view;
        let cursor = match view.cursor_range {
            Some(c) => c,
            None => CursorRange::default(),
        };
        let length = buffer.current_file_length().chars;
        let (_, end) = cursor.sorted_indices();
        if !reads_selection(&event) || (end <= length && length < usize::MAX - 4) {
            let outcome = handle_relevant_input_event(event, buffer, view, total_chars, request);
            let ghost step = outcome;
            changed = changed || outcome.changed;
            if let Some(r) = outcome.clipboard {
                clipboard.push(r);
            }
            proof {
                steps = steps.push(Some(step));
            }
        } else {
            proof {
                steps = steps.push(None);
            }
        }
        proof {
            buffers = buffers.push(*buffer);
            views = views.push(*view);
            assert(steps.drop_last() =~= earlier);
            assert(event_step(all[k], b0, *buffer, v0, *view, total_chars, request,
                steps[k]));
            assert forall|i: int| #![trigger steps[i]] 0 <= i < k + 1 implies event_step(
                all.take(k + 1)[i], buffers[i], buffers[i + 1], views[i], views[i + 1], total_chars,
                request, steps[i]) by {
                if i < k {
                    assert(steps[i] == earlier[i]);
                    assert(all.take(k + 1)[i] == all.take(k)[i]);
                }
            }
        }
    }
    proof {
        assert(all.take(all.len() as int) == all);
        assert(handled_in_order(all, buffers, views, steps, old(buffer)@.len() as usize,
            request));
    }
    KeyboardOutcome { changed, clipboard }
}

/// The editor's keyboard input for one frame: the relevant events among
/// `events`, handled in order on the view's selection.
pub fn handle_keyboard_events(
    events: Vec<InputEvent>,
    buffer: &mut BufferState,
    view: &mut EditorViewState,
    request: &KeyboardInputRequest,
) -> (outcome: KeyboardOutcome)
    requires
        request.page_jump_rows <= isize::MAX,
    ensures
        batch_handled(relevant_events(events@, request.reserve_alt_for_shortcuts), *old(buffer),
            *final(buffer), *old(view), *final(view), request, outcome.changed, outcome.clipboard@),
        !request.tab_indents_text ==> (final(buffer)@ != old(buffer)@ ==> outcome.changed),
{
    let relevant = relevant_input_events(events, request.reserve_alt_for_shortcuts);
    handle_keyboard_events_with(relevant, buffer, view, request)
}

} // verus!

verus! {

/// Typing text and then pressing Command+Z gives back the text from before
/// the typing, reports a change and restores the selection typed over.
pub proof fn typing_then_undo_restores_text(
    before: BufferState,
    typed: BufferState,
    restored: BufferState,
    view_typed: EditorViewState,
    view_restored: EditorViewState,
    cursor: CursorRange,
    text: Seq<char>,
    caret: CursorRange,
    modifiers: Modifiers,
    total_chars: usize,
    outcome: KeyOutcome,
)
    requires
        text_inserted(before, typed, cursor, text, PieceSource::Edit, caret),
        modifiers.command && !modifiers.shift,
        non_movement_key_handled(PressedKeyEvent { key: Key::Z, modifiers }, typed, restored,
            view_typed, view_restored, caret, total_chars, outcome),
        before@.len() < usize::MAX,
        typed@.len() < usize::MAX,
    ensures
        restored@ == before@,
        outcome.changed,
        view_restored.cursor_range == Some(cursor),
{
    let (start, end) = sorted_ends(cursor);
    let inserted = crate::editing::normalized(text, line_ending_chars(before.document.preferred_line_ending()));
    let selection = if outcome.changed { view_restored.cursor_range } else { None };
    crate::editing::edit_then_undo_restores_text(before, typed, restored, cursor, caret, start as int,
        before@.subrange(start as int, end as int), inserted, PieceSource::Edit, selection);
}

} // verus!

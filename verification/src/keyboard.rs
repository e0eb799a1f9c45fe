//! Keyboard handling: raw key events, edits of the focused input, checkbox
//! and button activation, Tab focus moves and view-selection shortcuts.

use vstd::prelude::*;

use crate::dom::{
    focus_after, focus_change_to, next_tab_target, node_at, prev_tab_target, same_but_tree, FocusChange, NodeKind, UiNode,
    UiState,
};
use crate::events::{selection_change_event, spec_selection_change, AppEvent, UzFocusEvent, UzInputEvent, UzKeyboardEvent, UzMouseEvent};
use crate::flags::{has_bits32, KeyModifiers, MouseButtons, CTRL_BIT, SHIFT_BIT};
use crate::mouse::{is_checkbox_at, is_text_input_at, mouse_event};
use crate::clipboard::{selection_root, spec_selection_root};
use crate::selection::{Affinity, SelectionEndpoint, TextSelection};
use crate::UzNodeId;
use vstd::string::StrSliceExecFns;

verus! {

/// A named (non-character) key.
#[derive(Clone, Debug)]
pub enum NamedKey {
    F5,
    Tab,
    Enter,
    Space,
    ArrowLeft,
    ArrowRight,
    Home,
    End,
    /// Any other named key, by name.
    Other(String),
}

/// The key as the keyboard layout reports it.
#[derive(Clone, Debug)]
pub enum LogicalKey {
    Character(String),
    Named(NamedKey),
    Unidentified,
}

/// A key press or release.
#[derive(Clone, Debug)]
pub struct KeyEventInfo {
    pub pressed: bool,
    pub logical_key: LogicalKey,
    /// The physical key's code name, when the key is a known physical key.
    pub physical_code: Option<String>,
    pub repeat: bool,
}

/// The name reported for a named key.
pub open spec fn named_key_name(k: NamedKey) -> Seq<char> {
    match k {
        NamedKey::F5 => "F5"@,
        NamedKey::Tab => "Tab"@,
        NamedKey::Enter => "Enter"@,
        NamedKey::Space => "Space"@,
        NamedKey::ArrowLeft => "ArrowLeft"@,
        NamedKey::ArrowRight => "ArrowRight"@,
        NamedKey::Home => "Home"@,
        NamedKey::End => "End"@,
        NamedKey::Other(s) => s@,
    }
}

impl NamedKey {
    pub fn name(&self) -> (r: String)
        ensures
            r@ == named_key_name(*self),
    {
        match self {
            NamedKey::F5 => "F5".to_owned(),
            NamedKey::Tab => "Tab".to_owned(),
            NamedKey::Enter => "Enter".to_owned(),
            NamedKey::Space => "Space".to_owned(),
            NamedKey::ArrowLeft => "ArrowLeft".to_owned(),
            NamedKey::ArrowRight => "ArrowRight".to_owned(),
            NamedKey::Home => "Home".to_owned(),
            NamedKey::End => "End".to_owned(),
            NamedKey::Other(s) => s.clone(),
        }
    }
}

pub open spec fn is_f5(k: LogicalKey) -> bool {
    k matches LogicalKey::Named(NamedKey::F5)
}

pub open spec fn is_activation_key(k: LogicalKey) -> bool {
    k matches LogicalKey::Named(NamedKey::Enter) || k matches LogicalKey::Named(NamedKey::Space)
}

fn activation_key(k: &LogicalKey) -> (r: bool)
    ensures
        r == is_activation_key(*k),
{
    match k {
        LogicalKey::Named(NamedKey::Enter) => true,
        LogicalKey::Named(NamedKey::Space) => true,
        _ => false,
    }
}

/// The `key` string reported for a key: the character(s), or the key's name.
pub open spec fn key_string(k: LogicalKey) -> Option<Seq<char>> {
    match k {
        LogicalKey::Character(c) => Some(c@),
        LogicalKey::Named(n) => Some(named_key_name(n)),
        LogicalKey::Unidentified => None,
    }
}

/// A pressed F5 is reserved for hot reload.
pub fn is_hot_reload_key(key_event: &KeyEventInfo) -> (r: bool)
    ensures
        r == (key_event.pressed && is_f5(key_event.logical_key)),
{
    key_event.pressed && match &key_event.logical_key {
        LogicalKey::Named(NamedKey::F5) => true,
        _ => false,
    }
}

/// The raw `keydown`/`keyup` event of a key, aimed at the focused node. A
/// pressed F5 (reserved for hot reload) and keys that have neither a
/// character nor a name produce no event.
pub fn build_key_event(dom: &UiState, window_id: u32, key_event: &KeyEventInfo, modifiers: KeyModifiers) -> (r:
    Option<AppEvent>)
    ensures
        key_event.pressed && is_f5(key_event.logical_key) ==> r.is_none(),
        !(key_event.pressed && is_f5(key_event.logical_key)) ==> match key_string(key_event.logical_key) {
            None => r.is_none(),
            Some(k) => r matches Some(ev) && ({
                let data = match ev {
                    AppEvent::KeyDown(d) => d,
                    AppEvent::KeyUp(d) => d,
                    _ => arbitrary(),
                };
                &&& (ev is KeyDown <==> key_event.pressed)
                &&& (ev is KeyUp <==> !key_event.pressed)
                &&& data.window_id == window_id
                &&& data.node_id == dom.focused_node
                &&& data.key@ == k
                &&& data.code@ == match key_event.physical_code {
                    Some(c) => c@,
                    None => Seq::<char>::empty(),
                }
                &&& data.key_code == 0
                &&& data.modifiers == modifiers
                &&& data.repeat == key_event.repeat
            }),
        },
{
    if is_hot_reload_key(key_event) {
        return None;
    }
    let key = match &key_event.logical_key {
        LogicalKey::Character(c) => c.clone(),
        LogicalKey::Named(n) => n.name(),
        LogicalKey::Unidentified => {
            return None;
        },
    };
    let code = match &key_event.physical_code {
        Some(c) => c.clone(),
        None => String::new(),
    };
    let data = UzKeyboardEvent {
        window_id,
        node_id: dom.focused_node,
        key,
        code,
        key_code: 0,
        modifiers,
        repeat: key_event.repeat,
    };
    if key_event.pressed {
        Some(AppEvent::KeyDown(data))
    } else {
        Some(AppEvent::KeyUp(data))
    }
}

/// The edit a key would make in the focused input, as the input's editor
/// previews it.
#[derive(Clone, Debug)]
pub struct EditPreview {
    pub input_type: String,
    pub data: Option<String>,
}

/// A cancelable `beforeinput` describing the edit a key press would make in
/// the focused text input; `None` on release, without a focused text input,
/// or when the key makes no edit.
pub fn build_beforeinput_event(dom: &UiState, window_id: u32, key_event: &KeyEventInfo, preview: Option<EditPreview>) -> (r:
    Option<AppEvent>)
    ensures
        (key_event.pressed && dom.focused_node is Some && is_text_input_at(dom.nodes@, dom.focused_node.unwrap())
            && preview is Some) ==> (r matches Some(AppEvent::BeforeInput(e)) && e.window_id == window_id && e.node_id
            == dom.focused_node.unwrap() && e.input_type@ == preview.unwrap().input_type@ && e.data == preview.unwrap().data
            && e.start_node_id is None && e.end_node_id is None && e.start_offset == 0 && e.end_offset == 0),
        !(key_event.pressed && dom.focused_node is Some && is_text_input_at(dom.nodes@, dom.focused_node.unwrap())
            && preview is Some) ==> r.is_none(),
{
    if !key_event.pressed {
        return None;
    }
    let fid = match dom.focused_node {
        Some(f) => f,
        None => return None,
    };
    if !dom.nodes.is_text_input(fid) {
        return None;
    }
    match preview {
        Some(p) => Some(AppEvent::BeforeInput(UzInputEvent::plain(window_id, fid, p.input_type.as_str(), p.data))),
        None => None,
    }
}

/// An edit that an input made.
#[derive(Clone, Debug)]
pub struct InputEdit {
    pub input_type: String,
    pub inserted: Option<String>,
}

/// What the focused input's editor did with a key.
#[derive(Clone, Debug)]
pub enum KeyResult {
    Edit(InputEdit),
    /// The key (Escape) leaves the input.
    Blur,
    Handled,
    Ignored,
}

/// Reacts to what the focused text input did with a key press: an edit is
/// reported as `input`, a blur clears focus and is reported, any handled
/// key needs a redraw. A focus pointing at a missing node is cleared.
/// Returns whether a redraw is needed and the events to dispatch.
pub fn handle_key_for_input(dom: &mut UiState, window_id: u32, key_event: &KeyEventInfo, result: KeyResult) -> (r: (
    bool,
    Vec<AppEvent>,
))
    ensures
        final(dom).nodes@ == old(dom).nodes@,
        same_but_tree(*final(dom), UiState { focused_node: final(dom).focused_node, ..*old(dom) }),
        !key_event.pressed ==> r.0 == false && r.1@.len() == 0 && final(dom).focused_node == old(dom).focused_node,
        key_event.pressed ==> match old(dom).focused_node {
            None => r.0 == false && r.1@.len() == 0 && final(dom).focused_node.is_none(),
            Some(f) => if node_at(old(dom).nodes@, f) is None {
                r.0 == false && r.1@.len() == 0 && final(dom).focused_node.is_none()
            } else if !is_text_input_at(old(dom).nodes@, f) {
                r.0 == false && r.1@.len() == 0 && final(dom).focused_node == Some(f)
            } else {
                match result {
                    KeyResult::Edit(edit) => r.0 && r.1@.len() == 1 && final(dom).focused_node == Some(f)
                        && (r.1@[0] matches AppEvent::Input(e) && e.window_id == window_id && e.node_id == f
                        && e.input_type@ == edit.input_type@ && e.data == edit.inserted && e.start_node_id is None
                        && e.end_node_id is None && e.start_offset == 0 && e.end_offset == 0),
                    KeyResult::Blur => r.0 && final(dom).focused_node.is_none() && r.1@ == seq![
                        AppEvent::Blur(UzFocusEvent { window_id, node_id: f }),
                    ],
                    KeyResult::Handled => r.0 && r.1@.len() == 0 && final(dom).focused_node == Some(f),
                    KeyResult::Ignored => !r.0 && r.1@.len() == 0 && final(dom).focused_node == Some(f),
                }
            },
        },
{
    let mut events: Vec<AppEvent> = Vec::new();
    if !key_event.pressed {
        return (false, events);
    }
    let focused_id = match dom.focused_node {
        Some(f) => f,
        None => return (false, events),
    };
    if !dom.nodes.contains(focused_id) {
        dom.focused_node = None;
        return (false, events);
    }
    if !dom.nodes.is_text_input(focused_id) {
        return (false, events);
    }
    let mut needs_redraw = false;
    match result {
        KeyResult::Edit(edit) => {
            events.push(AppEvent::Input(UzInputEvent::plain(window_id, focused_id, edit.input_type.as_str(), edit.inserted)));
            needs_redraw = true;
        },
        KeyResult::Blur => {
            dom.focused_node = None;
            events.push(AppEvent::Blur(UzFocusEvent { window_id, node_id: focused_id }));
            needs_redraw = true;
        },
        KeyResult::Handled => {
            needs_redraw = true;
        },
        KeyResult::Ignored => {},
    }
    (needs_redraw, events)
}

/// Space or Enter on a focused checkbox toggles it and reports a `toggle`
/// input event.
pub fn handle_key_for_checkbox(dom: &mut UiState, window_id: u32, key_event: &KeyEventInfo) -> (r: (bool, Vec<AppEvent>))
    ensures
        ({
            let applies = key_event.pressed && is_activation_key(key_event.logical_key) && old(dom).focused_node is Some
                && is_checkbox_at(old(dom).nodes@, old(dom).focused_node.unwrap());
            &&& !applies ==> r.0 == false && r.1@.len() == 0 && *final(dom) == *old(dom)
            &&& applies ==> {
                let f = old(dom).focused_node.unwrap();
                let n = node_at(old(dom).nodes@, f).unwrap();
                &&& r.0
                &&& same_but_tree(*final(dom), *old(dom))
                &&& final(dom).nodes@ == old(dom).nodes@.update(f as int, Some(UiNode {
                    kind: NodeKind::Checkbox { checked: !(n.kind->checked) },
                    ..n
                }))
                &&& r.1@.len() == 1
                &&& crate::mouse::toggle_event_ok(r.1@[0], window_id, f)
            }
        }),
{
    if !key_event.pressed || !activation_key(&key_event.logical_key) {
        return (false, Vec::new());
    }
    let focused_id = match dom.focused_node {
        Some(f) => f,
        None => return (false, Vec::new()),
    };
    let checked = match dom.nodes.get(focused_id) {
        Some(n) => match n.kind {
            NodeKind::Checkbox { checked } => checked,
            _ => return (false, Vec::new()),
        },
        None => return (false, Vec::new()),
    };
    dom.nodes.set_checked(focused_id, !checked);
    let mut events: Vec<AppEvent> = Vec::new();
    events.push(AppEvent::Input(UzInputEvent::plain(window_id, focused_id, "toggle", None)));
    proof {
        reveal_strlit("toggle");
    }
    (true, events)
}

/// Enter or Space on a focused button fires a synthetic left click on it (the
/// caller places it at the button's center).
pub fn handle_key_for_button(dom: &UiState, window_id: u32, key_event: &KeyEventInfo) -> (r: (bool, Vec<AppEvent>))
    ensures
        ({
            let applies = key_event.pressed && is_activation_key(key_event.logical_key) && dom.focused_node is Some
                && (node_at(dom.nodes@, dom.focused_node.unwrap()) matches Some(n) && n.kind == NodeKind::Button);
            &&& !applies ==> r.0 == false && r.1@.len() == 0
            &&& applies ==> r.0 && r.1@ == seq![
                AppEvent::Click(mouse_event(window_id, dom.focused_node.unwrap(), 0, MouseButtons::empty_spec())),
            ]
        }),
{
    if !key_event.pressed || !activation_key(&key_event.logical_key) {
        return (false, Vec::new());
    }
    let focused_id = match dom.focused_node {
        Some(f) => f,
        None => return (false, Vec::new()),
    };
    let is_button = match dom.nodes.get(focused_id) {
        Some(n) => n.kind == NodeKind::Button,
        None => false,
    };
    if !is_button {
        return (false, Vec::new());
    }
    let mut events: Vec<AppEvent> = Vec::new();
    events.push(
        AppEvent::Click(
            UzMouseEvent {
                window_id,
                node_id: focused_id,
                button: 0,
                buttons: MouseButtons::empty(),
                related_node_id: None,
            },
        ),
    );
    (true, events)
}

/// The result of Tab handling.
#[derive(Clone, Debug)]
pub struct TabFocusOutcome {
    /// The key was Tab: it never inserts a tab character.
    pub consumed: bool,
    pub needs_redraw: bool,
    pub events: Vec<AppEvent>,
}

/// The blur and focus events of a focus change.
pub open spec fn focus_change_events(window_id: u32, change: FocusChange) -> Seq<AppEvent> {
    match change.old {
        Some(o) => seq![
            AppEvent::Blur(UzFocusEvent { window_id, node_id: o }),
            AppEvent::Focus(UzFocusEvent { window_id, node_id: change.new }),
        ],
        None => seq![AppEvent::Focus(UzFocusEvent { window_id, node_id: change.new })],
    }
}

/// Tab moves focus to the next tab stop, Shift-Tab to the previous one,
/// reporting blur and focus and asking for the new node to be scrolled into
/// view. Tab is consumed even when focus cannot move.
pub fn handle_tab_focus(dom: &mut UiState, window_id: u32, key_event: &KeyEventInfo, modifiers: KeyModifiers) -> (r:
    TabFocusOutcome)
    ensures
        !(key_event.pressed && key_event.logical_key matches LogicalKey::Named(NamedKey::Tab)) ==> !r.consumed
            && !r.needs_redraw && r.events@.len() == 0 && *final(dom) == *old(dom),
        (key_event.pressed && key_event.logical_key matches LogicalKey::Named(NamedKey::Tab)) ==> {
            let target = if has_bits32(modifiers@, SHIFT_BIT) {
                prev_tab_target(old(dom).nodes@, old(dom).focused_node)
            } else {
                next_tab_target(old(dom).nodes@, old(dom).focused_node)
            };
            &&& r.consumed
            &&& match focus_change_to(target, old(dom).focused_node) {
                Some(change) => {
                    &&& r.needs_redraw
                    &&& *final(dom) == (UiState {
                        focused_node: focus_after(target, old(dom).focused_node),
                        scroll_into_view_request: Some(change.new),
                        ..*old(dom)
                    })
                    &&& r.events@ == focus_change_events(window_id, change)
                },
                None => !r.needs_redraw && r.events@.len() == 0 && *final(dom) == (UiState {
                    focused_node: focus_after(target, old(dom).focused_node),
                    ..*old(dom)
                }),
            }
        },
{
    let mut outcome = TabFocusOutcome { consumed: false, needs_redraw: false, events: Vec::new() };
    let is_tab = match &key_event.logical_key {
        LogicalKey::Named(NamedKey::Tab) => true,
        _ => false,
    };
    if !key_event.pressed || !is_tab {
        return outcome;
    }
    outcome.consumed = true;
    let shift = modifiers.contains(KeyModifiers::shift());
    let change = if shift {
        dom.focus_prev_node()
    } else {
        dom.focus_next_node()
    };
    if let Some(change) = change {
        if let Some(old_id) = change.old {
            outcome.events.push(AppEvent::Blur(UzFocusEvent { window_id, node_id: old_id }));
        }
        outcome.events.push(AppEvent::Focus(UzFocusEvent { window_id, node_id: change.new }));
        dom.scroll_into_view_request = Some(change.new);
        outcome.needs_redraw = true;
        proof {
            assert(outcome.events@ =~= focus_change_events(window_id, change));
        }
    }
    outcome
}

/// The kind of edit a key makes, as far as the range it covers depends on it.
#[derive(Clone, Copy, Debug, PartialEq, Eq, Structural)]
pub enum EditKind {
    DeleteBackward,
    DeleteForward,
    DeleteWordBackward,
    DeleteWordForward,
    HistoryUndo,
    HistoryRedo,
    /// Any other edit (typing, a line break, a paste): it replaces the
    /// selection.
    Other,
}

/// Where the view selection sits in its run, as the layout reports it; there
/// is none when the selection's two ends cannot be put in document order.
#[derive(Clone, Copy, Debug, PartialEq, Eq, Structural)]
pub struct SelectionLayout {
    /// The grapheme index of the focus end in its run, when it maps to one.
    pub focus_index: Option<usize>,
    /// The word boundaries before and after `focus_index`.
    pub prev_word: usize,
    pub next_word: usize,
}

/// The document range an edit covers, relative to the ordered selection.
#[derive(Clone, Copy, Debug, PartialEq, Eq, Structural)]
pub enum EditRange {
    /// The ordered selection as it stands.
    Selection,
    /// The selection with its start moved to grapheme `index` (downstream).
    StartAt(usize),
    /// The selection with its end moved to grapheme `index` (upstream).
    EndAt(usize),
}

pub open spec fn spec_edit_range(dom: UiState, kind: EditKind, layout: Option<SelectionLayout>) -> Option<EditRange> {
    let sel = dom.text_selection;
    if kind == EditKind::HistoryUndo || kind == EditKind::HistoryRedo {
        None
    } else if sel.focus is None || spec_selection_root(dom.nodes@, sel) is None || layout is None {
        None
    } else if !sel.spec_is_collapsed() {
        Some(EditRange::Selection)
    } else {
        let l = layout.unwrap();
        match l.focus_index {
            None => None,
            Some(flat) => Some(
                match kind {
                    EditKind::DeleteBackward => if flat == 0 {
                        EditRange::Selection
                    } else {
                        EditRange::StartAt((flat - 1) as usize)
                    },
                    EditKind::DeleteForward => EditRange::EndAt((flat + 1) as usize),
                    EditKind::DeleteWordBackward => if l.prev_word == flat {
                        EditRange::Selection
                    } else {
                        EditRange::StartAt(l.prev_word)
                    },
                    EditKind::DeleteWordForward => if l.next_word == flat {
                        EditRange::Selection
                    } else {
                        EditRange::EndAt(l.next_word)
                    },
                    _ => EditRange::Selection,
                },
            ),
        }
    }
}

/// The range an edit of `kind` covers in the view selection: none for undo
/// and redo, without a focus end, outside a selectable run, or when the focus
/// cannot be placed in its run; the selection itself when it is not
/// collapsed; otherwise a collapsed caret widened by one grapheme or to the
/// neighbouring word boundary for deletions (unless there is nothing on that
/// side), and left as it is for other edits.
pub fn compute_edit_range(dom: &UiState, kind: EditKind, layout: Option<SelectionLayout>) -> (r: Option<EditRange>)
    requires
        layout matches Some(l) ==> (l.focus_index matches Some(f) ==> f < usize::MAX),
    ensures
        r == spec_edit_range(*dom, kind, layout),
{
    if kind == EditKind::HistoryUndo || kind == EditKind::HistoryRedo {
        return None;
    }
    let sel = dom.text_selection;
    if sel.focus.is_none() {
        return None;
    }
    if selection_root(dom, &sel).is_none() {
        return None;
    }
    let l = match layout {
        Some(l) => l,
        None => return None,
    };
    if !sel.is_collapsed() {
        return Some(EditRange::Selection);
    }
    let flat = match l.focus_index {
        Some(f) => f,
        None => return None,
    };
    let range = match kind {
        EditKind::DeleteBackward => if flat == 0 {
            EditRange::Selection
        } else {
            EditRange::StartAt(flat - 1)
        },
        EditKind::DeleteForward => EditRange::EndAt(flat + 1),
        EditKind::DeleteWordBackward => if l.prev_word == flat {
            EditRange::Selection
        } else {
            EditRange::StartAt(l.prev_word)
        },
        EditKind::DeleteWordForward => if l.next_word == flat {
            EditRange::Selection
        } else {
            EditRange::EndAt(l.next_word)
        },
        _ => EditRange::Selection,
    };
    Some(range)
}

/// The `textupdate` payload for an edit on `node_id` over `range` (ends in
/// document order), offsets reported as `u32` (truncated).
pub open spec fn text_update_event(
    window_id: u32,
    node_id: UzNodeId,
    preview: EditPreview,
    range: Option<(SelectionEndpoint, SelectionEndpoint)>,
) -> UzInputEvent {
    UzInputEvent {
        window_id,
        node_id,
        input_type: preview.input_type,
        data: preview.data,
        start_node_id: match range { Some(r) => Some(r.0.node), None => None },
        start_offset: match range { Some(r) => r.0.offset as u32, None => 0 },
        end_node_id: match range { Some(r) => Some(r.1.node), None => None },
        end_offset: match range { Some(r) => r.1.offset as u32, None => 0 },
    }
}

/// A key press on a focused edit-context view is reported as one `textupdate`
/// describing the edit it would make (`preview`) over `range`; the view's
/// text is never changed here. Nothing is reported on release, without such
/// a focused node, or when the key makes no edit.
pub fn handle_key_for_edit_context(
    dom: &UiState,
    window_id: u32,
    key_event: &KeyEventInfo,
    preview: Option<EditPreview>,
    range: Option<(SelectionEndpoint, SelectionEndpoint)>,
) -> (r: Vec<AppEvent>)
    ensures
        ({
            let applies = key_event.pressed && dom.focused_node is Some
                && (node_at(dom.nodes@, dom.focused_node.unwrap()) matches Some(n) && n.edit_context_root)
                && preview is Some;
            &&& !applies ==> r@.len() == 0
            &&& applies ==> r@.len() == 1 && (r@[0] matches AppEvent::TextUpdate(e) && e == text_update_event(
                window_id,
                dom.focused_node.unwrap(),
                preview.unwrap(),
                range,
            ))
        }),
{
    let mut events: Vec<AppEvent> = Vec::new();
    if !key_event.pressed {
        return events;
    }
    let fid = match dom.focused_node {
        Some(f) => f,
        None => return events,
    };
    let is_root = match dom.nodes.get(fid) {
        Some(n) => n.edit_context_root,
        None => false,
    };
    if !is_root {
        return events;
    }
    let p = match preview {
        Some(p) => p,
        None => return events,
    };
    let (start_node_id, start_offset, end_node_id, end_offset): (Option<UzNodeId>, u32, Option<UzNodeId>, u32) = match range {
        Some((s, e)) => (Some(s.node), s.offset as u32, Some(e.node), e.offset as u32),
        None => (None, 0, None, 0),
    };
    events.push(AppEvent::TextUpdate(UzInputEvent {
        window_id,
        node_id: fid,
        input_type: p.input_type,
        data: p.data,
        start_node_id,
        start_offset,
        end_node_id,
        end_offset,
    }));
    events
}

/// How a key moves the focus end of a view text selection.
#[derive(Clone, Copy, Debug, PartialEq, Eq, Structural)]
pub enum SelectionKeyAction {
    /// Not a selection shortcut.
    Ignore,
    /// Extend to the previous word boundary (Ctrl-Shift-Left).
    PrevWord,
    /// Extend to the next word boundary (Ctrl-Shift-Right).
    NextWord,
    /// Extend to a grapheme index of the run.
    ExtendTo { index: usize, affinity: Affinity },
    /// Select the whole run (Ctrl-A).
    SelectAll,
}

pub open spec fn is_char_key(k: LogicalKey, c: Seq<char>) -> bool {
    k matches LogicalKey::Character(s) && s@ == c
}

/// Whether `s` is exactly the one character `c`.
pub fn is_single_char(s: &String, c: char) -> (r: bool)
    ensures
        r == (s@ == seq![c]),
{
    let t = s.as_str();
    if t.unicode_len() != 1 {
        return false;
    }
    let first = t.get_char(0);
    proof {
        if first == c {
            assert(s@ =~= seq![c]);
        }
    }
    first == c
}

/// The selection shortcut of a key press for a focus end at grapheme
/// `active` of a run of `run_len` graphemes.
pub open spec fn spec_selection_key_action(key_event: KeyEventInfo, modifiers: KeyModifiers, active: usize, run_len: usize) -> SelectionKeyAction {
    let shift = has_bits32(modifiers@, SHIFT_BIT);
    let ctrl = has_bits32(modifiers@, CTRL_BIT);
    let k = key_event.logical_key;
    if !key_event.pressed || run_len == 0 {
        SelectionKeyAction::Ignore
    } else if k matches LogicalKey::Named(NamedKey::ArrowLeft) && shift && ctrl {
        SelectionKeyAction::PrevWord
    } else if k matches LogicalKey::Named(NamedKey::ArrowRight) && shift && ctrl {
        SelectionKeyAction::NextWord
    } else if k matches LogicalKey::Named(NamedKey::ArrowLeft) && shift {
        SelectionKeyAction::ExtendTo {
            index: if active > 0 { (active - 1) as usize } else { 0 },
            affinity: Affinity::Downstream,
        }
    } else if k matches LogicalKey::Named(NamedKey::ArrowRight) && shift {
        SelectionKeyAction::ExtendTo {
            index: if active + 1 <= run_len { (active + 1) as usize } else { run_len },
            affinity: Affinity::Downstream,
        }
    } else if k matches LogicalKey::Named(NamedKey::Home) && shift {
        SelectionKeyAction::ExtendTo { index: 0, affinity: Affinity::Downstream }
    } else if k matches LogicalKey::Named(NamedKey::End) && shift {
        SelectionKeyAction::ExtendTo { index: run_len, affinity: Affinity::Upstream }
    } else if ctrl && (is_char_key(k, "a"@) || is_char_key(k, "A"@)) {
        SelectionKeyAction::SelectAll
    } else {
        SelectionKeyAction::Ignore
    }
}

/// The selection shortcut of a key press, given the focus end's grapheme
/// index `active` in a run of `run_len` graphemes. Nothing happens on
/// release or in an empty run.
pub fn view_selection_key_action(key_event: &KeyEventInfo, modifiers: KeyModifiers, active: usize, run_len: usize) -> (r:
    SelectionKeyAction)
    ensures
        r == spec_selection_key_action(*key_event, modifiers, active, run_len),
{
    proof {
        reveal_strlit("a");
        reveal_strlit("A");
        assert("a"@ =~= seq!['a']);
        assert("A"@ =~= seq!['A']);
    }
    if !key_event.pressed || run_len == 0 {
        return SelectionKeyAction::Ignore;
    }
    let shift = modifiers.contains(KeyModifiers::shift());
    let ctrl = modifiers.contains(KeyModifiers::ctrl());
    match &key_event.logical_key {
        LogicalKey::Named(NamedKey::ArrowLeft) => {
            if shift && ctrl {
                SelectionKeyAction::PrevWord
            } else if shift {
                SelectionKeyAction::ExtendTo {
                    index: if active > 0 { active - 1 } else { 0 },
                    affinity: Affinity::Downstream,
                }
            } else {
                SelectionKeyAction::Ignore
            }
        },
        LogicalKey::Named(NamedKey::ArrowRight) => {
            if shift && ctrl {
                SelectionKeyAction::NextWord
            } else if shift {
                SelectionKeyAction::ExtendTo {
                    index: if active < run_len { active + 1 } else { run_len },
                    affinity: Affinity::Downstream,
                }
            } else {
                SelectionKeyAction::Ignore
            }
        },
        LogicalKey::Named(NamedKey::Home) => {
            if shift {
                SelectionKeyAction::ExtendTo { index: 0, affinity: Affinity::Downstream }
            } else {
                SelectionKeyAction::Ignore
            }
        },
        LogicalKey::Named(NamedKey::End) => {
            if shift {
                SelectionKeyAction::ExtendTo { index: run_len, affinity: Affinity::Upstream }
            } else {
                SelectionKeyAction::Ignore
            }
        },
        LogicalKey::Character(c) => {
            if ctrl && (is_single_char(c, 'a') || is_single_char(c, 'A')) {
                SelectionKeyAction::SelectAll
            } else {
                SelectionKeyAction::Ignore
            }
        },
        _ => SelectionKeyAction::Ignore,
    }
}

/// Where the view selection's focus end sits: the root of its run, its
/// grapheme index in the run and the run's length in graphemes.
#[derive(Clone, Copy, Debug, PartialEq, Eq, Structural)]
pub struct SelectionPosition {
    pub root: UzNodeId,
    pub active: usize,
    pub run_len: usize,
}

/// The endpoints the layout gives for a shortcut: the one at its target
/// index (grapheme or word boundary), and the two ends of the run.
#[derive(Clone, Copy, Debug, PartialEq, Eq, Structural)]
pub struct ShortcutEndpoints {
    pub target: Option<SelectionEndpoint>,
    pub run_start: Option<SelectionEndpoint>,
    pub run_end: Option<SelectionEndpoint>,
}

/// The shortcut a key is for the view selection: none without a known focus
/// position or without an anchor.
pub open spec fn view_selection_action(dom: UiState, key_event: KeyEventInfo, modifiers: KeyModifiers, position: Option<SelectionPosition>) -> SelectionKeyAction {
    match position {
        Some(p) => if dom.text_selection.anchor is Some {
            spec_selection_key_action(key_event, modifiers, p.active, p.run_len)
        } else {
            SelectionKeyAction::Ignore
        },
        None => SelectionKeyAction::Ignore,
    }
}

/// The selection after a shortcut: the anchor stays and the focus moves to
/// the target; select-all spans the run. Where the layout gave no endpoint,
/// the selection stays.
pub open spec fn selection_after_shortcut(sel: TextSelection, action: SelectionKeyAction, ends: ShortcutEndpoints) -> TextSelection {
    match action {
        SelectionKeyAction::Ignore => sel,
        SelectionKeyAction::SelectAll => match (ends.run_start, ends.run_end) {
            (Some(s), Some(e)) => TextSelection { anchor: Some(s), focus: Some(e) },
            _ => sel,
        },
        _ => match (sel.anchor, ends.target) {
            (Some(a), Some(f)) => TextSelection { anchor: Some(a), focus: Some(f) },
            _ => sel,
        },
    }
}

/// Shift-arrows (by grapheme, or by word with Ctrl), Shift-Home/End and
/// Ctrl-A move the view selection when nothing is focused. Returns whether a
/// redraw is needed (the key was a shortcut) and the `selectionchange` event
/// when the selection moved.
pub fn handle_key_for_view_selection(
    dom: &mut UiState,
    window_id: u32,
    key_event: &KeyEventInfo,
    modifiers: KeyModifiers,
    position: Option<SelectionPosition>,
    ends: ShortcutEndpoints,
) -> (r: (bool, Vec<AppEvent>))
    ensures
        !key_event.pressed ==> r.0 == false && r.1@.len() == 0 && *final(dom) == *old(dom),
        key_event.pressed ==> {
            let action = view_selection_action(*old(dom), *key_event, modifiers, position);
            let after = selection_after_shortcut(old(dom).text_selection, action, ends);
            &&& *final(dom) == (UiState { text_selection: after, ..*old(dom) })
            &&& r.0 == (action != SelectionKeyAction::Ignore)
            &&& r.1@ == match spec_selection_change(window_id, old(dom).text_selection, after) {
                Some(e) => seq![e],
                None => Seq::empty(),
            }
        },
{
    let mut events: Vec<AppEvent> = Vec::new();
    if !key_event.pressed {
        return (false, events);
    }
    let before = dom.text_selection;
    let action = match position {
        Some(p) => if before.anchor.is_some() {
            view_selection_key_action(key_event, modifiers, p.active, p.run_len)
        } else {
            SelectionKeyAction::Ignore
        },
        None => SelectionKeyAction::Ignore,
    };
    let after = match action {
        SelectionKeyAction::Ignore => before,
        SelectionKeyAction::SelectAll => match (ends.run_start, ends.run_end) {
            (Some(s), Some(e)) => TextSelection::new(s, e),
            _ => before,
        },
        _ => match (before.anchor, ends.target) {
            (Some(a), Some(f)) => TextSelection::new(a, f),
            _ => before,
        },
    };
    dom.set_selection(after);
    if let Some(e) = selection_change_event(window_id, &before, &after) {
        events.push(e);
    }
    let redraw = match action {
        SelectionKeyAction::Ignore => false,
        _ => true,
    };
    (redraw, events)
}

/// Where a key press stands in its handling, with what the last step found.
#[derive(Clone, Copy, Debug, PartialEq, Eq, Structural)]
pub enum KeyPhase {
    /// The raw key event was dispatched (or there was none).
    RawDispatched { prevented: bool, hot_reload: bool },
    /// Tab handling ran; whether a clipboard command was built for the key.
    TabHandled { consumed: bool, has_clipboard_command: bool },
    /// The clipboard event was dispatched.
    ClipboardDispatched { prevented: bool },
    /// The `beforeinput` event was dispatched (or there was none).
    BeforeInputDispatched { prevented: bool },
}

/// The next step of handling a key.
#[derive(Clone, Copy, Debug, PartialEq, Eq, Structural)]
pub enum KeyStep {
    Stop,
    HandleTab,
    DispatchClipboard,
    /// Apply the clipboard command's default action, then stop.
    ApplyClipboardThenStop,
    DispatchBeforeInput,
    /// Run the input, checkbox, button and edit-context handlers (edits only
    /// when allowed), then view-selection shortcuts when nothing is focused.
    RunInputHandlers { allow_edits: bool },
}

pub open spec fn spec_next_key_step(phase: KeyPhase) -> KeyStep {
    match phase {
            KeyPhase::RawDispatched { prevented, hot_reload } => if prevented || hot_reload {
                KeyStep::Stop
            } else {
                KeyStep::HandleTab
            },
            KeyPhase::TabHandled { consumed, has_clipboard_command } => if consumed {
                KeyStep::Stop
            } else if has_clipboard_command {
                KeyStep::DispatchClipboard
            } else {
                KeyStep::DispatchBeforeInput
            },
            KeyPhase::ClipboardDispatched { prevented } => if prevented {
                KeyStep::Stop
            } else {
                KeyStep::ApplyClipboardThenStop
            },
            KeyPhase::BeforeInputDispatched { prevented } => KeyStep::RunInputHandlers { allow_edits: !prevented },
        }
}

/// The order of key handling: a raw event whose default was prevented, or a
/// hot reload, stops everything; Tab is handled first and ends handling
/// when it is the key; a clipboard shortcut is dispatched, then applied
/// unless prevented, and ends handling; otherwise `beforeinput` is
/// dispatched and the input handlers run, edits only if it was not
/// prevented.
pub fn next_key_step(phase: KeyPhase) -> (r: KeyStep)
    ensures
        r == spec_next_key_step(phase),
{
    match phase {
        KeyPhase::RawDispatched { prevented, hot_reload } => {
            if prevented || hot_reload {
                KeyStep::Stop
            } else {
                KeyStep::HandleTab
            }
        },
        KeyPhase::TabHandled { consumed, has_clipboard_command } => {
            if consumed {
                KeyStep::Stop
            } else if has_clipboard_command {
                KeyStep::DispatchClipboard
            } else {
                KeyStep::DispatchBeforeInput
            }
        },
        KeyPhase::ClipboardDispatched { prevented } => {
            if prevented {
                KeyStep::Stop
            } else {
                KeyStep::ApplyClipboardThenStop
            }
        },
        KeyPhase::BeforeInputDispatched { prevented } => KeyStep::RunInputHandlers { allow_edits: !prevented },
    }
}

/// The order of key handling, step by step: a raw event whose default was
/// prevented, or a hot reload, ends handling and otherwise Tab comes next; a
/// consumed Tab ends handling, else a clipboard shortcut is dispatched, else
/// `beforeinput` is; a prevented clipboard event ends handling, else its
/// default action runs and ends it; after `beforeinput` the input handlers
/// always run, with edits allowed exactly when it was not prevented.
pub proof fn lemma_key_pipeline_order(p: bool, h: bool, consumed: bool, clip: bool)
    ensures
        (spec_next_key_step(KeyPhase::RawDispatched { prevented: p, hot_reload: h }) == KeyStep::Stop) == (p || h),
        !(p || h) ==> spec_next_key_step(KeyPhase::RawDispatched { prevented: p, hot_reload: h }) == KeyStep::HandleTab,
        consumed ==> spec_next_key_step(KeyPhase::TabHandled { consumed, has_clipboard_command: clip }) == KeyStep::Stop,
        !consumed && clip ==> spec_next_key_step(KeyPhase::TabHandled { consumed, has_clipboard_command: clip })
            == KeyStep::DispatchClipboard,
        !consumed && !clip ==> spec_next_key_step(KeyPhase::TabHandled { consumed, has_clipboard_command: clip })
            == KeyStep::DispatchBeforeInput,
        p ==> spec_next_key_step(KeyPhase::ClipboardDispatched { prevented: p }) == KeyStep::Stop,
        !p ==> spec_next_key_step(KeyPhase::ClipboardDispatched { prevented: p }) == KeyStep::ApplyClipboardThenStop,
        spec_next_key_step(KeyPhase::BeforeInputDispatched { prevented: p }) is RunInputHandlers,
        (spec_next_key_step(KeyPhase::BeforeInputDispatched { prevented: p }) == KeyStep::RunInputHandlers {
            allow_edits: true,
        }) == !p,
{
}

/// Shift with the arrows, Home and End moves only the focus end of a
/// selection in a non-empty run: Shift-Right one grapheme on (stopping at
/// the end of the run), Shift-Left one back (stopping at its start),
/// Shift-Home to the start and Shift-End to the end; with Ctrl the arrows
/// move by word. On release, or in an empty run, no key is a shortcut.
pub proof fn lemma_selection_keys_move_focus(key_event: KeyEventInfo, modifiers: KeyModifiers, active: usize, run_len: usize)
    ensures
        ({
            let shift = has_bits32(modifiers@, SHIFT_BIT);
            let ctrl = has_bits32(modifiers@, CTRL_BIT);
            let k = key_event.logical_key;
            let a = spec_selection_key_action(key_event, modifiers, active, run_len);
            let live = key_event.pressed && run_len > 0;
            &&& !live ==> a == SelectionKeyAction::Ignore
            &&& (live && shift && !ctrl && k matches LogicalKey::Named(NamedKey::ArrowRight)) ==> (a matches SelectionKeyAction::ExtendTo { index, affinity }
                && index as int == (if active + 1 <= run_len { active + 1 } else { run_len as int })
                && affinity == Affinity::Downstream
                && (active < run_len ==> index > active))
            &&& (live && shift && !ctrl && k matches LogicalKey::Named(NamedKey::ArrowLeft)) ==> (a matches SelectionKeyAction::ExtendTo { index, affinity }
                && index as int == (if active >= 1 { active - 1 } else { 0 }) && affinity == Affinity::Downstream
                && (active > 0 ==> index < active))
            &&& (live && shift && k matches LogicalKey::Named(NamedKey::Home)) ==> a == (SelectionKeyAction::ExtendTo {
                index: 0,
                affinity: Affinity::Downstream,
            })
            &&& (live && shift && k matches LogicalKey::Named(NamedKey::End)) ==> a == (SelectionKeyAction::ExtendTo {
                index: run_len,
                affinity: Affinity::Upstream,
            })
            &&& (live && shift && ctrl && k matches LogicalKey::Named(NamedKey::ArrowRight)) ==> a == SelectionKeyAction::NextWord
            &&& (live && shift && ctrl && k matches LogicalKey::Named(NamedKey::ArrowLeft)) ==> a == SelectionKeyAction::PrevWord
            &&& (!shift && !ctrl) ==> a == SelectionKeyAction::Ignore
        }),
{
}

/// A key whose raw event had its default prevented goes no further: no Tab,
/// clipboard or input handling; and input handlers never make edits after
/// a prevented `beforeinput`.
pub proof fn lemma_prevented_key_stops(hot_reload: bool)
    ensures
        spec_next_key_step(KeyPhase::RawDispatched { prevented: true, hot_reload }) == KeyStep::Stop,
        spec_next_key_step(KeyPhase::BeforeInputDispatched { prevented: true }) == (KeyStep::RunInputHandlers {
            allow_edits: false,
        }),
{
}

} // verus!

//! Event payloads handed from the window layer to the script side.

use vstd::prelude::*;

use crate::flags::{KeyModifiers, MouseButtons};
use crate::selection::{endpoint_key, endpoint_key_eq, TextSelection};
use crate::UzNodeId;

verus! {

/// A pointer event aimed at a node. The pointer's coordinates (window,
/// node-local and screen) are floating point and are attached by the caller.
#[derive(Clone, Debug, PartialEq, Eq, Structural)]
pub struct UzMouseEvent {
    pub window_id: u32,
    pub node_id: UzNodeId,
    pub button: u8,
    pub buttons: MouseButtons,
    /// The other node of a hover transition (the one left or entered).
    pub related_node_id: Option<UzNodeId>,
}

#[derive(Clone, Debug)]
pub struct UzKeyboardEvent {
    pub window_id: u32,
    pub node_id: Option<UzNodeId>,
    pub key: String,
    pub code: String,
    pub key_code: u32,
    pub modifiers: KeyModifiers,
    pub repeat: bool,
}

#[derive(Clone, Debug, PartialEq, Eq, Structural)]
pub struct UzWindowEvent {
    pub window_id: u32,
}

#[derive(Clone, Debug)]
pub struct UzThemeEvent {
    pub window_id: u32,
    pub theme: String,
}

#[derive(Clone, Debug, PartialEq, Eq, Structural)]
pub struct UzResizeEvent {
    pub window_id: u32,
    pub width: u32,
    pub height: u32,
}

/// An edit of an input (or a proposed one, for `beforeinput`), with the
/// document range it covers where that is known.
#[derive(Clone, Debug)]
pub struct UzInputEvent {
    pub window_id: u32,
    pub node_id: UzNodeId,
    pub input_type: String,
    pub data: Option<String>,
    pub start_node_id: Option<UzNodeId>,
    pub start_offset: u32,
    pub end_node_id: Option<UzNodeId>,
    pub end_offset: u32,
}

impl UzInputEvent {
    /// An input event with no document range.
    pub fn plain(window_id: u32, node_id: UzNodeId, input_type: &str, data: Option<String>) -> (r: Self)
        ensures
            r.window_id == window_id,
            r.node_id == node_id,
            r.input_type@ == input_type@,
            r.data == data,
            r.start_node_id.is_none(),
            r.start_offset == 0,
            r.end_node_id.is_none(),
            r.end_offset == 0,
    {
        UzInputEvent {
            window_id,
            node_id,
            input_type: input_type.to_owned(),
            data,
            start_node_id: None,
            start_offset: 0,
            end_node_id: None,
            end_offset: 0,
        }
    }
}

#[derive(Clone, Debug, PartialEq, Eq, Structural)]
pub struct UzFocusEvent {
    pub window_id: u32,
    pub node_id: UzNodeId,
}

#[derive(Clone, Debug)]
pub struct UzClipboardEvent {
    pub window_id: u32,
    pub node_id: Option<UzNodeId>,
    pub selection_text: Option<String>,
    pub clipboard_text: Option<String>,
}

#[derive(Clone, Debug, PartialEq, Eq, Structural)]
pub struct UzSelectionChangeEvent {
    pub window_id: u32,
    pub anchor_node_id: Option<UzNodeId>,
    pub anchor_offset: u32,
    pub focus_node_id: Option<UzNodeId>,
    pub focus_offset: u32,
    pub is_collapsed: bool,
}

/// Everything the window layer reports to the script side.
#[derive(Clone, Debug)]
pub enum AppEvent {
    Click(UzMouseEvent),
    MouseDown(UzMouseEvent),
    MouseUp(UzMouseEvent),
    MouseMove(UzMouseEvent),
    MouseEnter(UzMouseEvent),
    MouseLeave(UzMouseEvent),
    MouseOver(UzMouseEvent),
    MouseOut(UzMouseEvent),
    KeyDown(UzKeyboardEvent),
    KeyUp(UzKeyboardEvent),
    Resize(UzResizeEvent),
    Input(UzInputEvent),
    BeforeInput(UzInputEvent),
    TextUpdate(UzInputEvent),
    Focus(UzFocusEvent),
    Blur(UzFocusEvent),
    Copy(UzClipboardEvent),
    Cut(UzClipboardEvent),
    Paste(UzClipboardEvent),
    SelectionChange(UzSelectionChangeEvent),
    WindowLoad(UzWindowEvent),
    WindowClose(UzWindowEvent),
    ThemeChanged(UzThemeEvent),
    HotReload,
}

/// Two selections have the same anchor and focus positions (affinity aside).
pub open spec fn spec_endpoints_match(a: TextSelection, b: TextSelection) -> bool {
    endpoint_key(a.anchor) == endpoint_key(b.anchor) && endpoint_key(a.focus) == endpoint_key(b.focus)
}

pub fn endpoints_match(a: &TextSelection, b: &TextSelection) -> (r: bool)
    ensures
        r == spec_endpoints_match(*a, *b),
{
    endpoint_key_eq(a.anchor, b.anchor) && endpoint_key_eq(a.focus, b.focus)
}

/// The `selectionchange` payload that describes `after`.
pub open spec fn selection_change_payload(window_id: u32, after: TextSelection) -> UzSelectionChangeEvent {
    UzSelectionChangeEvent {
        window_id,
        anchor_node_id: match after.anchor { Some(e) => Some(e.node), None => None },
        anchor_offset: match after.anchor { Some(e) => e.offset as u32, None => 0 },
        focus_node_id: match after.focus { Some(e) => Some(e.node), None => None },
        focus_offset: match after.focus { Some(e) => e.offset as u32, None => 0 },
        is_collapsed: after.spec_is_collapsed(),
    }
}

/// The `selectionchange` a move from `before` to `after` reports, if any.
pub open spec fn spec_selection_change(window_id: u32, before: TextSelection, after: TextSelection) -> Option<AppEvent> {
    if spec_endpoints_match(before, after) {
        None
    } else {
        Some(AppEvent::SelectionChange(selection_change_payload(window_id, after)))
    }
}

/// A `selectionchange` event when the selection moved from `before` to
/// `after`; `None` when both sit at the same positions. Offsets are reported
/// as `u32` (truncated).
pub fn selection_change_event(window_id: u32, before: &TextSelection, after: &TextSelection) -> (r:
    Option<AppEvent>)
    ensures
        r == spec_selection_change(window_id, *before, *after),
{
    if endpoints_match(before, after) {
        return None;
    }
    let anchor_node_id = match after.anchor {
        Some(e) => Some(e.node),
        None => None,
    };
    let anchor_offset: u32 = match after.anchor {
        Some(e) => e.offset as u32,
        None => 0,
    };
    let focus_node_id = match after.focus {
        Some(e) => Some(e.node),
        None => None,
    };
    let focus_offset: u32 = match after.focus {
        Some(e) => e.offset as u32,
        None => 0,
    };
    Some(
        AppEvent::SelectionChange(
            UzSelectionChangeEvent {
                window_id,
                anchor_node_id,
                anchor_offset,
                focus_node_id,
                focus_offset,
                is_collapsed: after.is_collapsed(),
            },
        ),
    )
}

/// A selection that did not move reports nothing, so reporting a move and
/// then the same selection again yields one event; a move is reported
/// whichever way it goes, and its event describes where the selection ended.
pub proof fn lemma_selection_change_idempotent(window_id: u32, before: TextSelection, after: TextSelection)
    ensures
        spec_selection_change(window_id, after, after).is_none(),
        spec_selection_change(window_id, before, after).is_some() == spec_selection_change(window_id, after, before).is_some(),
        spec_selection_change(window_id, before, after) matches Some(AppEvent::SelectionChange(e)) ==> e == selection_change_payload(
            window_id,
            after,
        ),
{
}

} // verus!

//! Copy, cut and paste shortcuts.

use vstd::prelude::*;

use crate::dom::{first_text_root, node_at, spec_ancestor_path, NodeKind, UiNode, UiState};
use crate::events::{AppEvent, UzClipboardEvent, UzInputEvent};
use crate::flags::{has_bits32, KeyModifiers, CTRL_BIT};
use crate::keyboard::{is_single_char, KeyEventInfo, LogicalKey, InputEdit};
use crate::mouse::is_text_input_at;
use crate::selection::TextSelection;
use crate::UzNodeId;

verus! {

/// What a clipboard operation applies to.
#[derive(Clone, Copy, Debug, PartialEq, Eq, Structural)]
pub enum ClipboardTarget {
    /// The focused input.
    Input(UzNodeId),
    /// A view text selection, by the root of its selectable run.
    ViewSelection(UzNodeId),
}

/// A resolved clipboard command, ready for dispatch and its default action.
#[derive(Clone, Debug)]
pub enum ClipboardCommand {
    Copy { target: Option<UzNodeId>, selection_text: String },
    Cut { target: Option<UzNodeId>, selection_text: String, is_input: bool },
    Paste { target: Option<UzNodeId>, clipboard_text: Option<String>, is_input: bool },
}

/// Which clipboard shortcut a key is.
#[derive(Clone, Copy, Debug, PartialEq, Eq, Structural)]
pub enum ClipboardShortcut {
    Copy,
    Cut,
    Paste,
}

/// The root of the selectable run that holds a view selection: the run
/// around its anchor. `None` unless both ends are set.
pub open spec fn spec_selection_root(nodes: Seq<Option<UiNode>>, sel: TextSelection) -> Option<UzNodeId> {
    match (sel.anchor, sel.focus) {
        (Some(a), Some(_)) => first_text_root(nodes, spec_ancestor_path(nodes, a.node)),
        _ => None,
    }
}

/// The clipboard target: the focused node when it is a text input, else a
/// non-collapsed view selection inside a selectable run.
pub open spec fn spec_clipboard_target(dom: UiState) -> Option<ClipboardTarget> {
    if dom.focused_node is Some && is_text_input_at(dom.nodes@, dom.focused_node.unwrap()) {
        Some(ClipboardTarget::Input(dom.focused_node.unwrap()))
    } else if !dom.text_selection.spec_is_collapsed() && spec_selection_root(dom.nodes@, dom.text_selection) is Some {
        Some(ClipboardTarget::ViewSelection(spec_selection_root(dom.nodes@, dom.text_selection).unwrap()))
    } else {
        None
    }
}

/// The root of the selectable run of a view selection.
pub fn selection_root(dom: &UiState, sel: &TextSelection) -> (r: Option<UzNodeId>)
    ensures
        r == spec_selection_root(dom.nodes@, *sel),
{
    match (sel.anchor, sel.focus) {
        (Some(a), Some(_)) => dom.nodes.containing_text_run_root(a.node),
        _ => None,
    }
}

/// Resolves what a clipboard shortcut applies to.
pub fn resolve_clipboard_target(dom: &UiState) -> (r: Option<ClipboardTarget>)
    ensures
        r == spec_clipboard_target(*dom),
{
    if let Some(focused_id) = dom.focused_node {
        if dom.nodes.is_text_input(focused_id) {
            return Some(ClipboardTarget::Input(focused_id));
        }
    }
    if !dom.text_selection.is_collapsed() {
        if let Some(root) = selection_root(dom, &dom.text_selection) {
            return Some(ClipboardTarget::ViewSelection(root));
        }
    }
    None
}

/// The shortcut of a key: Ctrl with c, x or v (either case), on press.
pub open spec fn spec_clipboard_shortcut(key_event: KeyEventInfo, modifiers: KeyModifiers) -> Option<ClipboardShortcut> {
    if !key_event.pressed || !has_bits32(modifiers@, CTRL_BIT) {
        None
    } else {
        match key_event.logical_key {
            LogicalKey::Character(c) => if c@ == seq!['c'] || c@ == seq!['C'] {
                Some(ClipboardShortcut::Copy)
            } else if c@ == seq!['x'] || c@ == seq!['X'] {
                Some(ClipboardShortcut::Cut)
            } else if c@ == seq!['v'] || c@ == seq!['V'] {
                Some(ClipboardShortcut::Paste)
            } else {
                None
            },
            _ => None,
        }
    }
}

pub fn clipboard_shortcut(key_event: &KeyEventInfo, modifiers: KeyModifiers) -> (r: Option<ClipboardShortcut>)
    ensures
        r == spec_clipboard_shortcut(*key_event, modifiers),
{
    if !key_event.pressed || !modifiers.contains(KeyModifiers::ctrl()) {
        return None;
    }
    match &key_event.logical_key {
        LogicalKey::Character(c) => {
            if is_single_char(c, 'c') || is_single_char(c, 'C') {
                Some(ClipboardShortcut::Copy)
            } else if is_single_char(c, 'x') || is_single_char(c, 'X') {
                Some(ClipboardShortcut::Cut)
            } else if is_single_char(c, 'v') || is_single_char(c, 'V') {
                Some(ClipboardShortcut::Paste)
            } else {
                None
            }
        },
        _ => None,
    }
}

/// The clipboard has to be read for this key: it is a paste with a target.
pub fn needs_clipboard_read(dom: &UiState, key_event: &KeyEventInfo, modifiers: KeyModifiers) -> (r: bool)
    ensures
        r == (spec_clipboard_shortcut(*key_event, modifiers) == Some(ClipboardShortcut::Paste)
            && spec_clipboard_target(*dom) is Some),
{
    clipboard_shortcut(key_event, modifiers) == Some(ClipboardShortcut::Paste) && resolve_clipboard_target(dom).is_some()
}

/// Texts that the clipboard command takes from elsewhere: what the focused
/// input has selected, what the view selection covers, and what reading the
/// clipboard gave (read only when `needs_clipboard_read`).
#[derive(Clone, Debug)]
pub struct ClipboardTexts {
    pub input_selection: String,
    pub view_selection: String,
    pub clipboard: Option<String>,
}

pub open spec fn is_secure_input(nodes: Seq<Option<UiNode>>, id: UzNodeId) -> bool {
    node_at(nodes, id) matches Some(n) && n.kind matches NodeKind::TextInput { secure, .. } && secure
}

/// The selected text a copy or cut takes from the target.
pub open spec fn target_text(target: ClipboardTarget, texts: ClipboardTexts) -> Seq<char> {
    match target {
        ClipboardTarget::Input(_) => texts.input_selection@,
        ClipboardTarget::ViewSelection(_) => texts.view_selection@,
    }
}

pub open spec fn target_node(target: ClipboardTarget) -> UzNodeId {
    match target {
        ClipboardTarget::Input(n) => n,
        ClipboardTarget::ViewSelection(n) => n,
    }
}

fn is_secure(dom: &UiState, id: UzNodeId) -> (r: bool)
    ensures
        r == is_secure_input(dom.nodes@, id),
{
    match dom.nodes.get(id) {
        Some(n) => match n.kind {
            NodeKind::TextInput { secure, .. } => secure,
            _ => false,
        },
        None => false,
    }
}

/// Builds the command of a clipboard shortcut. Copy and cut need a target
/// with nonempty selected text and refuse secure inputs; paste needs a
/// target and carries the clipboard's text. `None` for other keys.
pub fn build_clipboard_command(dom: &UiState, key_event: &KeyEventInfo, modifiers: KeyModifiers, texts: ClipboardTexts) -> (r:
    Option<ClipboardCommand>)
    ensures
        ({
            let shortcut = spec_clipboard_shortcut(*key_event, modifiers);
            let target = spec_clipboard_target(*dom);
            match (shortcut, target) {
                (Some(ClipboardShortcut::Copy), Some(t)) => if (t is Input && is_secure_input(dom.nodes@, target_node(t)))
                    || target_text(t, texts).len() == 0 {
                    r.is_none()
                } else {
                    r matches Some(ClipboardCommand::Copy { target: tg, selection_text })
                        && tg == Some(target_node(t)) && selection_text@ == target_text(t, texts)
                },
                (Some(ClipboardShortcut::Cut), Some(t)) => if (t is Input && is_secure_input(dom.nodes@, target_node(t)))
                    || target_text(t, texts).len() == 0 {
                    r.is_none()
                } else {
                    r matches Some(ClipboardCommand::Cut { target: tg, selection_text, is_input })
                        && tg == Some(target_node(t)) && selection_text@ == target_text(t, texts) && is_input == (t is Input)
                },
                (Some(ClipboardShortcut::Paste), Some(t)) => r matches Some(
                    ClipboardCommand::Paste { target: tg, clipboard_text, is_input },
                ) && tg == Some(target_node(t)) && clipboard_text == texts.clipboard && is_input == (t is Input),
                _ => r.is_none(),
            }
        }),
{
    let shortcut = match clipboard_shortcut(key_event, modifiers) {
        Some(s) => s,
        None => return None,
    };
    let target = match resolve_clipboard_target(dom) {
        Some(t) => t,
        None => return None,
    };
    let (target_id, is_input) = match target {
        ClipboardTarget::Input(n) => (n, true),
        ClipboardTarget::ViewSelection(n) => (n, false),
    };
    match shortcut {
        ClipboardShortcut::Paste => Some(
            ClipboardCommand::Paste { target: Some(target_id), clipboard_text: texts.clipboard, is_input },
        ),
        _ => {
            if is_input && is_secure(dom, target_id) {
                return None;
            }
            let text = if is_input { texts.input_selection } else { texts.view_selection };
            if text.as_str().is_empty() {
                return None;
            }
            match shortcut {
                ClipboardShortcut::Copy => Some(ClipboardCommand::Copy { target: Some(target_id), selection_text: text }),
                _ => Some(ClipboardCommand::Cut { target: Some(target_id), selection_text: text, is_input }),
            }
        },
    }
}

/// The clipboard event that announces a command to the script side.
pub fn clipboard_command_to_event(cmd: &ClipboardCommand, window_id: u32) -> (r: AppEvent)
    ensures
        match *cmd {
            ClipboardCommand::Copy { target, selection_text } => r matches AppEvent::Copy(e) && e.window_id == window_id
                && e.node_id == target && e.selection_text == Some(selection_text) && e.clipboard_text is None,
            ClipboardCommand::Cut { target, selection_text, .. } => r matches AppEvent::Cut(e) && e.window_id == window_id
                && e.node_id == target && e.selection_text == Some(selection_text) && e.clipboard_text is None,
            ClipboardCommand::Paste { target, clipboard_text, .. } => r matches AppEvent::Paste(e) && e.window_id
                == window_id && e.node_id == target && e.selection_text is None && e.clipboard_text == clipboard_text,
        },
{
    match cmd {
        ClipboardCommand::Copy { target, selection_text } => AppEvent::Copy(
            UzClipboardEvent {
                window_id,
                node_id: *target,
                selection_text: Some(selection_text.clone()),
                clipboard_text: None,
            },
        ),
        ClipboardCommand::Cut { target, selection_text, .. } => AppEvent::Cut(
            UzClipboardEvent {
                window_id,
                node_id: *target,
                selection_text: Some(selection_text.clone()),
                clipboard_text: None,
            },
        ),
        ClipboardCommand::Paste { target, clipboard_text, .. } => AppEvent::Paste(
            UzClipboardEvent {
                window_id,
                node_id: *target,
                selection_text: None,
                clipboard_text: clone_opt_string(clipboard_text),
            },
        ),
    }
}

fn clone_opt_string(s: &Option<String>) -> (r: Option<String>)
    ensures
        r == *s,
{
    match s {
        Some(t) => Some(t.clone()),
        None => None,
    }
}

/// The text the default action writes to the clipboard: the selection, for
/// copy and cut.
pub fn clipboard_write_text(cmd: &ClipboardCommand) -> (r: Option<String>)
    ensures
        match *cmd {
            ClipboardCommand::Copy { selection_text, .. } => r == Some(selection_text),
            ClipboardCommand::Cut { selection_text, .. } => r == Some(selection_text),
            ClipboardCommand::Paste { .. } => r.is_none(),
        },
{
    match cmd {
        ClipboardCommand::Copy { selection_text, .. } => Some(selection_text.clone()),
        ClipboardCommand::Cut { selection_text, .. } => Some(selection_text.clone()),
        ClipboardCommand::Paste { .. } => None,
    }
}

/// An edit that the default action makes in an input.
#[derive(Clone, Debug)]
pub enum ClipboardEdit {
    /// Cut the input's selected text.
    CutSelection { target: UzNodeId },
    /// Paste text into the input.
    Paste { target: UzNodeId, text: String },
}

/// The edit the default action makes: cut or paste into a targeted input
/// (paste only with clipboard text). View selections are never edited.
pub fn clipboard_input_edit(cmd: &ClipboardCommand) -> (r: Option<ClipboardEdit>)
    ensures
        match *cmd {
            ClipboardCommand::Copy { .. } => r.is_none(),
            ClipboardCommand::Cut { target, is_input, .. } => if is_input && target is Some {
                r == Some(ClipboardEdit::CutSelection { target: target.unwrap() })
            } else {
                r.is_none()
            },
            ClipboardCommand::Paste { target, clipboard_text, is_input } => if is_input && target is Some
                && clipboard_text is Some {
                r == Some(ClipboardEdit::Paste { target: target.unwrap(), text: clipboard_text.unwrap() })
            } else {
                r.is_none()
            },
        },
{
    match cmd {
        ClipboardCommand::Copy { .. } => None,
        ClipboardCommand::Cut { target, is_input, .. } => {
            if *is_input {
                match target {
                    Some(t) => Some(ClipboardEdit::CutSelection { target: *t }),
                    None => None,
                }
            } else {
                None
            }
        },
        ClipboardCommand::Paste { target, clipboard_text, is_input } => {
            if *is_input {
                match (target, clipboard_text) {
                    (Some(t), Some(text)) => Some(ClipboardEdit::Paste { target: *t, text: text.clone() }),
                    _ => None,
                }
            } else {
                None
            }
        },
    }
}

/// Finishes the default action once the input has applied `edit` (or found
/// nothing to do): an applied edit is reported as an `input` event and needs
/// a redraw. Returns (needs_redraw, follow-up events).
pub fn apply_clipboard_command(edit: &Option<ClipboardEdit>, window_id: u32, applied: Option<InputEdit>) -> (r: (
    bool,
    Vec<AppEvent>,
))
    ensures
        match (*edit, applied) {
            (Some(e), Some(a)) => {
                let target = match e {
                    ClipboardEdit::CutSelection { target } => target,
                    ClipboardEdit::Paste { target, .. } => target,
                };
                &&& r.0
                &&& r.1@.len() == 1
                &&& r.1@[0] matches AppEvent::Input(ev) && ev.window_id == window_id && ev.node_id == target
                    && ev.input_type@ == a.input_type@ && ev.data == a.inserted && ev.start_node_id is None
                    && ev.end_node_id is None && ev.start_offset == 0 && ev.end_offset == 0
            },
            _ => !r.0 && r.1@.len() == 0,
        },
{
    let mut events: Vec<AppEvent> = Vec::new();
    match (edit, applied) {
        (Some(e), Some(a)) => {
            let target = match e {
                ClipboardEdit::CutSelection { target } => *target,
                ClipboardEdit::Paste { target, .. } => *target,
            };
            events.push(AppEvent::Input(UzInputEvent::plain(window_id, target, a.input_type.as_str(), a.inserted)));
            (true, events)
        },
        _ => (false, events),
    }
}

} // verus!

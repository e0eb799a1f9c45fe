use uzumaki::clipboard::{
    apply_clipboard_command, build_clipboard_command, clipboard_command_to_event, clipboard_input_edit,
    clipboard_shortcut, clipboard_write_text, needs_clipboard_read, resolve_clipboard_target, ClipboardCommand,
    ClipboardEdit, ClipboardShortcut, ClipboardTarget, ClipboardTexts,
};
use uzumaki::dom::{NodeKind, UiNode, UiState};
use uzumaki::events::AppEvent;
use uzumaki::flags::KeyModifiers;
use uzumaki::keyboard::{InputEdit, KeyEventInfo, LogicalKey};
use uzumaki::selection::{Affinity, SelectionEndpoint, TextSelection};

fn ctrl_key(c: &str) -> KeyEventInfo {
    KeyEventInfo { pressed: true, logical_key: LogicalKey::Character(c.to_string()), physical_code: None, repeat: false }
}

fn texts(input: &str, view: &str, clip: Option<&str>) -> ClipboardTexts {
    ClipboardTexts {
        input_selection: input.to_string(),
        view_selection: view.to_string(),
        clipboard: clip.map(|s| s.to_string()),
    }
}

fn dom_with_input(secure: bool) -> (UiState, usize) {
    let mut dom = UiState::new();
    let id = dom.nodes.create_node(UiNode::new(NodeKind::TextInput { secure, multiline: false }));
    dom.focused_node = Some(id);
    (dom, id)
}

fn dom_with_view_selection(collapsed: bool) -> (UiState, usize) {
    let mut dom = UiState::new();
    let mut p = UiNode::new(NodeKind::View);
    p.text_select_root = true;
    let para = dom.nodes.create_node(p);
    let mut t = UiNode::new(NodeKind::Text);
    t.parent = Some(para);
    let text = dom.nodes.create_node(t);
    let a = SelectionEndpoint::new(text, 1, Affinity::Downstream);
    let f = SelectionEndpoint::new(text, if collapsed { 1 } else { 4 }, Affinity::Downstream);
    dom.text_selection = TextSelection::new(a, f);
    (dom, para)
}

#[test]
fn shortcuts_need_ctrl_and_press() {
    assert_eq!(clipboard_shortcut(&ctrl_key("c"), KeyModifiers::ctrl()), Some(ClipboardShortcut::Copy));
    assert_eq!(clipboard_shortcut(&ctrl_key("X"), KeyModifiers::ctrl()), Some(ClipboardShortcut::Cut));
    assert_eq!(clipboard_shortcut(&ctrl_key("v"), KeyModifiers::ctrl()), Some(ClipboardShortcut::Paste));
    assert_eq!(clipboard_shortcut(&ctrl_key("v"), KeyModifiers::shift()), None);
    assert_eq!(clipboard_shortcut(&ctrl_key("b"), KeyModifiers::ctrl()), None);
    let mut released = ctrl_key("c");
    released.pressed = false;
    assert_eq!(clipboard_shortcut(&released, KeyModifiers::ctrl()), None);
}

#[test]
fn target_prefers_focused_input() {
    let (dom, id) = dom_with_input(false);
    assert_eq!(resolve_clipboard_target(&dom), Some(ClipboardTarget::Input(id)));
    let (dom, root) = dom_with_view_selection(false);
    assert_eq!(resolve_clipboard_target(&dom), Some(ClipboardTarget::ViewSelection(root)));
    let (dom, _) = dom_with_view_selection(true);
    assert_eq!(resolve_clipboard_target(&dom), None);
}

#[test]
fn copy_from_input() {
    let (dom, id) = dom_with_input(false);
    match build_clipboard_command(&dom, &ctrl_key("c"), KeyModifiers::ctrl(), texts("hello", "", None)) {
        Some(ClipboardCommand::Copy { target, selection_text }) => {
            assert_eq!(target, Some(id));
            assert_eq!(selection_text, "hello");
        }
        _ => panic!("expected copy"),
    }
    assert!(build_clipboard_command(&dom, &ctrl_key("c"), KeyModifiers::ctrl(), texts("", "x", None)).is_none());
}

#[test]
fn secure_input_blocks_copy_and_cut_but_not_paste() {
    let (dom, id) = dom_with_input(true);
    assert!(build_clipboard_command(&dom, &ctrl_key("c"), KeyModifiers::ctrl(), texts("pw", "", None)).is_none());
    assert!(build_clipboard_command(&dom, &ctrl_key("x"), KeyModifiers::ctrl(), texts("pw", "", None)).is_none());
    match build_clipboard_command(&dom, &ctrl_key("v"), KeyModifiers::ctrl(), texts("", "", Some("clip"))) {
        Some(ClipboardCommand::Paste { target, clipboard_text, is_input }) => {
            assert_eq!(target, Some(id));
            assert_eq!(clipboard_text, Some("clip".to_string()));
            assert!(is_input);
        }
        _ => panic!("expected paste"),
    }
}

#[test]
fn cut_from_view_selection_is_not_an_input_edit() {
    let (dom, root) = dom_with_view_selection(false);
    let cmd = build_clipboard_command(&dom, &ctrl_key("x"), KeyModifiers::ctrl(), texts("", "ell", None)).unwrap();
    match &cmd {
        ClipboardCommand::Cut { target, selection_text, is_input } => {
            assert_eq!(*target, Some(root));
            assert_eq!(selection_text, "ell");
            assert!(!is_input);
        }
        _ => panic!("expected cut"),
    }
    assert_eq!(clipboard_write_text(&cmd), Some("ell".to_string()));
    assert!(clipboard_input_edit(&cmd).is_none());
}

#[test]
fn paste_needs_read_only_with_target() {
    let (dom, _) = dom_with_input(false);
    assert!(needs_clipboard_read(&dom, &ctrl_key("v"), KeyModifiers::ctrl()));
    assert!(!needs_clipboard_read(&dom, &ctrl_key("c"), KeyModifiers::ctrl()));
    let empty = UiState::new();
    assert!(!needs_clipboard_read(&empty, &ctrl_key("v"), KeyModifiers::ctrl()));
    assert!(build_clipboard_command(&empty, &ctrl_key("v"), KeyModifiers::ctrl(), texts("", "", Some("x"))).is_none());
}

#[test]
fn clipboard_events() {
    let copy = ClipboardCommand::Copy { target: Some(3), selection_text: "a".to_string() };
    match clipboard_command_to_event(&copy, 8) {
        AppEvent::Copy(e) => {
            assert_eq!(e.window_id, 8);
            assert_eq!(e.node_id, Some(3));
            assert_eq!(e.selection_text, Some("a".to_string()));
            assert_eq!(e.clipboard_text, None);
        }
        _ => panic!("expected copy"),
    }
    let paste = ClipboardCommand::Paste { target: None, clipboard_text: Some("b".to_string()), is_input: false };
    match clipboard_command_to_event(&paste, 8) {
        AppEvent::Paste(e) => {
            assert_eq!(e.selection_text, None);
            assert_eq!(e.clipboard_text, Some("b".to_string()));
        }
        _ => panic!("expected paste"),
    }
}

#[test]
fn paste_into_input_reports_input_event() {
    let paste = ClipboardCommand::Paste { target: Some(2), clipboard_text: Some("zz".to_string()), is_input: true };
    let edit = clipboard_input_edit(&paste);
    match &edit {
        Some(ClipboardEdit::Paste { target, text }) => {
            assert_eq!(*target, 2);
            assert_eq!(text, "zz");
        }
        _ => panic!("expected paste edit"),
    }
    assert_eq!(clipboard_write_text(&paste), None);
    let applied = InputEdit { input_type: "insertFromPaste".to_string(), inserted: Some("zz".to_string()) };
    let (redraw, events) = apply_clipboard_command(&edit, 5, Some(applied));
    assert!(redraw);
    match &events[0] {
        AppEvent::Input(e) => {
            assert_eq!(e.window_id, 5);
            assert_eq!(e.node_id, 2);
            assert_eq!(e.input_type, "insertFromPaste");
        }
        _ => panic!("expected input"),
    }
    let (redraw, events) = apply_clipboard_command(&edit, 5, None);
    assert!(!redraw && events.is_empty());
    let no_text = ClipboardCommand::Paste { target: Some(2), clipboard_text: None, is_input: true };
    assert!(clipboard_input_edit(&no_text).is_none());
}

use uzumaki::dom::{NodeKind, UiNode, UiState};
use uzumaki::events::AppEvent;
use uzumaki::flags::KeyModifiers;
use uzumaki::keyboard::{
    build_beforeinput_event, build_key_event, handle_key_for_button, handle_key_for_checkbox,
    handle_key_for_input, handle_tab_focus, is_hot_reload_key, next_key_step, view_selection_key_action, EditPreview,
    InputEdit, KeyEventInfo, KeyPhase, KeyResult, KeyStep, LogicalKey, NamedKey, SelectionKeyAction,
};
use uzumaki::selection::Affinity;

fn key(pressed: bool, logical_key: LogicalKey) -> KeyEventInfo {
    KeyEventInfo { pressed, logical_key, physical_code: Some("KeyA".to_string()), repeat: false }
}

fn named(k: NamedKey) -> LogicalKey {
    LogicalKey::Named(k)
}

fn focusable(kind: NodeKind, parent: Option<usize>) -> UiNode {
    let mut n = UiNode::new(kind);
    n.parent = parent;
    n.focusable = true;
    n
}

#[test]
fn key_event_carries_focus_and_names() {
    let mut dom = UiState::new();
    dom.focused_node = Some(5);
    let mods = KeyModifiers::shift();
    match build_key_event(&dom, 3, &key(true, LogicalKey::Character("a".to_string())), mods) {
        Some(AppEvent::KeyDown(k)) => {
            assert_eq!(k.window_id, 3);
            assert_eq!(k.node_id, Some(5));
            assert_eq!(k.key, "a");
            assert_eq!(k.code, "KeyA");
            assert_eq!(k.key_code, 0);
            assert_eq!(k.modifiers, mods);
            assert!(!k.repeat);
        }
        _ => panic!("expected keydown"),
    }
    match build_key_event(&dom, 3, &key(false, named(NamedKey::ArrowLeft)), mods) {
        Some(AppEvent::KeyUp(k)) => assert_eq!(k.key, "ArrowLeft"),
        _ => panic!("expected keyup"),
    }
    let mut other = key(true, named(NamedKey::Other("Escape".to_string())));
    other.physical_code = None;
    match build_key_event(&dom, 3, &other, mods) {
        Some(AppEvent::KeyDown(k)) => {
            assert_eq!(k.key, "Escape");
            assert_eq!(k.code, "");
        }
        _ => panic!("expected keydown"),
    }
}

#[test]
fn f5_press_is_reserved_for_hot_reload() {
    let dom = UiState::new();
    let press = key(true, named(NamedKey::F5));
    assert!(is_hot_reload_key(&press));
    assert!(build_key_event(&dom, 1, &press, KeyModifiers::empty()).is_none());
    let release = key(false, named(NamedKey::F5));
    assert!(!is_hot_reload_key(&release));
    assert!(matches!(build_key_event(&dom, 1, &release, KeyModifiers::empty()), Some(AppEvent::KeyUp(_))));
    assert!(!is_hot_reload_key(&key(true, named(NamedKey::Tab))));
    assert!(build_key_event(&dom, 1, &key(true, LogicalKey::Unidentified), KeyModifiers::empty()).is_none());
}

#[test]
fn beforeinput_only_for_focused_text_input() {
    let mut dom = UiState::new();
    let input = dom.nodes.create_node(UiNode::new(NodeKind::TextInput { secure: false, multiline: false }));
    let view = dom.nodes.create_node(UiNode::new(NodeKind::View));
    let preview = || Some(EditPreview { input_type: "insertText".to_string(), data: Some("x".to_string()) });
    let press = key(true, LogicalKey::Character("x".to_string()));
    assert!(build_beforeinput_event(&dom, 1, &press, preview()).is_none());
    dom.focused_node = Some(view);
    assert!(build_beforeinput_event(&dom, 1, &press, preview()).is_none());
    dom.focused_node = Some(input);
    match build_beforeinput_event(&dom, 1, &press, preview()) {
        Some(AppEvent::BeforeInput(e)) => {
            assert_eq!(e.node_id, input);
            assert_eq!(e.input_type, "insertText");
            assert_eq!(e.data, Some("x".to_string()));
            assert_eq!(e.start_node_id, None);
        }
        _ => panic!("expected beforeinput"),
    }
    assert!(build_beforeinput_event(&dom, 1, &key(false, LogicalKey::Character("x".to_string())), preview()).is_none());
    assert!(build_beforeinput_event(&dom, 1, &press, None).is_none());
}

#[test]
fn input_edit_and_blur_results() {
    let mut dom = UiState::new();
    let input = dom.nodes.create_node(UiNode::new(NodeKind::TextInput { secure: false, multiline: false }));
    dom.focused_node = Some(input);
    let press = key(true, LogicalKey::Character("q".to_string()));
    let edit = KeyResult::Edit(InputEdit { input_type: "insertText".to_string(), inserted: Some("q".to_string()) });
    let (redraw, events) = handle_key_for_input(&mut dom, 2, &press, edit);
    assert!(redraw);
    match &events[0] {
        AppEvent::Input(e) => {
            assert_eq!(e.input_type, "insertText");
            assert_eq!(e.data, Some("q".to_string()));
        }
        _ => panic!("expected input"),
    }
    let (redraw, events) = handle_key_for_input(&mut dom, 2, &press, KeyResult::Ignored);
    assert!(!redraw && events.is_empty());
    let (redraw, events) = handle_key_for_input(&mut dom, 2, &press, KeyResult::Blur);
    assert!(redraw);
    assert!(matches!(&events[0], AppEvent::Blur(b) if b.node_id == input));
    assert_eq!(dom.focused_node, None);
}

#[test]
fn stale_focus_is_cleared_on_key() {
    let mut dom = UiState::new();
    dom.focused_node = Some(42);
    let (redraw, events) = handle_key_for_input(&mut dom, 1, &key(true, named(NamedKey::Enter)), KeyResult::Handled);
    assert!(!redraw && events.is_empty());
    assert_eq!(dom.focused_node, None);
}

#[test]
fn space_toggles_focused_checkbox() {
    let mut dom = UiState::new();
    let cb = dom.nodes.create_node(UiNode::new(NodeKind::Checkbox { checked: true }));
    dom.focused_node = Some(cb);
    let (redraw, events) = handle_key_for_checkbox(&mut dom, 4, &key(true, named(NamedKey::Space)));
    assert!(redraw);
    assert_eq!(dom.nodes.get(cb).unwrap().kind, NodeKind::Checkbox { checked: false });
    assert!(matches!(&events[0], AppEvent::Input(i) if i.input_type == "toggle" && i.node_id == cb));
    let (redraw, _) = handle_key_for_checkbox(&mut dom, 4, &key(true, named(NamedKey::Enter)));
    assert!(redraw);
    assert_eq!(dom.nodes.get(cb).unwrap().kind, NodeKind::Checkbox { checked: true });
    dom.click_count = 3;
    dom.scroll_into_view_request = Some(cb);
    let (redraw, events) = handle_key_for_checkbox(&mut dom, 4, &key(true, named(NamedKey::Tab)));
    assert!(!redraw && events.is_empty());
    assert_eq!(dom.nodes.get(cb).unwrap().kind, NodeKind::Checkbox { checked: true });
    assert_eq!((dom.click_count, dom.scroll_into_view_request), (3, Some(cb)));
}

#[test]
fn enter_clicks_focused_button() {
    let mut dom = UiState::new();
    let b = dom.nodes.create_node(UiNode::new(NodeKind::Button));
    dom.focused_node = Some(b);
    let (redraw, events) = handle_key_for_button(&dom, 1, &key(true, named(NamedKey::Enter)));
    assert!(redraw);
    assert!(matches!(&events[0], AppEvent::Click(m) if m.node_id == b && m.button == 0 && m.buttons.is_empty()));
    let (redraw, _) = handle_key_for_button(&dom, 1, &key(false, named(NamedKey::Enter)));
    assert!(!redraw);
}

#[test]
fn tab_cycles_through_focusable_nodes() {
    let mut dom = UiState::new();
    let root = dom.nodes.create_node(UiNode::new(NodeKind::View));
    let a = dom.nodes.create_node(focusable(NodeKind::Button, Some(root)));
    let _plain = dom.nodes.create_node(UiNode::new(NodeKind::View));
    let b = dom.nodes.create_node(focusable(NodeKind::TextInput { secure: false, multiline: false }, Some(root)));
    let tab = key(true, named(NamedKey::Tab));
    let out = handle_tab_focus(&mut dom, 1, &tab, KeyModifiers::empty());
    assert!(out.consumed && out.needs_redraw);
    assert_eq!(dom.focused_node, Some(a));
    assert_eq!(out.events.len(), 1);
    let out = handle_tab_focus(&mut dom, 1, &tab, KeyModifiers::empty());
    assert_eq!(dom.focused_node, Some(b));
    assert!(matches!(&out.events[0], AppEvent::Blur(x) if x.node_id == a));
    assert!(matches!(&out.events[1], AppEvent::Focus(x) if x.node_id == b));
    assert_eq!(dom.scroll_into_view_request, Some(b));
    handle_tab_focus(&mut dom, 1, &tab, KeyModifiers::empty());
    assert_eq!(dom.focused_node, Some(a));
    handle_tab_focus(&mut dom, 1, &tab, KeyModifiers::shift());
    assert_eq!(dom.focused_node, Some(b));
    dom.click_count = 2;
    dom.last_click_node = Some(a);
    let out = handle_tab_focus(&mut dom, 1, &key(true, named(NamedKey::Enter)), KeyModifiers::empty());
    assert!(!out.consumed && out.events.is_empty());
    assert_eq!((dom.focused_node, dom.click_count, dom.last_click_node), (Some(b), 2, Some(a)));
    handle_tab_focus(&mut dom, 1, &tab, KeyModifiers::empty());
    assert_eq!((dom.click_count, dom.last_click_node), (2, Some(a)));
}

#[test]
fn tab_is_consumed_without_focusable_nodes() {
    let mut dom = UiState::new();
    dom.nodes.create_node(UiNode::new(NodeKind::View));
    let out = handle_tab_focus(&mut dom, 1, &key(true, named(NamedKey::Tab)), KeyModifiers::empty());
    assert!(out.consumed);
    assert!(!out.needs_redraw);
    assert!(out.events.is_empty());
}

#[test]
fn view_selection_shortcuts() {
    let shift = KeyModifiers::shift();
    let mut ctrl_shift = KeyModifiers::shift();
    ctrl_shift.insert(KeyModifiers::ctrl());
    let k = |n| key(true, named(n));
    assert_eq!(
        view_selection_key_action(&k(NamedKey::ArrowLeft), shift, 3, 10),
        SelectionKeyAction::ExtendTo { index: 2, affinity: Affinity::Downstream }
    );
    assert_eq!(
        view_selection_key_action(&k(NamedKey::ArrowLeft), shift, 0, 10),
        SelectionKeyAction::ExtendTo { index: 0, affinity: Affinity::Downstream }
    );
    assert_eq!(
        view_selection_key_action(&k(NamedKey::ArrowRight), shift, 10, 10),
        SelectionKeyAction::ExtendTo { index: 10, affinity: Affinity::Downstream }
    );
    assert_eq!(view_selection_key_action(&k(NamedKey::ArrowLeft), ctrl_shift, 3, 10), SelectionKeyAction::PrevWord);
    assert_eq!(view_selection_key_action(&k(NamedKey::ArrowRight), ctrl_shift, 3, 10), SelectionKeyAction::NextWord);
    assert_eq!(
        view_selection_key_action(&k(NamedKey::End), shift, 3, 10),
        SelectionKeyAction::ExtendTo { index: 10, affinity: Affinity::Upstream }
    );
    assert_eq!(
        view_selection_key_action(&k(NamedKey::Home), shift, 3, 10),
        SelectionKeyAction::ExtendTo { index: 0, affinity: Affinity::Downstream }
    );
    assert_eq!(
        view_selection_key_action(&key(true, LogicalKey::Character("A".to_string())), KeyModifiers::ctrl(), 3, 10),
        SelectionKeyAction::SelectAll
    );
    assert_eq!(view_selection_key_action(&k(NamedKey::ArrowLeft), KeyModifiers::empty(), 3, 10), SelectionKeyAction::Ignore);
    assert_eq!(view_selection_key_action(&k(NamedKey::ArrowLeft), shift, 3, 0), SelectionKeyAction::Ignore);
}

#[test]
fn key_handling_order() {
    assert_eq!(next_key_step(KeyPhase::RawDispatched { prevented: true, hot_reload: false }), KeyStep::Stop);
    assert_eq!(next_key_step(KeyPhase::RawDispatched { prevented: false, hot_reload: true }), KeyStep::Stop);
    assert_eq!(next_key_step(KeyPhase::RawDispatched { prevented: false, hot_reload: false }), KeyStep::HandleTab);
    assert_eq!(next_key_step(KeyPhase::TabHandled { consumed: true, has_clipboard_command: true }), KeyStep::Stop);
    assert_eq!(
        next_key_step(KeyPhase::TabHandled { consumed: false, has_clipboard_command: true }),
        KeyStep::DispatchClipboard
    );
    assert_eq!(
        next_key_step(KeyPhase::TabHandled { consumed: false, has_clipboard_command: false }),
        KeyStep::DispatchBeforeInput
    );
    assert_eq!(next_key_step(KeyPhase::ClipboardDispatched { prevented: false }), KeyStep::ApplyClipboardThenStop);
    assert_eq!(
        next_key_step(KeyPhase::BeforeInputDispatched { prevented: true }),
        KeyStep::RunInputHandlers { allow_edits: false }
    );
}

#[test]
fn modifiers_from_key_states() {
    let m = KeyModifiers::from_keys(true, false, true, false);
    assert_eq!(m.bits(), 5);
    assert!(m.contains(KeyModifiers::ctrl()));
    assert!(!m.contains(KeyModifiers::alt()));
}

use uzumaki::dom::{DragMode, NodeKind, ScrollAxis, UiNode, UiState};
use uzumaki::events::AppEvent;
use uzumaki::flags::{KeyModifiers, MouseButtons};
use uzumaki::hitbox::HitboxStore;
use uzumaki::input_paint::{input_paint_plan, InputPaintPlan};
use uzumaki::keyboard::{
    compute_edit_range, handle_key_for_edit_context, handle_key_for_view_selection, EditKind, EditPreview, EditRange,
    KeyEventInfo, LogicalKey, NamedKey, SelectionLayout, SelectionPosition, ShortcutEndpoints,
};
use uzumaki::mouse::{drag_view_selection, PointerButton};
use uzumaki::selection::{Affinity, SelectionEndpoint, TextSelection};
use uzumaki::wheel::{input_scroll_mode, wheel_target, InputScrollMode, ScrollThumbHit, WheelCapture, WheelTarget};
use uzumaki::window::{JsState, JsWindow, WindowPosition};
use uzumaki::window_events::{
    handle_window_input, ime_commit_event, native_window_created, resize_event, theme_event, update_held_buttons,
    window_created_events, WindowInput,
};

fn press(c: &str) -> KeyEventInfo {
    KeyEventInfo { pressed: true, logical_key: LogicalKey::Character(c.to_string()), physical_code: None, repeat: false }
}

fn ep(node: usize, offset: usize) -> SelectionEndpoint {
    SelectionEndpoint::new(node, offset, Affinity::Downstream)
}

/// A selectable paragraph (node 0) holding one text node (node 1).
fn paragraph() -> UiState {
    let mut dom = UiState::new();
    let mut root = UiNode::new(NodeKind::View);
    root.text_select_root = true;
    let p = dom.nodes.create_node(root);
    let mut text = UiNode::new(NodeKind::Text);
    text.parent = Some(p);
    dom.nodes.create_node(text);
    dom
}

fn layout(focus_index: Option<usize>, prev_word: usize, next_word: usize) -> Option<SelectionLayout> {
    Some(SelectionLayout { focus_index, prev_word, next_word })
}

#[test]
fn edit_range_of_undo_and_without_selection_is_none() {
    let mut dom = paragraph();
    assert_eq!(compute_edit_range(&dom, EditKind::DeleteBackward, layout(Some(3), 0, 5)), None);
    dom.set_selection(TextSelection::new(ep(1, 3), ep(1, 3)));
    assert_eq!(compute_edit_range(&dom, EditKind::HistoryUndo, layout(Some(3), 0, 5)), None);
    assert_eq!(compute_edit_range(&dom, EditKind::HistoryRedo, layout(Some(3), 0, 5)), None);
    assert_eq!(compute_edit_range(&dom, EditKind::DeleteBackward, None), None);
    assert_eq!(compute_edit_range(&dom, EditKind::DeleteBackward, layout(None, 0, 5)), None);
}

#[test]
fn edit_range_of_a_range_selection_is_the_selection() {
    let mut dom = paragraph();
    dom.set_selection(TextSelection::new(ep(1, 1), ep(1, 4)));
    assert_eq!(compute_edit_range(&dom, EditKind::DeleteBackward, layout(Some(4), 0, 6)), Some(EditRange::Selection));
    assert_eq!(compute_edit_range(&dom, EditKind::Other, layout(Some(4), 0, 6)), Some(EditRange::Selection));
}

#[test]
fn edit_range_widens_a_caret_for_deletions() {
    let mut dom = paragraph();
    dom.set_selection(TextSelection::new(ep(1, 3), ep(1, 3)));
    let l = layout(Some(3), 0, 6);
    assert_eq!(compute_edit_range(&dom, EditKind::DeleteBackward, l), Some(EditRange::StartAt(2)));
    assert_eq!(compute_edit_range(&dom, EditKind::DeleteForward, l), Some(EditRange::EndAt(4)));
    assert_eq!(compute_edit_range(&dom, EditKind::DeleteWordBackward, l), Some(EditRange::StartAt(0)));
    assert_eq!(compute_edit_range(&dom, EditKind::DeleteWordForward, l), Some(EditRange::EndAt(6)));
    assert_eq!(compute_edit_range(&dom, EditKind::Other, l), Some(EditRange::Selection));
    // Nothing before the caret, or the caret already on a word boundary.
    assert_eq!(compute_edit_range(&dom, EditKind::DeleteBackward, layout(Some(0), 0, 6)), Some(EditRange::Selection));
    assert_eq!(compute_edit_range(&dom, EditKind::DeleteWordBackward, layout(Some(3), 3, 6)), Some(EditRange::Selection));
    assert_eq!(compute_edit_range(&dom, EditKind::DeleteWordForward, layout(Some(3), 0, 3)), Some(EditRange::Selection));
}

#[test]
fn edit_context_key_reports_text_update() {
    let mut dom = UiState::new();
    let mut view = UiNode::new(NodeKind::View);
    view.edit_context_root = true;
    let v = dom.nodes.create_node(view);
    let plain = dom.nodes.create_node(UiNode::new(NodeKind::View));
    let preview = || Some(EditPreview { input_type: "deleteContentBackward".to_string(), data: None });
    let range = Some((ep(7, 2), ep(7, 3)));

    assert!(handle_key_for_edit_context(&dom, 1, &press("x"), preview(), range).is_empty());
    dom.focused_node = Some(plain);
    assert!(handle_key_for_edit_context(&dom, 1, &press("x"), preview(), range).is_empty());
    dom.focused_node = Some(v);
    assert!(handle_key_for_edit_context(&dom, 1, &press("x"), None, range).is_empty());
    let mut release = press("x");
    release.pressed = false;
    assert!(handle_key_for_edit_context(&dom, 1, &release, preview(), range).is_empty());

    let events = handle_key_for_edit_context(&dom, 4, &press("x"), preview(), range);
    assert_eq!(events.len(), 1);
    match &events[0] {
        AppEvent::TextUpdate(e) => {
            assert_eq!(e.window_id, 4);
            assert_eq!(e.node_id, v);
            assert_eq!(e.input_type, "deleteContentBackward");
            assert_eq!(e.data, None);
            assert_eq!((e.start_node_id, e.start_offset, e.end_node_id, e.end_offset), (Some(7), 2, Some(7), 3));
        }
        _ => panic!("expected textupdate"),
    }
    let events = handle_key_for_edit_context(&dom, 4, &press("x"), preview(), None);
    match &events[0] {
        AppEvent::TextUpdate(e) => assert_eq!((e.start_node_id, e.end_node_id), (None, None)),
        _ => panic!("expected textupdate"),
    }
}

fn thumb(node_id: usize, axis: ScrollAxis, under_pointer: bool) -> ScrollThumbHit {
    ScrollThumbHit { node_id, axis, under_pointer }
}

#[test]
fn wheel_goes_to_frontmost_view_under_pointer() {
    let thumbs = vec![
        thumb(1, ScrollAxis::Y, true),
        thumb(2, ScrollAxis::Y, true),
        thumb(3, ScrollAxis::X, true),
        thumb(4, ScrollAxis::Y, false),
    ];
    assert_eq!(wheel_target(&thumbs, None, ScrollAxis::Y), Some(WheelTarget { node_id: 2, locked: false }));
    assert_eq!(wheel_target(&thumbs, None, ScrollAxis::X), Some(WheelTarget { node_id: 3, locked: false }));
    assert_eq!(wheel_target(&vec![thumb(4, ScrollAxis::Y, false)], None, ScrollAxis::Y), None);
}

#[test]
fn fresh_wheel_capture_locks_the_gesture() {
    let thumbs = vec![thumb(1, ScrollAxis::Y, true), thumb(2, ScrollAxis::Y, true)];
    let fresh = Some(WheelCapture { node_id: 1, axis: ScrollAxis::Y, fresh: true });
    assert_eq!(wheel_target(&thumbs, fresh, ScrollAxis::Y), Some(WheelTarget { node_id: 1, locked: true }));
    // A stale capture, one on the other axis, or one whose view the pointer
    // left does not lock.
    let stale = Some(WheelCapture { node_id: 1, axis: ScrollAxis::Y, fresh: false });
    assert_eq!(wheel_target(&thumbs, stale, ScrollAxis::Y), Some(WheelTarget { node_id: 2, locked: false }));
    let other_axis = Some(WheelCapture { node_id: 1, axis: ScrollAxis::X, fresh: true });
    assert_eq!(wheel_target(&thumbs, other_axis, ScrollAxis::Y), Some(WheelTarget { node_id: 2, locked: false }));
    let left = vec![thumb(1, ScrollAxis::Y, false), thumb(2, ScrollAxis::Y, true)];
    assert_eq!(wheel_target(&left, fresh, ScrollAxis::Y), Some(WheelTarget { node_id: 2, locked: false }));
}

#[test]
fn caret_scroll_mode_follows_input_shape() {
    assert_eq!(input_scroll_mode(true, true, 5, 5), InputScrollMode::Vertical);
    assert_eq!(input_scroll_mode(false, true, 5, 5), InputScrollMode::SingleLineEnd);
    assert_eq!(input_scroll_mode(false, true, 2, 5), InputScrollMode::Horizontal);
    assert_eq!(input_scroll_mode(false, false, 5, 5), InputScrollMode::Horizontal);
}

#[test]
fn resize_reported_only_for_nonempty_size() {
    match resize_event(2, Some((800, 600))) {
        Some(AppEvent::Resize(e)) => assert_eq!((e.window_id, e.width, e.height), (2, 800, 600)),
        _ => panic!("expected resize"),
    }
    assert!(resize_event(2, Some((0, 600))).is_none());
    assert!(resize_event(2, Some((800, 0))).is_none());
    assert!(resize_event(2, None).is_none());
}

#[test]
fn theme_event_names_the_theme() {
    match theme_event(1, true) {
        AppEvent::ThemeChanged(e) => assert_eq!((e.window_id, e.theme.as_str()), (1, "dark")),
        _ => panic!("expected theme change"),
    }
    match theme_event(1, false) {
        AppEvent::ThemeChanged(e) => assert_eq!(e.theme, "light"),
        _ => panic!("expected theme change"),
    }
}

#[test]
fn ime_commit_reported_for_focused_input() {
    let mut dom = UiState::new();
    let input = dom.nodes.create_node(UiNode::new(NodeKind::TextInput { secure: false, multiline: false }));
    let view = dom.nodes.create_node(UiNode::new(NodeKind::View));
    assert!(ime_commit_event(&dom, 1, "ka".to_string(), true).is_none());
    dom.focused_node = Some(view);
    assert!(ime_commit_event(&dom, 1, "ka".to_string(), true).is_none());
    dom.focused_node = Some(input);
    assert!(ime_commit_event(&dom, 1, "ka".to_string(), false).is_none());
    match ime_commit_event(&dom, 1, "ka".to_string(), true) {
        Some(AppEvent::Input(e)) => {
            assert_eq!(e.node_id, input);
            assert_eq!(e.input_type, "insertCompositionText");
            assert_eq!(e.data.as_deref(), Some("ka"));
        }
        _ => panic!("expected input"),
    }
}

#[test]
fn held_buttons_follow_presses() {
    let held = update_held_buttons(MouseButtons::empty(), true, PointerButton::Left);
    assert_eq!(held.bits(), 1);
    let held = update_held_buttons(held, true, PointerButton::Middle);
    assert_eq!(held.bits(), 5);
    let held = update_held_buttons(held, false, PointerButton::Left);
    assert_eq!(held.bits(), 4);
    assert_eq!(update_held_buttons(held, true, PointerButton::Other).bits(), 4);
}

#[test]
fn hitbox_ids_count_up_from_zero() {
    let mut store: HitboxStore<u8> = HitboxStore::new();
    assert_eq!(store.next_id(), 0);
    let a = store.insert(3, 0);
    let b = store.insert(4, 0);
    assert_eq!((a.0, b.0, store.next_id()), (0, 1, 2));
    store.clear();
    assert_eq!(store.next_id(), 0);
}

fn shift_key(named: NamedKey) -> KeyEventInfo {
    KeyEventInfo { pressed: true, logical_key: LogicalKey::Named(named), physical_code: None, repeat: false }
}

#[test]
fn view_selection_shortcut_moves_focus_and_reports_change() {
    let mut dom = paragraph();
    dom.set_selection(TextSelection::new(ep(1, 2), ep(1, 2)));
    let pos = Some(SelectionPosition { root: 0, active: 2, run_len: 5 });
    let target = SelectionEndpoint::new(1, 3, Affinity::Downstream);
    let ends = ShortcutEndpoints { target: Some(target), run_start: None, run_end: None };
    let (redraw, events) =
        handle_key_for_view_selection(&mut dom, 9, &shift_key(NamedKey::ArrowRight), KeyModifiers::shift(), pos, ends);
    assert!(redraw);
    assert_eq!(dom.text_selection, TextSelection::new(ep(1, 2), target));
    assert_eq!(events.len(), 1);
    match &events[0] {
        AppEvent::SelectionChange(e) => {
            assert_eq!(e.window_id, 9);
            assert_eq!((e.anchor_node_id, e.anchor_offset), (Some(1), 2));
            assert_eq!((e.focus_node_id, e.focus_offset), (Some(1), 3));
            assert!(!e.is_collapsed);
        }
        _ => panic!("expected selectionchange"),
    }
    // Without Shift the arrow is no shortcut: nothing moves.
    let (redraw, events) =
        handle_key_for_view_selection(&mut dom, 9, &shift_key(NamedKey::ArrowRight), KeyModifiers::empty(), pos, ends);
    assert!(!redraw);
    assert!(events.is_empty());
    // A shortcut whose endpoint the layout could not give redraws but moves nothing.
    let none = ShortcutEndpoints { target: None, run_start: None, run_end: None };
    let (redraw, events) =
        handle_key_for_view_selection(&mut dom, 9, &shift_key(NamedKey::Home), KeyModifiers::shift(), pos, none);
    assert!(redraw);
    assert!(events.is_empty());
}

#[test]
fn select_all_spans_the_run() {
    let mut dom = paragraph();
    dom.set_selection(TextSelection::new(ep(1, 2), ep(1, 2)));
    let start = SelectionEndpoint::new(1, 0, Affinity::Downstream);
    let end = SelectionEndpoint::new(1, 5, Affinity::Upstream);
    let ends = ShortcutEndpoints { target: None, run_start: Some(start), run_end: Some(end) };
    let pos = Some(SelectionPosition { root: 0, active: 2, run_len: 5 });
    let (redraw, events) = handle_key_for_view_selection(&mut dom, 1, &press("a"), KeyModifiers::ctrl(), pos, ends);
    assert!(redraw);
    assert_eq!(dom.text_selection, TextSelection::new(start, end));
    assert_eq!(events.len(), 1);
    // Released keys and unknown positions do nothing.
    let mut release = press("a");
    release.pressed = false;
    assert_eq!(handle_key_for_view_selection(&mut dom, 1, &release, KeyModifiers::ctrl(), pos, ends).0, false);
    assert_eq!(handle_key_for_view_selection(&mut dom, 1, &press("a"), KeyModifiers::ctrl(), None, ends).0, false);
}

#[test]
fn drag_moves_view_selection_focus() {
    let mut dom = paragraph();
    dom.set_selection(TextSelection::new(ep(1, 1), ep(1, 1)));
    let hit = Some(ep(1, 4));
    // Not dragging yet, or no button held: nothing happens.
    assert!(!drag_view_selection(&mut dom, MouseButtons::left(), hit));
    dom.drag_mode = DragMode::ViewSelection(0);
    assert!(!drag_view_selection(&mut dom, MouseButtons::empty(), hit));
    assert!(!drag_view_selection(&mut dom, MouseButtons::left(), None));
    assert_eq!(dom.text_selection, TextSelection::new(ep(1, 1), ep(1, 1)));
    assert!(drag_view_selection(&mut dom, MouseButtons::left(), hit));
    assert_eq!(dom.text_selection, TextSelection::new(ep(1, 1), ep(1, 4)));
    // A drag in another run redraws but leaves the selection alone.
    dom.drag_mode = DragMode::ViewSelection(1);
    assert!(drag_view_selection(&mut dom, MouseButtons::left(), Some(ep(1, 0))));
    assert_eq!(dom.text_selection, TextSelection::new(ep(1, 1), ep(1, 4)));
}

#[test]
fn input_paint_layers() {
    let none = InputPaintPlan { placeholder: false, selection: false, text: false, caret_geometry: false, preedit: false, caret: false };
    assert_eq!(input_paint_plan(false, false, false, true, true, false), none);
    // Empty input with a placeholder, focused, caret visible.
    assert_eq!(
        input_paint_plan(true, true, false, true, true, false),
        InputPaintPlan { placeholder: true, selection: false, text: false, caret_geometry: true, preedit: false, caret: true }
    );
    // Text, unfocused, caret hidden.
    assert_eq!(
        input_paint_plan(true, false, false, false, false, false),
        InputPaintPlan { placeholder: false, selection: false, text: true, caret_geometry: false, preedit: false, caret: false }
    );
    // Composing: preedit instead of the caret, geometry looked up even off-blink.
    assert_eq!(
        input_paint_plan(true, false, true, true, false, true),
        InputPaintPlan { placeholder: false, selection: true, text: true, caret_geometry: true, preedit: true, caret: false }
    );
}

#[test]
fn created_window_reports_theme_then_load() {
    let events = window_created_events(3, Some(true));
    assert_eq!(events.len(), 2);
    assert!(matches!(&events[0], AppEvent::ThemeChanged(e) if e.theme == "dark" && e.window_id == 3));
    assert!(matches!(&events[1], AppEvent::WindowLoad(e) if e.window_id == 3));
    let events = window_created_events(3, None);
    assert_eq!(events.len(), 1);
    assert!(matches!(&events[0], AppEvent::WindowLoad(_)));
}

#[test]
fn external_memory_delta_is_reported_once() {
    let mut state = JsState::new();
    assert_eq!(state.take_external_memory_delta(), None);
    state.external_memory_delta = -4096;
    assert_eq!(state.take_external_memory_delta(), Some(-4096));
    assert_eq!(state.external_memory_delta, 0);
    assert_eq!(state.take_external_memory_delta(), None);
}

#[test]
fn dropped_window_is_forgotten() {
    let mut state = JsState::new();
    state.windows.insert(1, JsWindow::new());
    state.windows.insert(2, JsWindow::new());
    state.drop_window(1);
    assert!(!state.windows.contains_key(&1));
    assert!(state.windows.contains_key(&2));
    state.drop_window(7);
    assert_eq!(state.windows.len(), 1);
}

#[test]
fn window_inputs_update_record_and_report() {
    let mut w = JsWindow::new();
    let r = handle_window_input(&mut w, 2, WindowInput::Focused(true));
    assert!(r.events.is_empty() && r.needs_redraw && r.restart_blink && r.refresh_ime_area && !r.close_native_window);
    assert!(w.record.focused && w.dom.window_focused);
    let r = handle_window_input(&mut w, 2, WindowInput::Focused(false));
    assert!(r.restart_blink && !r.refresh_ime_area);
    assert!(!w.record.focused && !w.dom.window_focused);

    handle_window_input(&mut w, 2, WindowInput::ModifiersChanged(KeyModifiers::shift()));
    assert_eq!(w.modifiers, KeyModifiers::shift());
    handle_window_input(&mut w, 2, WindowInput::Moved { x: 10, y: -4 });
    assert_eq!(w.record.outer_position, Some(WindowPosition { x: 10, y: -4 }));

    let r = handle_window_input(&mut w, 2, WindowInput::ThemeChanged { dark: false });
    assert_eq!(w.record.dark_theme, Some(false));
    assert!(matches!(&r.events[..], [AppEvent::ThemeChanged(e)] if e.theme == "light"));

    let r = handle_window_input(&mut w, 2, WindowInput::Resized { logical_size: Some((640, 480)) });
    assert!(matches!(&r.events[..], [AppEvent::Resize(e)] if e.width == 640 && e.height == 480));
    assert!(handle_window_input(&mut w, 2, WindowInput::Resized { logical_size: Some((0, 480)) }).events.is_empty());

    w.dom.hit_state.hovered_nodes.push(0);
    w.dom.hit_state.top_node = Some(0);
    let r = handle_window_input(&mut w, 2, WindowInput::CursorLeft);
    assert!(r.reset_cursor && r.needs_redraw);
    assert!(w.dom.hit_state.hovered_nodes.is_empty() && w.dom.hit_state.top_node.is_none());

    let events = native_window_created(&mut w, 2, Some(true));
    assert!(w.record.native_window);
    assert_eq!(w.record.dark_theme, Some(true));
    assert_eq!(events.len(), 2);
    let r = handle_window_input(&mut w, 2, WindowInput::CloseRequested);
    assert!(r.close_native_window);
    assert!(!w.record.native_window);
    assert!(matches!(&r.events[..], [AppEvent::WindowClose(e)] if e.window_id == 2));
    // The document stays until the script side lets go.
    assert_eq!(w.dom.nodes.len(), 1);
}

use uzumaki::dom::{CursorIcon, DragMode, NodeKind, ScrollAxis, UiNode, UiState};
use uzumaki::events::AppEvent;
use uzumaki::flags::MouseButtons;
use uzumaki::mouse::{
    button_bit, button_number, handle_cursor_moved, handle_mouse_input, hover_transition_events,
    click_select, register_click, resolve_pointer_cursor, ClickSelect, PointerButton, PointerFollowUp, PointerHit,
};
use uzumaki::selection::{Affinity, SelectionEndpoint, TextSelection};

/// A rectangle in window coordinates, for the tests' own hit checks.
struct Rect {
    x: f64,
    y: f64,
    w: f64,
    h: f64,
}

impl Rect {
    fn contains(&self, px: f64, py: f64) -> bool {
        px >= self.x && px <= self.x + self.w && py >= self.y && py <= self.y + self.h
    }
}

fn node(kind: NodeKind, parent: Option<usize>) -> UiNode {
    let mut n = UiNode::new(kind);
    n.parent = parent;
    n
}

fn hit(pointer_known: bool) -> PointerHit {
    PointerHit {
        pointer_known,
        thumb: None,
        recent_click: false,
        input_has_hitbox: true,
        run_hit: None,
    }
}

// The scrollbar thumb paints over content without being a hit-tree node, so
// the cursor must come from the thumb rather than the selectable text
// underneath it.
#[test]
fn pointer_cursor_is_default_over_scroll_thumb() {
    let mut dom = UiState::new();
    let mut n = UiNode::new(NodeKind::View);
    n.cursor = Some(CursorIcon::Text);
    let id = dom.nodes.create_node(n);
    dom.hit_state.top_node = Some(id);
    let thumb = Rect { x: 190.0, y: 50.0, w: 10.0, h: 60.0 };

    assert_eq!(
        resolve_pointer_cursor(&dom, thumb.contains(194.0, 80.0)),
        CursorIcon::Default
    );
    assert_eq!(resolve_pointer_cursor(&dom, thumb.contains(20.0, 80.0)), CursorIcon::Text);
}

// A thumb drag may move the pointer off the thumb rect, but the cursor must
// stay the default arrow for the whole drag.
#[test]
fn pointer_cursor_is_default_while_dragging_thumb() {
    let mut dom = UiState::new();
    let mut n = UiNode::new(NodeKind::View);
    n.cursor = Some(CursorIcon::Text);
    let id = dom.nodes.create_node(n);
    dom.hit_state.top_node = Some(id);
    dom.drag_mode = DragMode::ScrollbarThumb { node_id: id, axis: ScrollAxis::Y };
    let thumb = Rect { x: 190.0, y: 50.0, w: 10.0, h: 60.0 };

    assert_eq!(
        resolve_pointer_cursor(&dom, thumb.contains(20.0, 80.0)),
        CursorIcon::Default
    );
}

#[test]
fn cursor_is_inherited_from_ancestor() {
    let mut dom = UiState::new();
    let mut outer = UiNode::new(NodeKind::View);
    outer.cursor = Some(CursorIcon::Pointer);
    let a = dom.nodes.create_node(outer);
    let b = dom.nodes.create_node(node(NodeKind::Text, Some(a)));
    dom.hit_state.top_node = Some(b);
    assert_eq!(resolve_pointer_cursor(&dom, false), CursorIcon::Pointer);
    dom.hit_state.top_node = None;
    assert_eq!(resolve_pointer_cursor(&dom, false), CursorIcon::Default);
}

#[test]
fn hover_transition_between_siblings() {
    // root(0) -> a(1) -> a1(2); root -> b(3)
    let mut dom = UiState::new();
    let root = dom.nodes.create_node(node(NodeKind::View, None));
    let a = dom.nodes.create_node(node(NodeKind::View, Some(root)));
    let a1 = dom.nodes.create_node(node(NodeKind::View, Some(a)));
    let b = dom.nodes.create_node(node(NodeKind::View, Some(root)));
    let events = hover_transition_events(&dom, 7, Some(a1), Some(b), MouseButtons::empty());
    let kinds: Vec<(&str, usize, Option<usize>)> = events
        .iter()
        .map(|e| match e {
            AppEvent::MouseOut(m) => ("out", m.node_id, m.related_node_id),
            AppEvent::MouseOver(m) => ("over", m.node_id, m.related_node_id),
            AppEvent::MouseLeave(m) => ("leave", m.node_id, m.related_node_id),
            AppEvent::MouseEnter(m) => ("enter", m.node_id, m.related_node_id),
            _ => ("other", 0, None),
        })
        .collect();
    assert_eq!(
        kinds,
        vec![
            ("out", a1, Some(b)),
            ("over", b, Some(a1)),
            ("leave", a1, Some(b)),
            ("leave", a, Some(b)),
            ("enter", b, Some(a1)),
        ]
    );
}

#[test]
fn hover_transition_from_nothing_enters_outermost_first() {
    let mut dom = UiState::new();
    let root = dom.nodes.create_node(node(NodeKind::View, None));
    let a = dom.nodes.create_node(node(NodeKind::View, Some(root)));
    let events = hover_transition_events(&dom, 1, None, Some(a), MouseButtons::empty());
    let ids: Vec<(bool, usize)> = events
        .iter()
        .map(|e| match e {
            AppEvent::MouseOver(m) => (false, m.node_id),
            AppEvent::MouseEnter(m) => (true, m.node_id),
            _ => panic!("unexpected event"),
        })
        .collect();
    assert_eq!(ids, vec![(false, a), (true, root), (true, a)]);
}

#[test]
fn hover_transition_same_node_is_silent() {
    let mut dom = UiState::new();
    let root = dom.nodes.create_node(node(NodeKind::View, None));
    assert!(hover_transition_events(&dom, 1, Some(root), Some(root), MouseButtons::empty()).is_empty());
    assert!(hover_transition_events(&dom, 1, None, None, MouseButtons::empty()).is_empty());
}

#[test]
fn cursor_moved_reports_move_after_transition() {
    let mut dom = UiState::new();
    let root = dom.nodes.create_node(node(NodeKind::View, None));
    dom.hit_state.top_node = Some(root);
    let (redraw, events) = handle_cursor_moved(&dom, 2, Some(root), MouseButtons::left());
    assert!(!redraw);
    assert_eq!(events.len(), 1);
    match &events[0] {
        AppEvent::MouseMove(m) => {
            assert_eq!(m.node_id, root);
            assert_eq!(m.buttons, MouseButtons::left());
        }
        _ => panic!("expected mousemove"),
    }
    let (redraw, events) = handle_cursor_moved(&dom, 2, None, MouseButtons::empty());
    assert!(redraw);
    assert!(matches!(events.last(), Some(AppEvent::MouseMove(_))));
}

#[test]
fn button_numbers_and_bits() {
    assert_eq!(button_number(PointerButton::Left), 0);
    assert_eq!(button_number(PointerButton::Middle), 1);
    assert_eq!(button_number(PointerButton::Right), 2);
    assert_eq!(button_number(PointerButton::Other), 0);
    assert_eq!(button_bit(PointerButton::Right).bits(), 2);
    assert_eq!(button_bit(PointerButton::Other).bits(), 0);
}

#[test]
fn click_count_grows_to_four_then_resets() {
    let mut dom = UiState::new();
    register_click(&mut dom, 3, false);
    assert_eq!(dom.click_count, 1);
    register_click(&mut dom, 3, true);
    register_click(&mut dom, 3, true);
    register_click(&mut dom, 3, true);
    register_click(&mut dom, 3, true);
    assert_eq!(dom.click_count, 4);
    register_click(&mut dom, 4, true);
    assert_eq!(dom.click_count, 1);
    assert_eq!(dom.last_click_node, Some(4));
}

#[test]
fn unknown_pointer_position_does_nothing() {
    let mut dom = UiState::new();
    let root = dom.nodes.create_node(node(NodeKind::View, None));
    dom.hit_state.top_node = Some(root);
    let (redraw, events, follow) =
        handle_mouse_input(&mut dom, 1, true, PointerButton::Left, MouseButtons::left(), &hit(false));
    assert!(!redraw);
    assert!(events.is_empty());
    assert_eq!(follow, PointerFollowUp::Nothing);
    assert_eq!(dom.hit_state.active_node, None);
}

#[test]
fn press_on_thumb_starts_thumb_drag_only() {
    let mut dom = UiState::new();
    let root = dom.nodes.create_node(node(NodeKind::View, None));
    dom.hit_state.top_node = Some(root);
    let mut h = hit(true);
    h.thumb = Some((root, ScrollAxis::Y));
    let (redraw, events, _) = handle_mouse_input(&mut dom, 1, true, PointerButton::Left, MouseButtons::left(), &h);
    assert!(redraw);
    assert!(events.is_empty());
    assert_eq!(dom.drag_mode, DragMode::ScrollbarThumb { node_id: root, axis: ScrollAxis::Y });
    // releasing the left button ends the thumb drag
    let (_, events, _) = handle_mouse_input(&mut dom, 1, false, PointerButton::Left, MouseButtons::empty(), &hit(true));
    assert_eq!(dom.drag_mode, DragMode::Idle);
    assert!(matches!(events[0], AppEvent::MouseUp(_)));
}

#[test]
fn press_and_release_on_checkbox_toggles_and_clicks() {
    let mut dom = UiState::new();
    let root = dom.nodes.create_node(node(NodeKind::View, None));
    let cb = dom.nodes.create_node(node(NodeKind::Checkbox { checked: false }, Some(root)));
    dom.hit_state.top_node = Some(cb);
    dom.hit_state.hovered_nodes = vec![root, cb];
    let (_, events, _) = handle_mouse_input(&mut dom, 1, true, PointerButton::Left, MouseButtons::left(), &hit(true));
    assert_eq!(dom.hit_state.active_node, Some(cb));
    assert!(matches!(events[0], AppEvent::MouseDown(_)));
    let (redraw, events, _) =
        handle_mouse_input(&mut dom, 1, false, PointerButton::Left, MouseButtons::empty(), &hit(true));
    assert!(redraw);
    assert_eq!(events.len(), 3);
    assert!(matches!(events[0], AppEvent::MouseUp(_)));
    match &events[1] {
        AppEvent::Input(i) => {
            assert_eq!(i.input_type, "toggle");
            assert_eq!(i.node_id, cb);
            assert_eq!(i.data, None);
        }
        _ => panic!("expected input"),
    }
    match &events[2] {
        AppEvent::Click(m) => assert_eq!(m.node_id, cb),
        _ => panic!("expected click"),
    }
    assert_eq!(dom.nodes.get(cb).unwrap().kind, NodeKind::Checkbox { checked: true });
    assert_eq!(dom.hit_state.active_node, None);
}

#[test]
fn release_away_from_pressed_node_does_not_click() {
    let mut dom = UiState::new();
    let root = dom.nodes.create_node(node(NodeKind::View, None));
    let a = dom.nodes.create_node(node(NodeKind::View, Some(root)));
    dom.hit_state.top_node = Some(a);
    dom.hit_state.hovered_nodes = vec![root, a];
    handle_mouse_input(&mut dom, 1, true, PointerButton::Left, MouseButtons::left(), &hit(true));
    dom.hit_state.top_node = Some(root);
    dom.hit_state.hovered_nodes = vec![root];
    let (_, events, _) = handle_mouse_input(&mut dom, 1, false, PointerButton::Left, MouseButtons::empty(), &hit(true));
    assert_eq!(events.len(), 1);
    assert!(matches!(events[0], AppEvent::MouseUp(_)));
}

#[test]
fn press_inside_button_activates_the_button() {
    let mut dom = UiState::new();
    let root = dom.nodes.create_node(node(NodeKind::View, None));
    let button = dom.nodes.create_node(node(NodeKind::Button, Some(root)));
    let label = dom.nodes.create_node(node(NodeKind::Text, Some(button)));
    dom.hit_state.top_node = Some(label);
    handle_mouse_input(&mut dom, 1, true, PointerButton::Right, MouseButtons::right(), &hit(true));
    assert_eq!(dom.hit_state.active_node, Some(button));
}

#[test]
fn press_on_input_focuses_it_and_blurs_the_old_focus() {
    let mut dom = UiState::new();
    let root = dom.nodes.create_node(node(NodeKind::View, None));
    let a = dom.nodes.create_node(node(NodeKind::TextInput { secure: false, multiline: false }, Some(root)));
    let b = dom.nodes.create_node(node(NodeKind::TextInput { secure: false, multiline: false }, Some(root)));
    dom.focused_node = Some(a);
    dom.hit_state.top_node = Some(b);
    let (_, events, follow) =
        handle_mouse_input(&mut dom, 9, true, PointerButton::Left, MouseButtons::left(), &hit(true));
    assert_eq!(events.len(), 3);
    assert!(matches!(&events[1], AppEvent::Blur(f) if f.node_id == a && f.window_id == 9));
    assert!(matches!(&events[2], AppEvent::Focus(f) if f.node_id == b));
    assert_eq!(dom.focused_node, Some(b));
    assert_eq!(dom.drag_mode, DragMode::InputSelection(b));
    assert_eq!(follow, PointerFollowUp::PlaceInputCaret { node: b, select: ClickSelect::Caret });
}

#[test]
fn press_on_plain_view_blurs_and_clears_selection() {
    let mut dom = UiState::new();
    let root = dom.nodes.create_node(node(NodeKind::View, None));
    let input = dom.nodes.create_node(node(NodeKind::TextInput { secure: false, multiline: true }, Some(root)));
    dom.focused_node = Some(input);
    let e = SelectionEndpoint::new(root, 0, Affinity::Downstream);
    let f = SelectionEndpoint::new(root, 3, Affinity::Downstream);
    dom.text_selection = TextSelection::new(e, f);
    dom.hit_state.top_node = Some(root);
    let (_, events, _) = handle_mouse_input(&mut dom, 1, true, PointerButton::Left, MouseButtons::left(), &hit(true));
    assert_eq!(events.len(), 2);
    assert!(matches!(&events[1], AppEvent::Blur(b) if b.node_id == input));
    assert_eq!(dom.focused_node, None);
    assert_eq!(dom.text_selection, TextSelection::empty());
}

#[test]
fn press_in_selectable_text_places_collapsed_selection() {
    let mut dom = UiState::new();
    let mut p = node(NodeKind::View, None);
    p.text_select_root = true;
    let para = dom.nodes.create_node(p);
    let text = dom.nodes.create_node(node(NodeKind::Text, Some(para)));
    dom.hit_state.top_node = Some(text);
    let endpoint = SelectionEndpoint::new(text, 4, Affinity::Downstream);
    let mut h = hit(true);
    h.run_hit = Some(endpoint);
    let (_, _, follow) = handle_mouse_input(&mut dom, 1, true, PointerButton::Left, MouseButtons::left(), &h);
    assert_eq!(follow, PointerFollowUp::Nothing);
    assert_eq!(dom.text_selection, TextSelection::new(endpoint, endpoint));
    assert_eq!(dom.drag_mode, DragMode::ViewSelection(para));
    // a quick second click asks the caller to select the word
    h.recent_click = true;
    let (_, _, follow) = handle_mouse_input(&mut dom, 1, true, PointerButton::Left, MouseButtons::left(), &h);
    assert_eq!(follow, PointerFollowUp::SelectInRun { root: para, hit: endpoint, select: ClickSelect::Word });
    // release ends the selection drag
    handle_mouse_input(&mut dom, 1, false, PointerButton::Left, MouseButtons::empty(), &hit(true));
    assert_eq!(dom.drag_mode, DragMode::Idle);
}

#[test]
fn click_runs_select_caret_word_line_all() {
    assert_eq!(click_select(1), ClickSelect::Caret);
    assert_eq!(click_select(2), ClickSelect::Word);
    assert_eq!(click_select(3), ClickSelect::Line);
    assert_eq!(click_select(4), ClickSelect::All);
    assert_eq!(click_select(0), ClickSelect::Caret);
}

use std::collections::HashMap;
use std::collections::VecDeque;

use uzumaki::dom::{NodeKind, NodeTree, UiNode, UiState, VarBinding};
use uzumaki::events::{selection_change_event, AppEvent};
use uzumaki::hitbox::{HitTestState, HitboxId, HitboxStore, Interactivity, StyleSlot};
use uzumaki::perf::{latest, log_due, record_layout_passes, record_paint, FrameTimings, TimeSpan};
use uzumaki::selection::{endpoint_for_layout_byte, range_endpoints, run_hit_endpoint, Affinity, SelectionEndpoint, TextRunEntry, TextSelectRun, TextSelection};
use uzumaki::window::{JsState, JsWindow, VarTable};

fn child(kind: NodeKind, parent: usize) -> UiNode {
    let mut n = UiNode::new(kind);
    n.parent = Some(parent);
    n
}

#[test]
fn ancestor_path_is_innermost_first() {
    let mut dom = UiState::new();
    let root = dom.nodes.create_node(UiNode::new(NodeKind::View));
    let a = dom.nodes.create_node(child(NodeKind::View, root));
    let b = dom.nodes.create_node(child(NodeKind::Text, a));
    assert_eq!(dom.nodes.ancestor_path(b), vec![b, a, root]);
    assert_eq!(dom.nodes.ancestor_path(99), vec![99]);
    assert!(dom.nodes.is_connected(Some(root), b));
    dom.nodes.destroy_node(a);
    assert_eq!(dom.nodes.ancestor_path(b), vec![b, a]);
    assert!(!dom.nodes.is_connected(Some(root), b));
}

#[test]
fn hitbox_ids_are_sequential_and_found() {
    let mut store: HitboxStore<(f64, f64, f64, f64)> = HitboxStore::new();
    let a = store.insert(1, (0.0, 0.0, 10.0, 10.0));
    let b = store.insert(2, (5.0, 5.0, 10.0, 10.0));
    assert_eq!(a, HitboxId(0));
    assert_eq!(b, HitboxId(1));
    assert_eq!(store.get(b).unwrap().node_id, 2);
    assert!(store.get(HitboxId(7)).is_none());
    store.retain_by_node(|n| n != 1);
    assert_eq!(store.hitboxes().len(), 1);
    assert!(store.get(a).is_none());
    store.clear();
    assert_eq!(store.insert(3, (0.0, 0.0, 1.0, 1.0)), HitboxId(0));
}

#[test]
fn hit_test_orders_nodes_back_to_front() {
    let mut store: HitboxStore<()> = HitboxStore::new();
    store.insert(10, ());
    store.insert(20, ());
    store.insert(10, ());
    store.insert(30, ());
    let state = store.hit_test(&vec![true, true, true, false]);
    assert_eq!(state.hovered_nodes, vec![20, 10]);
    assert_eq!(state.top_node, Some(10));
    assert_eq!(state.active_node, None);
    let none = store.hit_test(&vec![false, false, false, false]);
    assert!(none.hovered_nodes.is_empty());
    assert_eq!(none.top_node, None);
}

#[test]
fn active_needs_hover() {
    let mut s = HitTestState::new();
    s.hovered_nodes = vec![1, 2];
    s.active_node = Some(2);
    assert!(s.is_active(2));
    assert!(!s.is_active(1));
    s.hovered_nodes = vec![1];
    assert!(!s.is_active(2));
}

#[test]
fn style_slots_are_created_on_demand() {
    let mut it: Interactivity<u32> = Interactivity::new(1);
    *it.style_for(StyleSlot::Hover, 0) += 5;
    assert_eq!(it.hover_style.as_deref(), Some(&5));
    *it.style_for(StyleSlot::Hover, 0) += 1;
    assert_eq!(it.hover_style.as_deref(), Some(&6));
    *it.style_for(StyleSlot::Base, 0) = 9;
    assert_eq!(*it.base_style, 9);
    assert!(it.focus_style.is_none());
}

#[test]
fn layout_byte_maps_to_entry() {
    let run = TextSelectRun {
        root_id: 0,
        entries: vec![
            TextRunEntry { node_id: 11, layout_node_id: 5, flat_byte_start: 0, byte_len: 4 },
            TextRunEntry { node_id: 12, layout_node_id: 5, flat_byte_start: 4, byte_len: 6 },
            TextRunEntry { node_id: 13, layout_node_id: 6, flat_byte_start: 0, byte_len: 3 },
        ],
        total_graphemes: 13,
    };
    assert_eq!(
        endpoint_for_layout_byte(&run, 5, 7, Affinity::Upstream),
        Some(SelectionEndpoint::new(12, 3, Affinity::Upstream))
    );
    assert_eq!(
        endpoint_for_layout_byte(&run, 5, 4, Affinity::Downstream),
        Some(SelectionEndpoint::new(11, 4, Affinity::Downstream))
    );
    assert_eq!(
        endpoint_for_layout_byte(&run, 6, 50, Affinity::Downstream),
        Some(SelectionEndpoint::new(13, 3, Affinity::Downstream))
    );
    assert_eq!(endpoint_for_layout_byte(&run, 9, 0, Affinity::Downstream), None);
}

#[test]
fn selection_change_only_when_endpoints_move() {
    let a = SelectionEndpoint::new(1, 2, Affinity::Downstream);
    let b = SelectionEndpoint::new(1, 5, Affinity::Upstream);
    let s1 = TextSelection::new(a, a);
    let s2 = TextSelection::new(a, b);
    let s1_other_affinity = TextSelection::new(a, SelectionEndpoint::new(1, 2, Affinity::Upstream));
    assert!(selection_change_event(1, &s1, &s1_other_affinity).is_none());
    match selection_change_event(4, &s1, &s2) {
        Some(AppEvent::SelectionChange(e)) => {
            assert_eq!(e.window_id, 4);
            assert_eq!(e.anchor_node_id, Some(1));
            assert_eq!(e.anchor_offset, 2);
            assert_eq!(e.focus_offset, 5);
            assert!(!e.is_collapsed);
        }
        _ => panic!("expected selectionchange"),
    }
    match selection_change_event(4, &s2, &TextSelection::empty()) {
        Some(AppEvent::SelectionChange(e)) => {
            assert_eq!(e.anchor_node_id, None);
            assert_eq!(e.anchor_offset, 0);
            assert!(e.is_collapsed);
        }
        _ => panic!("expected selectionchange"),
    }
}

#[test]
fn frame_timings_total_and_recording() {
    let mut t = FrameTimings::zero();
    t.styles = TimeSpan::from_millis(2);
    t.layout = TimeSpan::new(1, 999_999_999);
    t.paint = TimeSpan::from_millis(1);
    let total = t.total();
    assert_eq!(total.as_secs(), 2);
    assert_eq!(total.subsec_nanos(), 2_999_999);
    assert_eq!(total.as_nanos(), 2_002_999_999);
    let mut slot = FrameTimings::default();
    record_layout_passes(&mut slot, t);
    let done = record_paint(&mut slot, TimeSpan::from_millis(7));
    assert_eq!(done.paint.as_nanos(), 7_000_000);
    assert_eq!(latest(Some(&slot)).styles.as_nanos(), 2_000_000);
    assert_eq!(latest(None).total().as_nanos(), 0);
}

#[test]
fn time_span_overflow_is_detected() {
    let big = TimeSpan::new(u64::MAX, 999_999_999);
    assert!(big.checked_add(&TimeSpan::new(0, 1)).is_none());
    assert_eq!(TimeSpan::new(3, 1_500_000_000).as_nanos(), 4_500_000_000);
}

#[test]
fn timing_log_is_throttled() {
    assert!(log_due(None));
    assert!(!log_due(Some(TimeSpan::from_millis(499))));
    assert!(log_due(Some(TimeSpan::from_millis(500))));
}

#[test]
fn drain_frees_detached_and_keeps_attached() {
    let mut state = JsState::new();
    let mut w = JsWindow::new();
    let root = w.dom.root.unwrap();
    let attached = w.dom.nodes.create_node(child(NodeKind::View, root));
    let detached = w.dom.nodes.create_node(UiNode::new(NodeKind::View));
    let detached_child = w.dom.nodes.create_node(child(NodeKind::Text, detached));
    state.windows.insert(1, w);
    let mut q = VecDeque::new();
    q.push_back((1u32, detached));
    q.push_back((1u32, attached));
    q.push_back((1u32, detached_child));
    q.push_back((2u32, attached));
    q.push_back((1u32, 77));
    state.pending_destroy = q;
    state.drain_pending_destroy();
    let w = state.windows.get(&1).unwrap();
    assert!(!w.dom.nodes.contains(detached));
    assert!(!w.dom.nodes.contains(detached_child));
    assert!(w.dom.nodes.contains(attached));
    assert_eq!(state.pending_destroy.iter().copied().collect::<Vec<_>>(), vec![(1u32, attached)]);
}

#[test]
fn var_table_set_get_remove() {
    let mut v = VarTable::new();
    v.insert("bg".to_string(), "#000".to_string());
    v.insert("fg".to_string(), "#fff".to_string());
    v.insert("bg".to_string(), "#111".to_string());
    assert_eq!(v.get("bg"), Some("#111".to_string()));
    v.remove("bg");
    assert_eq!(v.get("bg"), None);
    assert_eq!(v.get("fg"), Some("#fff".to_string()));
}

#[test]
fn attribute_bound_to_variable_follows_it() {
    let mut w = JsWindow::new();
    let root = w.dom.root.unwrap();
    let n = w.dom.nodes.create_node(child(NodeKind::View, root));
    // unknown variable: binding recorded, nothing to apply yet
    assert_eq!(w.set_attribute(n, "bg", "$accent"), None);
    let updates = w.set_var("accent", Some("#e2a52e".to_string()));
    assert_eq!(updates.len(), 1);
    assert_eq!(updates[0].node_id, n);
    assert_eq!(updates[0].attr_name, "bg");
    assert_eq!(updates[0].value, Some("#e2a52e".to_string()));
    // a direct value drops the binding
    assert_eq!(w.set_attribute(n, "bg", "red"), Some("red".to_string()));
    assert!(w.set_var("accent", Some("#000".to_string())).is_empty());
    // binding to a known variable resolves right away
    assert_eq!(w.set_attribute(n, "color", "$accent"), Some("#000".to_string()));
    let removed = w.set_var("accent", None);
    assert_eq!(removed.len(), 1);
    assert_eq!(removed[0].value, None);
    w.clear_attribute(n, "color");
    assert!(w.set_var("accent", Some("#fff".to_string())).is_empty());
    let bindings: &Vec<VarBinding> = &w.dom.nodes.get(n).unwrap().var_bindings;
    assert!(bindings.is_empty());
}

#[test]
fn blink_generation_wraps() {
    let mut w = JsWindow::new();
    w.cursor_blink_generation = u64::MAX;
    assert_eq!(w.next_blink_generation(), 0);
    assert!(w.blink_tick_redraws(0, true));
    assert!(!w.blink_tick_redraws(1, true));
    assert!(!w.blink_tick_redraws(0, false));
}

#[test]
fn windows_are_keyed_by_id() {
    let mut state = JsState::new();
    state.windows.insert(3, JsWindow::new());
    let map: &HashMap<u32, JsWindow> = &state.windows;
    assert!(map.contains_key(&3));
}

#[test]
fn parent_created_after_child_is_followed() {
    let mut nodes = NodeTree::new();
    let mut child = UiNode::new(NodeKind::Text);
    child.parent = Some(1);
    let c = nodes.create_node(child);
    let p = nodes.create_node(UiNode::new(NodeKind::View));
    assert_eq!(nodes.ancestor_path(c), vec![c, p]);
    let other = nodes.create_node(UiNode::new(NodeKind::View));
    nodes.set_parent(p, Some(other));
    assert_eq!(nodes.ancestor_path(c), vec![c, p, other]);
    nodes.set_parent(p, None);
    assert_eq!(nodes.ancestor_path(c), vec![c, p]);
    // A link to a missing node ends the path there.
    nodes.set_parent(p, Some(9));
    assert_eq!(nodes.ancestor_path(c), vec![c, p, 9]);
}

#[test]
fn reference_applies_the_variable_value() {
    let mut a = JsWindow::new();
    let mut b = JsWindow::new();
    let root = a.dom.root.unwrap();
    let na = a.dom.nodes.create_node(child(NodeKind::View, root));
    let nb = b.dom.nodes.create_node(child(NodeKind::View, root));
    a.set_var("accent", Some("#22c55e".to_string()));
    b.set_var("accent", Some("#22c55e".to_string()));
    let by_reference = a.set_attribute(na, "bg", "$accent");
    let by_value = b.set_attribute(nb, "bg", "#22c55e");
    assert_eq!(by_reference, by_value);
    assert_eq!(a.dom.nodes.get(na).unwrap().var_bindings.len(), 1);
    assert!(b.dom.nodes.get(nb).unwrap().var_bindings.is_empty());
}

#[test]
fn hits_and_ranges_map_into_the_run() {
    let run = TextSelectRun {
        root_id: 0,
        entries: vec![
            TextRunEntry { node_id: 11, layout_node_id: 5, flat_byte_start: 0, byte_len: 4 },
            TextRunEntry { node_id: 12, layout_node_id: 5, flat_byte_start: 4, byte_len: 6 },
            TextRunEntry { node_id: 14, layout_node_id: 7, flat_byte_start: 0, byte_len: 0 },
        ],
        total_graphemes: 10,
    };
    assert_eq!(run_hit_endpoint(&run, 5, 10, 6, Affinity::Upstream), Some(SelectionEndpoint::new(12, 2, Affinity::Upstream)));
    assert_eq!(run_hit_endpoint(&run, 7, 0, 3, Affinity::Upstream), Some(SelectionEndpoint::new(14, 0, Affinity::Downstream)));
    assert_eq!(run_hit_endpoint(&run, 9, 0, 0, Affinity::Upstream), None);
    assert_eq!(
        range_endpoints(&run, 5, 11, 10, 1, 6),
        Some((SelectionEndpoint::new(11, 1, Affinity::Downstream), SelectionEndpoint::new(12, 2, Affinity::Upstream)))
    );
    let start = SelectionEndpoint::new(14, 0, Affinity::Downstream);
    assert_eq!(range_endpoints(&run, 7, 14, 0, 0, 0), Some((start, start)));
    assert_eq!(range_endpoints(&run, 9, 15, 3, 0, 1), None);
}

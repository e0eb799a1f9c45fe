//! Pointer handling: hover transitions, presses, releases and clicks.

use vstd::prelude::*;

use crate::dom::{
    first_button, first_cursor, first_text_root, node_at, spec_ancestor_path, CursorIcon, DragMode,
    NodeKind, ScrollAxis, UiNode, UiState,
};
use crate::events::{AppEvent, UzFocusEvent, UzInputEvent, UzMouseEvent};
use crate::clipboard::{selection_root, spec_selection_root};
use crate::flags::{has_bits8, MouseButtons, LEFT_BIT};
use crate::hitbox::vec_contains;
use crate::selection::{SelectionEndpoint, TextSelection};
use crate::UzNodeId;

verus! {

/// A mouse event on `node` for a hover transition, `related` being the node
/// on the other side of the transition.
pub open spec fn hover_event(window_id: u32, node: UzNodeId, related: Option<UzNodeId>, buttons: MouseButtons) -> UzMouseEvent {
    UzMouseEvent { window_id, node_id: node, button: 0, buttons, related_node_id: related }
}

pub open spec fn opt_path(nodes: Seq<Option<UiNode>>, id: Option<UzNodeId>) -> Seq<UzNodeId> {
    match id {
        Some(i) => spec_ancestor_path(nodes, i),
        None => Seq::empty(),
    }
}

/// The `mouseleave` events of a transition: nodes of the old path that are
/// not on the new one, innermost first.
pub open spec fn leave_events(
    window_id: u32,
    prev_path: Seq<UzNodeId>,
    target_path: Seq<UzNodeId>,
    current: Option<UzNodeId>,
    buttons: MouseButtons,
) -> Seq<AppEvent> {
    prev_path.filter(|id: UzNodeId| !target_path.contains(id)).map_values(
        |id: UzNodeId| AppEvent::MouseLeave(hover_event(window_id, id, current, buttons)),
    )
}

/// The `mouseenter` events of a transition: nodes of the new path that were
/// not on the old one, outermost first.
pub open spec fn enter_events(
    window_id: u32,
    prev_path: Seq<UzNodeId>,
    target_path: Seq<UzNodeId>,
    prev: Option<UzNodeId>,
    buttons: MouseButtons,
) -> Seq<AppEvent> {
    target_path.reverse().filter(|id: UzNodeId| !prev_path.contains(id)).map_values(
        |id: UzNodeId| AppEvent::MouseEnter(hover_event(window_id, id, prev, buttons)),
    )
}

/// The events of the pointer moving from over `prev` to over `current`:
/// `mouseout` on the old node, `mouseover` on the new one, then `mouseleave`
/// for every node left and `mouseenter` for every node entered. Nothing when
/// the node under the pointer did not change.
pub open spec fn spec_hover_transition(
    nodes: Seq<Option<UiNode>>,
    window_id: u32,
    prev: Option<UzNodeId>,
    current: Option<UzNodeId>,
    buttons: MouseButtons,
) -> Seq<AppEvent> {
    if prev == current {
        Seq::empty()
    } else {
        let prev_path = opt_path(nodes, prev);
        let target_path = opt_path(nodes, current);
        let outs = match prev {
            Some(p) => seq![AppEvent::MouseOut(hover_event(window_id, p, current, buttons))],
            None => Seq::empty(),
        };
        let overs = match current {
            Some(c) => seq![AppEvent::MouseOver(hover_event(window_id, c, prev, buttons))],
            None => Seq::empty(),
        };
        outs + overs + leave_events(window_id, prev_path, target_path, current, buttons)
            + enter_events(window_id, prev_path, target_path, prev, buttons)
    }
}

fn opt_ancestor_path(dom: &UiState, id: Option<UzNodeId>) -> (r: Vec<UzNodeId>)
    ensures
        r@ == opt_path(dom.nodes@, id),
{
    match id {
        Some(i) => dom.nodes.ancestor_path(i),
        None => Vec::new(),
    }
}

/// Boundary-crossing events for a hover change from `prev` to `current`.
pub fn hover_transition_events(
    dom: &UiState,
    window_id: u32,
    prev: Option<UzNodeId>,
    current: Option<UzNodeId>,
    buttons: MouseButtons,
) -> (r: Vec<AppEvent>)
    ensures
        r@ == spec_hover_transition(dom.nodes@, window_id, prev, current, buttons),
{
    let mut events: Vec<AppEvent> = Vec::new();
    if prev == current {
        return events;
    }
    let prev_path = opt_ancestor_path(dom, prev);
    let target_path = opt_ancestor_path(dom, current);
    let ghost pp = prev_path@;
    let ghost tp = target_path@;
    if let Some(p) = prev {
        events.push(
            AppEvent::MouseOut(
                UzMouseEvent { window_id, node_id: p, button: 0, buttons, related_node_id: current },
            ),
        );
    }
    if let Some(c) = current {
        events.push(
            AppEvent::MouseOver(
                UzMouseEvent { window_id, node_id: c, button: 0, buttons, related_node_id: prev },
            ),
        );
    }
    let ghost head = events@;
    let ghost leave_pred = |id: UzNodeId| !tp.contains(id);
    let ghost leave_map = |id: UzNodeId| AppEvent::MouseLeave(hover_event(window_id, id, current, buttons));
    let n = prev_path.len();
    let mut i: usize = 0;
    proof {
        assert(pp.take(0).filter(leave_pred) =~= Seq::<UzNodeId>::empty()) by {
            reveal_with_fuel(Seq::<UzNodeId>::filter, 1);
        }
        assert(events@ =~= head + pp.take(0).filter(leave_pred).map_values(leave_map));
    }
    while i < n
        invariant
            n == pp.len(),
            pp == prev_path@,
            tp == target_path@,
            i <= n,
            leave_pred == (|id: UzNodeId| !tp.contains(id)),
            leave_map == (|id: UzNodeId| AppEvent::MouseLeave(hover_event(window_id, id, current, buttons))),
            events@ == head + pp.take(i as int).filter(leave_pred).map_values(leave_map),
        decreases n - i,
    {
        let id = prev_path[i];
        let keep = !vec_contains(&target_path, id);
        proof {
            assert(pp.take(i + 1).drop_last() =~= pp.take(i as int));
            assert(pp.take(i + 1).last() == id);
            reveal_with_fuel(Seq::<UzNodeId>::filter, 1);
            assert(leave_pred(id) == keep);
        }
        if keep {
            events.push(
                AppEvent::MouseLeave(
                    UzMouseEvent { window_id, node_id: id, button: 0, buttons, related_node_id: current },
                ),
            );
        }
        proof {
            let f0 = pp.take(i as int).filter(leave_pred);
            let f1 = pp.take(i + 1).filter(leave_pred);
            if keep {
                assert(f1 == f0.push(id));
                assert(f1.map_values(leave_map) =~= f0.map_values(leave_map).push(leave_map(id)));
            } else {
                assert(f1 == f0);
            }
            assert(events@ =~= head + f1.map_values(leave_map));
        }
        i = i + 1;
    }
    proof {
        assert(pp.take(n as int) =~= pp);
    }
    let ghost mid = events@;
    let ghost rt = tp.reverse();
    let ghost enter_pred = |id: UzNodeId| !pp.contains(id);
    let ghost enter_map = |id: UzNodeId| AppEvent::MouseEnter(hover_event(window_id, id, prev, buttons));
    let m = target_path.len();
    let mut j: usize = m;
    proof {
        assert(rt.take(0).filter(enter_pred) =~= Seq::<UzNodeId>::empty()) by {
            reveal_with_fuel(Seq::<UzNodeId>::filter, 1);
        }
        assert(events@ =~= mid + rt.take(0).filter(enter_pred).map_values(enter_map));
    }
    while j > 0
        invariant
            m == tp.len(),
            rt == tp.reverse(),
            rt.len() == m,
            forall|k: int| 0 <= k < m ==> rt[k] == tp[m - 1 - k],
            pp == prev_path@,
            tp == target_path@,
            j <= m,
            enter_pred == (|id: UzNodeId| !pp.contains(id)),
            enter_map == (|id: UzNodeId| AppEvent::MouseEnter(hover_event(window_id, id, prev, buttons))),
            events@ == mid + rt.take(m - j).filter(enter_pred).map_values(enter_map),
        decreases j,
    {
        j = j - 1;
        let id = target_path[j];
        let keep = !vec_contains(&prev_path, id);
        let ghost k = m - 1 - j;
        proof {
            assert(rt.take(k + 1).drop_last() =~= rt.take(k));
            assert(rt.take(k + 1).last() == id);
            reveal_with_fuel(Seq::<UzNodeId>::filter, 1);
            assert(enter_pred(id) == keep);
        }
        if keep {
            events.push(
                AppEvent::MouseEnter(
                    UzMouseEvent { window_id, node_id: id, button: 0, buttons, related_node_id: prev },
                ),
            );
        }
        proof {
            let f0 = rt.take(k).filter(enter_pred);
            let f1 = rt.take(k + 1).filter(enter_pred);
            if keep {
                assert(f1 == f0.push(id));
                assert(f1.map_values(enter_map) =~= f0.map_values(enter_map).push(enter_map(id)));
            } else {
                assert(f1 == f0);
            }
            assert(events@ =~= mid + f1.map_values(enter_map));
        }
    }
    proof {
        assert(rt.take(m as int) =~= rt);
        assert(events@ =~= spec_hover_transition(dom.nodes@, window_id, prev, current, buttons));
    }
    events
}


/// The cursor to show at the pointer: the default arrow while a scrollbar
/// thumb is dragged or under the pointer (it is painted over content but is
/// not a node); otherwise the cursor of the top node under the pointer.
pub fn resolve_pointer_cursor(dom: &UiState, over_thumb: bool) -> (r: CursorIcon)
    ensures
        r == (if dom.drag_mode is ScrollbarThumb || over_thumb {
            CursorIcon::Default
        } else {
            match dom.hit_state.top_node {
                Some(id) => first_cursor(dom.nodes@, spec_ancestor_path(dom.nodes@, id)),
                None => CursorIcon::Default,
            }
        }),
{
    let dragging_thumb = match dom.drag_mode {
        DragMode::ScrollbarThumb { .. } => true,
        _ => false,
    };
    if dragging_thumb || over_thumb {
        return CursorIcon::Default;
    }
    match dom.hit_state.top_node {
        Some(id) => dom.nodes.resolve_cursor(id),
        None => CursorIcon::Default,
    }
}

/// A plain mouse event on `node` (no related node).
pub open spec fn mouse_event(window_id: u32, node: UzNodeId, button: u8, buttons: MouseButtons) -> UzMouseEvent {
    UzMouseEvent { window_id, node_id: node, button, buttons, related_node_id: None }
}

/// The events of a pointer move, once the hit state has been refreshed:
/// the hover transition from `old_top` to the current top node, then a
/// `mousemove` on the current top node. Also says whether the top node
/// changed (which needs a redraw).
pub fn handle_cursor_moved(dom: &UiState, window_id: u32, old_top: Option<UzNodeId>, mouse_buttons: MouseButtons) -> (r: (
    bool,
    Vec<AppEvent>,
))
    ensures
        r.0 == (old_top != dom.hit_state.top_node),
        r.1@ == spec_hover_transition(dom.nodes@, window_id, old_top, dom.hit_state.top_node, mouse_buttons) + match dom.hit_state.top_node {
            Some(t) => seq![AppEvent::MouseMove(mouse_event(window_id, t, 0, mouse_buttons))],
            None => Seq::empty(),
        },
{
    let new_top = dom.hit_state.top_node;
    let mut events = hover_transition_events(dom, window_id, old_top, new_top, mouse_buttons);
    let ghost before = events@;
    if let Some(node_id) = new_top {
        events.push(
            AppEvent::MouseMove(
                UzMouseEvent { window_id, node_id, button: 0, buttons: mouse_buttons, related_node_id: None },
            ),
        );
    }
    proof {
        assert(events@ =~= before + match new_top {
            Some(t) => seq![AppEvent::MouseMove(mouse_event(window_id, t, 0, mouse_buttons))],
            None => Seq::empty(),
        });
    }
    (old_top != new_top, events)
}

/// While the left button is held during a view-selection drag in the run
/// under `root`, the selection's focus follows the pointer's hit in that run
/// (`run_hit`), keeping its anchor, as long as the selection still belongs
/// to that run. Returns whether a redraw is needed (there was a hit).
pub fn drag_view_selection(dom: &mut UiState, mouse_buttons: MouseButtons, run_hit: Option<SelectionEndpoint>) -> (r: bool)
    ensures
        ({
            let dragging = has_bits8(mouse_buttons@, LEFT_BIT) && old(dom).drag_mode is ViewSelection && run_hit is Some;
            let sel = old(dom).text_selection;
            let moves = dragging && spec_selection_root(old(dom).nodes@, sel) == Some(old(dom).drag_mode->ViewSelection_0)
                && sel.anchor is Some;
            &&& r == dragging
            &&& *final(dom) == if moves {
                UiState { text_selection: TextSelection { anchor: sel.anchor, focus: run_hit }, ..*old(dom) }
            } else {
                *old(dom)
            }
        }),
{
    if !mouse_buttons.contains(MouseButtons::left()) {
        return false;
    }
    let root = match dom.drag_mode {
        DragMode::ViewSelection(root) => root,
        _ => return false,
    };
    let hit = match run_hit {
        Some(h) => h,
        None => return false,
    };
    let sel = dom.text_selection;
    if selection_root(dom, &sel) == Some(root) {
        if let Some(anchor) = sel.anchor {
            dom.set_selection(TextSelection::new(anchor, hit));
        }
    }
    true
}

/// A mouse button.
#[derive(Clone, Copy, Debug, PartialEq, Eq, Structural)]
pub enum PointerButton {
    Left,
    Middle,
    Right,
    Other,
}

/// The DOM button number: 0 left, 1 middle, 2 right (others count as 0).
pub fn button_number(button: PointerButton) -> (r: u8)
    ensures
        r == match button {
            PointerButton::Left => 0u8,
            PointerButton::Middle => 1u8,
            PointerButton::Right => 2u8,
            PointerButton::Other => 0u8,
        },
{
    match button {
        PointerButton::Left => 0,
        PointerButton::Middle => 1,
        PointerButton::Right => 2,
        PointerButton::Other => 0,
    }
}

/// The held-buttons bit of a button (none for other buttons).
pub fn button_bit(button: PointerButton) -> (r: MouseButtons)
    ensures
        r@ == match button {
            PointerButton::Left => crate::flags::LEFT_BIT,
            PointerButton::Middle => crate::flags::MIDDLE_BIT,
            PointerButton::Right => crate::flags::RIGHT_BIT,
            PointerButton::Other => 0u8,
        },
{
    match button {
        PointerButton::Left => MouseButtons::left(),
        PointerButton::Middle => MouseButtons::middle(),
        PointerButton::Right => MouseButtons::right(),
        PointerButton::Other => MouseButtons::empty(),
    }
}

/// The click count after a click on `node`: one more (at most 4) when the
/// previous click was on the same node and recent enough, else 1.
pub open spec fn next_click_count(last_node: Option<UzNodeId>, count: u8, node: UzNodeId, recent: bool) -> u8 {
    if last_node == Some(node) && recent {
        if count >= 3 { 4u8 } else { (count + 1) as u8 }
    } else {
        1u8
    }
}

/// Records a click on `node` for double/triple/quadruple click detection;
/// `recent` tells whether the previous click was less than 400 ms ago.
pub fn register_click(dom: &mut UiState, node: UzNodeId, recent: bool)
    ensures
        final(dom).last_click_node == Some(node),
        final(dom).click_count == next_click_count(old(dom).last_click_node, old(dom).click_count, node, recent),
        final(dom).nodes@ == old(dom).nodes@,
        final(dom).root == old(dom).root,
        final(dom).focused_node == old(dom).focused_node,
        final(dom).text_selection == old(dom).text_selection,
        final(dom).hit_state == old(dom).hit_state,
        final(dom).drag_mode == old(dom).drag_mode,
        final(dom).window_focused == old(dom).window_focused,
        final(dom).scroll_into_view_request == old(dom).scroll_into_view_request,
{
    let consecutive = dom.last_click_node == Some(node) && recent;
    dom.last_click_node = Some(node);
    if consecutive {
        dom.click_count = if dom.click_count >= 3 { 4 } else { dom.click_count + 1 };
    } else {
        dom.click_count = 1;
    }
}

/// Multi-click counting: a click on the node clicked last, soon enough,
/// counts one more than the previous click, up to 4; any other click counts
/// 1. So a run of quick clicks on one node counts 1, 2, 3, 4, 4, ..., and
/// selects the caret, the word, the line, then everything.
pub proof fn lemma_consecutive_clicks_count_up(last: Option<UzNodeId>, count: u8, node: UzNodeId, recent: bool)
    ensures
        (last == Some(node) && recent) ==> next_click_count(last, count, node, recent) as int == (if count + 1 < 4 {
            count + 1
        } else {
            4
        }),
        !(last == Some(node) && recent) ==> next_click_count(last, count, node, recent) == 1,
        ({
            let c1 = next_click_count(last, count, node, false);
            let c2 = next_click_count(Some(node), c1, node, true);
            let c3 = next_click_count(Some(node), c2, node, true);
            let c4 = next_click_count(Some(node), c3, node, true);
            let c5 = next_click_count(Some(node), c4, node, true);
            &&& c1 == 1 && c2 == 2 && c3 == 3 && c4 == 4 && c5 == 4
            &&& spec_click_select(c1) == ClickSelect::Caret
            &&& spec_click_select(c2) == ClickSelect::Word
            &&& spec_click_select(c3) == ClickSelect::Line
            &&& spec_click_select(c4) == ClickSelect::All
        }),
{
}

/// What the pointer hit, as measured on the caller's geometry before the
/// press or release is handled.
#[derive(Clone, Copy, Debug)]
pub struct PointerHit {
    /// The pointer position is known.
    pub pointer_known: bool,
    /// A scrollbar thumb under the pointer (the frontmost one), if any.
    pub thumb: Option<(UzNodeId, ScrollAxis)>,
    /// The previous click was less than 400 ms ago.
    pub recent_click: bool,
    /// The text input under the pointer has a hitbox.
    pub input_has_hitbox: bool,
    /// Where the pointer falls in the selectable text run around the target.
    pub run_hit: Option<SelectionEndpoint>,
}

/// What a run of clicks selects at the pointer.
#[derive(Clone, Copy, Debug, PartialEq, Eq, Structural)]
pub enum ClickSelect {
    /// Just place the caret (a single click).
    Caret,
    /// The word (a double click).
    Word,
    /// The line (a triple click).
    Line,
    /// Everything: the whole input or run (a quadruple click).
    All,
}

pub open spec fn spec_click_select(count: u8) -> ClickSelect {
    if count == 2 {
        ClickSelect::Word
    } else if count == 3 {
        ClickSelect::Line
    } else if count == 4 {
        ClickSelect::All
    } else {
        ClickSelect::Caret
    }
}

/// The selection of a click that is the `count`th in a row.
pub fn click_select(count: u8) -> (r: ClickSelect)
    ensures
        r == spec_click_select(count),
{
    if count == 2 {
        ClickSelect::Word
    } else if count == 3 {
        ClickSelect::Line
    } else if count == 4 {
        ClickSelect::All
    } else {
        ClickSelect::Caret
    }
}

/// Work left for the caller after a press, which needs text layout.
#[derive(Clone, Copy, Debug, PartialEq, Eq, Structural)]
pub enum PointerFollowUp {
    Nothing,
    /// In a text input: place the caret at the pointer, or select the word,
    /// the line or everything.
    PlaceInputCaret { node: UzNodeId, select: ClickSelect },
    /// In a selectable run: select the word or the line at the hit, or the
    /// whole run.
    SelectInRun { root: UzNodeId, hit: SelectionEndpoint, select: ClickSelect },
}

/// The node that becomes active on a press: the nearest button around the
/// target, else the target itself.
pub open spec fn press_target(nodes: Seq<Option<UiNode>>, target: Option<UzNodeId>) -> Option<UzNodeId> {
    match target {
        Some(t) => match first_button(nodes, spec_ancestor_path(nodes, t)) {
            Some(b) => Some(b),
            None => Some(t),
        },
        None => None,
    }
}

pub open spec fn is_text_input_at(nodes: Seq<Option<UiNode>>, id: UzNodeId) -> bool {
    node_at(nodes, id) matches Some(n) && n.kind is TextInput
}

pub open spec fn is_checkbox_at(nodes: Seq<Option<UiNode>>, id: UzNodeId) -> bool {
    node_at(nodes, id) matches Some(n) && n.kind is Checkbox
}

pub open spec fn opt_event(e: Option<AppEvent>) -> Seq<AppEvent> {
    match e {
        Some(x) => seq![x],
        None => Seq::empty(),
    }
}

pub open spec fn blur_event(window_id: u32, f: Option<UzNodeId>) -> Seq<AppEvent> {
    match f {
        Some(o) => seq![AppEvent::Blur(UzFocusEvent { window_id, node_id: o })],
        None => Seq::empty(),
    }
}

/// The input event reported when a click toggles a checkbox.
pub open spec fn toggle_event_ok(e: AppEvent, window_id: u32, node: UzNodeId) -> bool {
    e matches AppEvent::Input(i) && i.window_id == window_id && i.node_id == node && i.input_type@ == "toggle"@
        && i.data.is_none() && i.start_node_id.is_none() && i.end_node_id.is_none() && i.start_offset == 0
        && i.end_offset == 0
}

/// Handles a button press or release at the pointer.
///
/// A left press on a scrollbar thumb starts a thumb drag and nothing else. A
/// press marks the target's button (or the target) active and reports
/// `mousedown`; a left press on a text input focuses it (reporting blur and
/// focus when focus moves) and starts an input drag; a left press elsewhere
/// blurs the focused node and, inside selectable text, places the selection
/// and starts a selection drag, or else clears the selection. A release
/// reports `mouseup`, then a click when the pressed node is still hovered (a
/// left click toggles a checkbox first), clears the active node and ends
/// selection drags; a left release ends a thumb drag.
pub fn handle_mouse_input(
    dom: &mut UiState,
    window_id: u32,
    pressed: bool,
    button: PointerButton,
    mouse_buttons: MouseButtons,
    hit: &PointerHit,
) -> (r: (bool, Vec<AppEvent>, PointerFollowUp))
    ensures
        final(dom).root == old(dom).root,
        final(dom).window_focused == old(dom).window_focused,
        final(dom).scroll_into_view_request == old(dom).scroll_into_view_request,
        final(dom).hit_state.hovered_nodes@ == old(dom).hit_state.hovered_nodes@,
        final(dom).hit_state.top_node == old(dom).hit_state.top_node,
        !hit.pointer_known ==> r.0 == false && r.1@.len() == 0 && r.2 == PointerFollowUp::Nothing
            && final(dom).nodes@ == old(dom).nodes@ && final(dom).focused_node == old(dom).focused_node
            && final(dom).text_selection == old(dom).text_selection && final(dom).hit_state == old(dom).hit_state
            && final(dom).drag_mode == old(dom).drag_mode && final(dom).last_click_node == old(dom).last_click_node
            && final(dom).click_count == old(dom).click_count,
        hit.pointer_known ==> r.0,
        // thumb grab
        hit.pointer_known && pressed && button == PointerButton::Left && hit.thumb is Some ==> {
            &&& r.1@.len() == 0
            &&& r.2 == PointerFollowUp::Nothing
            &&& final(dom).drag_mode == (DragMode::ScrollbarThumb { node_id: hit.thumb.unwrap().0, axis: hit.thumb.unwrap().1 })
            &&& final(dom).nodes@ == old(dom).nodes@
            &&& final(dom).focused_node == old(dom).focused_node
            &&& final(dom).text_selection == old(dom).text_selection
            &&& final(dom).hit_state == old(dom).hit_state
        },
        // press
        ({
            let t = old(dom).hit_state.top_node;
            let nodes = old(dom).nodes@;
            let f = old(dom).focused_node;
            let down = match t {
                Some(x) => seq![AppEvent::MouseDown(mouse_event(window_id, x, button_number_spec(button), mouse_buttons))],
                None => Seq::empty(),
            };
            hit.pointer_known && pressed && !(button == PointerButton::Left && hit.thumb is Some) ==> {
                &&& final(dom).hit_state.active_node == press_target(nodes, t)
                &&& final(dom).nodes@ == nodes
                &&& button != PointerButton::Left ==> {
                    &&& r.1@ == down
                    &&& r.2 == PointerFollowUp::Nothing
                    &&& final(dom).focused_node == f
                    &&& final(dom).text_selection == old(dom).text_selection
                    &&& final(dom).drag_mode == old(dom).drag_mode
                    &&& final(dom).last_click_node == old(dom).last_click_node
                    &&& final(dom).click_count == old(dom).click_count
                }
                &&& (button == PointerButton::Left && t is Some && is_text_input_at(nodes, t.unwrap())) ==> {
                    let n = t.unwrap();
                    let count = next_click_count(old(dom).last_click_node, old(dom).click_count, n, hit.recent_click);
                    &&& final(dom).last_click_node == Some(n)
                    &&& final(dom).click_count == count
                    &&& r.1@ == down + (if f != Some(n) {
                        blur_event(window_id, f) + seq![AppEvent::Focus(UzFocusEvent { window_id, node_id: n })]
                    } else {
                        Seq::empty()
                    })
                    &&& final(dom).focused_node == (if hit.input_has_hitbox { Some(n) } else { f })
                    &&& r.2 == (if hit.input_has_hitbox {
                        PointerFollowUp::PlaceInputCaret { node: n, select: spec_click_select(count) }
                    } else {
                        PointerFollowUp::Nothing
                    })
                    &&& final(dom).drag_mode == DragMode::InputSelection(n)
                    &&& final(dom).text_selection == old(dom).text_selection
                }
                &&& (button == PointerButton::Left && !(t is Some && is_text_input_at(nodes, t.unwrap()))) ==> {
                    let root = match t {
                        Some(x) => first_text_root(nodes, spec_ancestor_path(nodes, x)),
                        None => None,
                    };
                    &&& r.1@ == down + blur_event(window_id, f)
                    &&& final(dom).focused_node.is_none()
                    &&& root.is_none() ==> {
                        &&& final(dom).text_selection == TextSelection::empty_spec()
                        &&& r.2 == PointerFollowUp::Nothing
                        &&& final(dom).drag_mode == old(dom).drag_mode
                        &&& final(dom).last_click_node == old(dom).last_click_node
                        &&& final(dom).click_count == old(dom).click_count
                    }
                    &&& (root is Some && hit.run_hit is None) ==> {
                        &&& final(dom).text_selection == old(dom).text_selection
                        &&& r.2 == PointerFollowUp::Nothing
                        &&& final(dom).drag_mode == old(dom).drag_mode
                        &&& final(dom).last_click_node == old(dom).last_click_node
                        &&& final(dom).click_count == old(dom).click_count
                    }
                    &&& (root is Some && hit.run_hit is Some) ==> {
                        let rt = root.unwrap();
                        let ep = hit.run_hit.unwrap();
                        let count = next_click_count(old(dom).last_click_node, old(dom).click_count, t.unwrap(), hit.recent_click);
                        &&& final(dom).last_click_node == t
                        &&& final(dom).click_count == count
                        &&& final(dom).drag_mode == DragMode::ViewSelection(rt)
                        &&& count == 1 ==> final(dom).text_selection == (TextSelection { anchor: Some(ep), focus: Some(ep) })
                            && r.2 == PointerFollowUp::Nothing
                        &&& count != 1 ==> final(dom).text_selection == old(dom).text_selection
                            && r.2 == (PointerFollowUp::SelectInRun { root: rt, hit: ep, select: spec_click_select(count) })
                    }
                }
            }
        }),
        // release
        ({
            let t = old(dom).hit_state.top_node;
            let nodes = old(dom).nodes@;
            let a = old(dom).hit_state.active_node;
            let clicked = a matches Some(x) && old(dom).hit_state.hovered_nodes@.contains(x);
            let toggles = clicked && button == PointerButton::Left && is_checkbox_at(nodes, a.unwrap());
            let drag0 = if button == PointerButton::Left && old(dom).drag_mode is ScrollbarThumb {
                DragMode::Idle
            } else {
                old(dom).drag_mode
            };
            let up = match t {
                Some(x) => seq![AppEvent::MouseUp(mouse_event(window_id, x, button_number_spec(button), mouse_buttons))],
                None => Seq::empty(),
            };
            let click = match t {
                Some(x) => if clicked {
                    seq![AppEvent::Click(mouse_event(window_id, x, button_number_spec(button), mouse_buttons))]
                } else {
                    Seq::empty()
                },
                None => Seq::empty(),
            };
            hit.pointer_known && !pressed ==> {
                &&& r.2 == PointerFollowUp::Nothing
                &&& final(dom).hit_state.active_node.is_none()
                &&& final(dom).drag_mode == (if drag0 is InputSelection || drag0 is ViewSelection { DragMode::Idle } else { drag0 })
                &&& final(dom).focused_node == old(dom).focused_node
                &&& final(dom).text_selection == old(dom).text_selection
                &&& final(dom).last_click_node == old(dom).last_click_node
                &&& final(dom).click_count == old(dom).click_count
                &&& toggles ==> {
                    let old_node = node_at(nodes, a.unwrap()).unwrap();
                    &&& final(dom).nodes@ == nodes.update(a.unwrap() as int, Some(UiNode {
                        kind: NodeKind::Checkbox { checked: !(old_node.kind->checked) },
                        ..old_node
                    }))
                    &&& r.1@.len() == up.len() + 1 + click.len()
                    &&& r.1@.subrange(0, up.len() as int) == up
                    &&& toggle_event_ok(r.1@[up.len() as int], window_id, a.unwrap())
                    &&& r.1@.subrange(up.len() + 1int, r.1@.len() as int) == click
                }
                &&& !toggles ==> final(dom).nodes@ == nodes && r.1@ == up + click
            }
        }),
{
    if !hit.pointer_known {
        return (false, Vec::new(), PointerFollowUp::Nothing);
    }
    let button_num = button_number(button);
    let is_left = button == PointerButton::Left;
    if pressed && is_left {
        if let Some((node_id, axis)) = hit.thumb {
            dom.drag_mode = DragMode::ScrollbarThumb { node_id, axis };
            return (true, Vec::new(), PointerFollowUp::Nothing);
        }
    }
    if !pressed && is_left {
        if let DragMode::ScrollbarThumb { .. } = dom.drag_mode {
            dom.drag_mode = DragMode::Idle;
        }
    }
    let mut events: Vec<AppEvent> = Vec::new();
    let mut follow_up = PointerFollowUp::Nothing;
    let target_node = dom.hit_state.top_node;
    if pressed {
        let press = match target_node {
            Some(t) => match dom.nodes.nearest_button_ancestor(t) {
                Some(b) => Some(b),
                None => Some(t),
            },
            None => None,
        };
        dom.set_active(press);
        if let Some(t) = target_node {
            events.push(
                AppEvent::MouseDown(
                    UzMouseEvent { window_id, node_id: t, button: button_num, buttons: mouse_buttons, related_node_id: None },
                ),
            );
        }
        let ghost down = events@;
        if is_left {
            let input_target = match target_node {
                Some(t) => if dom.nodes.is_text_input(t) { Some(t) } else { None },
                None => None,
            };
            let old_focus = dom.focused_node;
            if let Some(nid) = input_target {
                register_click(dom, nid, hit.recent_click);
                if old_focus != Some(nid) {
                    if let Some(old_id) = old_focus {
                        events.push(AppEvent::Blur(UzFocusEvent { window_id, node_id: old_id }));
                    }
                    events.push(AppEvent::Focus(UzFocusEvent { window_id, node_id: nid }));
                }
                if hit.input_has_hitbox {
                    dom.focused_node = Some(nid);
                    follow_up = PointerFollowUp::PlaceInputCaret { node: nid, select: click_select(dom.click_count) };
                }
                dom.drag_mode = DragMode::InputSelection(nid);
                proof {
                    assert(events@ =~= down + (if old_focus != Some(nid) {
                        blur_event(window_id, old_focus) + seq![AppEvent::Focus(UzFocusEvent { window_id, node_id: nid })]
                    } else {
                        Seq::empty()
                    }));
                }
            } else {
                if let Some(old_id) = old_focus {
                    dom.focused_node = None;
                    events.push(AppEvent::Blur(UzFocusEvent { window_id, node_id: old_id }));
                }
                proof {
                    assert(events@ =~= down + blur_event(window_id, old_focus));
                }
                let run_root = match target_node {
                    Some(t) => dom.nodes.containing_text_run_root(t),
                    None => None,
                };
                match run_root {
                    Some(root) => {
                        if let Some(endpoint) = hit.run_hit {
                            let nid = target_node.unwrap();
                            register_click(dom, nid, hit.recent_click);
                            if dom.click_count == 1 {
                                dom.set_selection(TextSelection::new(endpoint, endpoint));
                            } else {
                                follow_up = PointerFollowUp::SelectInRun { root, hit: endpoint, select: click_select(dom.click_count) };
                            }
                            dom.drag_mode = DragMode::ViewSelection(root);
                        }
                    },
                    None => {
                        dom.clear_selection();
                    },
                }
            }
        }
        (true, events, follow_up)
    } else {
        if let Some(t) = target_node {
            events.push(
                AppEvent::MouseUp(
                    UzMouseEvent { window_id, node_id: t, button: button_num, buttons: mouse_buttons, related_node_id: None },
                ),
            );
        }
        let ghost up = events@;
        if let Some(active) = dom.hit_state.active_node {
            if dom.hit_state.is_hovered(active) {
                if is_left {
                    let checked = match dom.nodes.get(active) {
                        Some(n) => match n.kind {
                            NodeKind::Checkbox { checked } => Some(checked),
                            _ => None,
                        },
                        None => None,
                    };
                    if let Some(c) = checked {
                        dom.nodes.set_checked(active, !c);
                        events.push(AppEvent::Input(UzInputEvent::plain(window_id, active, "toggle", None)));
                        proof {
                            reveal_strlit("toggle");
                        }
                    }
                }
                let ghost mid = events@;
                if let Some(t) = target_node {
                    events.push(
                        AppEvent::Click(
                            UzMouseEvent { window_id, node_id: t, button: button_num, buttons: mouse_buttons, related_node_id: None },
                        ),
                    );
                }
                proof {
                    assert(events@.subrange(0, mid.len() as int) =~= mid);
                    assert(mid.subrange(0, up.len() as int) =~= up);
                }
            }
        }
        dom.set_active(None);
        match dom.drag_mode {
            DragMode::InputSelection(_) | DragMode::ViewSelection(_) => {
                dom.drag_mode = DragMode::Idle;
            },
            _ => {},
        }
        (true, events, follow_up)
    }
}

pub open spec fn button_number_spec(button: PointerButton) -> u8 {
    match button {
        PointerButton::Left => 0u8,
        PointerButton::Middle => 1u8,
        PointerButton::Right => 2u8,
        PointerButton::Other => 0u8,
    }
}

/// In a hover transition, `mouseleave` goes only to nodes that the pointer
/// left (on the old path, not on the new one) and `mouseenter` only to nodes
/// it entered (on the new path, not on the old one), so no node gets both.
pub proof fn lemma_hover_leave_enter_disjoint(
    nodes: Seq<Option<UiNode>>,
    window_id: u32,
    prev: Option<UzNodeId>,
    current: Option<UzNodeId>,
    buttons: MouseButtons,
)
    ensures
        ({
            let pp = opt_path(nodes, prev);
            let tp = opt_path(nodes, current);
            let leaves = leave_events(window_id, pp, tp, current, buttons);
            let enters = enter_events(window_id, pp, tp, prev, buttons);
            &&& forall|i: int| 0 <= i < leaves.len() ==> ((#[trigger] leaves[i]) matches AppEvent::MouseLeave(e)
                && pp.contains(e.node_id) && !tp.contains(e.node_id) && e.related_node_id == current)
            &&& forall|i: int| 0 <= i < enters.len() ==> ((#[trigger] enters[i]) matches AppEvent::MouseEnter(e)
                && tp.contains(e.node_id) && !pp.contains(e.node_id) && e.related_node_id == prev)
        }),
{
    let pp = opt_path(nodes, prev);
    let tp = opt_path(nodes, current);
    let lp = |id: UzNodeId| !tp.contains(id);
    let ep = |id: UzNodeId| !pp.contains(id);
    let lf = pp.filter(lp);
    let ef = tp.reverse().filter(ep);
    assert forall|i: int| 0 <= i < lf.len() implies pp.contains(lf[i]) && !tp.contains(lf[i]) by {
        pp.lemma_filter_pred(lp, i);
        assert(lf.contains(lf[i]));
        pp.lemma_filter_contains_rev(lp, lf[i]);
    }
    assert forall|i: int| 0 <= i < ef.len() implies tp.contains(ef[i]) && !pp.contains(ef[i]) by {
        tp.reverse().lemma_filter_pred(ep, i);
        assert(ef.contains(ef[i]));
        tp.reverse().lemma_filter_contains_rev(ep, ef[i]);
        let k = choose|k: int| 0 <= k < tp.reverse().len() && tp.reverse()[k] == ef[i];
        assert(tp[tp.len() - 1 - k] == ef[i]);
    }
}

/// Toggling a checkbox twice gives back the document it started from.
pub proof fn lemma_toggle_twice(nodes: Seq<Option<UiNode>>, id: UzNodeId)
    requires
        is_checkbox_at(nodes, id),
    ensures
        ({
            let n = node_at(nodes, id).unwrap();
            let once = nodes.update(id as int, Some(UiNode { kind: NodeKind::Checkbox { checked: !(n.kind->checked) }, ..n }));
            let m = node_at(once, id).unwrap();
            &&& is_checkbox_at(once, id)
            &&& once.update(id as int, Some(UiNode { kind: NodeKind::Checkbox { checked: !(m.kind->checked) }, ..m })) == nodes
        }),
{
    let n = node_at(nodes, id).unwrap();
    let once = nodes.update(id as int, Some(UiNode { kind: NodeKind::Checkbox { checked: !(n.kind->checked) }, ..n }));
    let m = node_at(once, id).unwrap();
    assert(once.update(id as int, Some(UiNode { kind: NodeKind::Checkbox { checked: !(m.kind->checked) }, ..m })) =~= nodes);
}

} // verus!

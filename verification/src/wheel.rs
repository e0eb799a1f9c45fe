//! Which scroll container a wheel gesture goes to, and what a text input
//! scrolls by to keep its caret in view.

use vstd::prelude::*;

use crate::dom::ScrollAxis;
use crate::UzNodeId;

verus! {

/// A scrollbar thumb registered during the last paint, in paint order, with
/// whether the pointer lies inside the view it scrolls.
#[derive(Clone, Copy, Debug, PartialEq, Eq, Structural)]
pub struct ScrollThumbHit {
    pub node_id: UzNodeId,
    pub axis: ScrollAxis,
    pub under_pointer: bool,
}

/// The node that took the previous wheel delta on `axis`; `fresh` holds while
/// the wheel has not paused for the lock timeout since then.
#[derive(Clone, Copy, Debug, PartialEq, Eq, Structural)]
pub struct WheelCapture {
    pub node_id: UzNodeId,
    pub axis: ScrollAxis,
    pub fresh: bool,
}

/// Where a wheel delta goes first, and whether it may bubble to ancestors
/// (`locked` forbids it).
#[derive(Clone, Copy, Debug, PartialEq, Eq, Structural)]
pub struct WheelTarget {
    pub node_id: UzNodeId,
    pub locked: bool,
}

/// Thumb `t` is on `axis` under the pointer and, when `node` is given,
/// belongs to that node.
pub open spec fn thumb_matches(t: ScrollThumbHit, axis: ScrollAxis, node: Option<UzNodeId>) -> bool {
    &&& t.axis == axis
    &&& t.under_pointer
    &&& (node matches Some(n) ==> t.node_id == n)
}

/// Index of the frontmost (last painted) thumb of `s` that matches.
pub open spec fn last_match(s: Seq<ScrollThumbHit>, axis: ScrollAxis, node: Option<UzNodeId>) -> Option<int>
    decreases s.len(),
{
    if s.len() == 0 {
        None
    } else if thumb_matches(s.last(), axis, node) {
        Some(s.len() - 1)
    } else {
        last_match(s.drop_last(), axis, node)
    }
}

/// The lock applies when the capture is on this axis and still fresh.
pub open spec fn capture_applies(capture: Option<WheelCapture>, axis: ScrollAxis) -> bool {
    capture matches Some(c) && c.axis == axis && c.fresh
}

pub open spec fn spec_wheel_target(
    thumbs: Seq<ScrollThumbHit>,
    capture: Option<WheelCapture>,
    axis: ScrollAxis,
) -> Option<WheelTarget> {
    let locked = if capture_applies(capture, axis) {
        last_match(thumbs, axis, Some(capture->Some_0.node_id))
    } else {
        None
    };
    match locked {
        Some(i) => Some(WheelTarget { node_id: thumbs[i].node_id, locked: true }),
        None => match last_match(thumbs, axis, None) {
            Some(j) => Some(WheelTarget { node_id: thumbs[j].node_id, locked: false }),
            None => None,
        },
    }
}

proof fn lemma_last_match_props(s: Seq<ScrollThumbHit>, axis: ScrollAxis, node: Option<UzNodeId>)
    ensures
        last_match(s, axis, node) matches Some(i) ==> {
            &&& 0 <= i < s.len()
            &&& thumb_matches(s[i], axis, node)
            &&& forall|k: int| i < k < s.len() ==> !thumb_matches(#[trigger] s[k], axis, node)
        },
        last_match(s, axis, node) is None ==> forall|k: int|
            0 <= k < s.len() ==> !thumb_matches(#[trigger] s[k], axis, node),
    decreases s.len(),
{
    if s.len() > 0 {
        lemma_last_match_props(s.drop_last(), axis, node);
        assert forall|k: int| 0 <= k < s.len() - 1 implies #[trigger] s[k] == s.drop_last()[k] by {}
    }
}

/// Frontmost thumb matching `axis` (and `node`, when given), scanning from the
/// back as the paint order puts the frontmost last.
fn find_last_thumb(thumbs: &Vec<ScrollThumbHit>, axis: ScrollAxis, node: Option<UzNodeId>) -> (r: Option<usize>)
    ensures
        r matches Some(i) ==> last_match(thumbs@, axis, node) == Some(i as int),
        r is None ==> last_match(thumbs@, axis, node) is None,
{
    proof {
        assert(thumbs@.take(thumbs@.len() as int) == thumbs@);
    }
    let mut i: usize = thumbs.len();
    while i > 0
        invariant
            i <= thumbs@.len(),
            last_match(thumbs@, axis, node) == last_match(thumbs@.take(i as int), axis, node),
        decreases i,
    {
        let t = thumbs[i - 1];
        assert(thumbs@.take(i as int).drop_last() == thumbs@.take(i - 1));
        let hit = t.axis == axis && t.under_pointer && match node {
            Some(n) => t.node_id == n,
            None => true,
        };
        if hit {
            return Some(i - 1);
        }
        i = i - 1;
    }
    None
}

/// The first node a wheel delta on `axis` goes to. A fresh capture on this
/// axis keeps the gesture on the captured node while the pointer stays inside
/// its view (then the delta may not bubble); otherwise the frontmost
/// scrollable view on this axis under the pointer takes it.
pub fn wheel_target(thumbs: &Vec<ScrollThumbHit>, capture: Option<WheelCapture>, axis: ScrollAxis) -> (r: Option<WheelTarget>)
    ensures
        r == spec_wheel_target(thumbs@, capture, axis),
{
    proof {
        lemma_last_match_props(thumbs@, axis, None);
        if let Some(c) = capture {
            lemma_last_match_props(thumbs@, axis, Some(c.node_id));
        }
    }
    let locked = match capture {
        Some(c) => {
            if c.axis == axis && c.fresh {
                find_last_thumb(thumbs, axis, Some(c.node_id))
            } else {
                None
            }
        },
        None => None,
    };
    match locked {
        Some(i) => Some(WheelTarget { node_id: thumbs[i].node_id, locked: true }),
        None => match find_last_thumb(thumbs, axis, None) {
            Some(j) => Some(WheelTarget { node_id: thumbs[j].node_id, locked: false }),
            None => None,
        },
    }
}

/// A locked target is under the pointer, on the axis and is the captured node;
/// an unlocked one is the frontmost thumb on the axis under the pointer.
pub proof fn lemma_wheel_target_sound(thumbs: Seq<ScrollThumbHit>, capture: Option<WheelCapture>, axis: ScrollAxis)
    ensures
        spec_wheel_target(thumbs, capture, axis) matches Some(t) ==> exists|i: int| {
            &&& 0 <= i < thumbs.len()
            &&& #[trigger] thumbs[i].node_id == t.node_id
            &&& thumbs[i].axis == axis
            &&& thumbs[i].under_pointer
            &&& (t.locked ==> capture_applies(capture, axis) && capture->Some_0.node_id == t.node_id)
            &&& (!t.locked ==> forall|k: int| i < k < thumbs.len() ==> !(thumbs[k].axis == axis && thumbs[k].under_pointer))
        },
        spec_wheel_target(thumbs, capture, axis) is None <==> forall|k: int|
            0 <= k < thumbs.len() ==> !(#[trigger] thumbs[k].axis == axis && thumbs[k].under_pointer),
{
    lemma_last_match_props(thumbs, axis, None);
    if capture_applies(capture, axis) {
        lemma_last_match_props(thumbs, axis, Some(capture->Some_0.node_id));
    }
    if let Some(t) = spec_wheel_target(thumbs, capture, axis) {
        let locked = if capture_applies(capture, axis) {
            last_match(thumbs, axis, Some(capture->Some_0.node_id))
        } else {
            None
        };
        let i = match locked {
            Some(i) => i,
            None => last_match(thumbs, axis, None)->Some_0,
        };
        assert(thumbs[i].node_id == t.node_id);
        if !t.locked {
            assert forall|k: int| i < k < thumbs.len() implies !(thumbs[k].axis == axis && thumbs[k].under_pointer) by {
                assert(!thumb_matches(thumbs[k], axis, None));
            }
        }
    } else {
        assert forall|k: int| 0 <= k < thumbs.len() implies !(#[trigger] thumbs[k].axis == axis && thumbs[k].under_pointer) by {
            assert(!thumb_matches(thumbs[k], axis, None));
        }
    }
}

/// How a focused text input scrolls to keep its caret visible.
#[derive(Clone, Copy, Debug, PartialEq, Eq, Structural)]
pub enum InputScrollMode {
    /// A multiline input scrolls vertically to the caret's line.
    Vertical,
    /// A single-line input whose caret rests at the end of the text scrolls
    /// to the end.
    SingleLineEnd,
    /// Otherwise a single-line input scrolls horizontally to the caret.
    Horizontal,
}

pub open spec fn spec_input_scroll_mode(multiline: bool, collapsed: bool, focus_index: nat, text_len: nat) -> InputScrollMode {
    if multiline {
        InputScrollMode::Vertical
    } else if collapsed && focus_index == text_len {
        InputScrollMode::SingleLineEnd
    } else {
        InputScrollMode::Horizontal
    }
}

/// The scroll that follows a caret move in the focused input: from whether it
/// is multiline, whether its selection is collapsed, the byte index of the
/// selection's focus and the byte length of its text.
pub fn input_scroll_mode(multiline: bool, collapsed: bool, focus_index: usize, text_len: usize) -> (r: InputScrollMode)
    ensures
        r == spec_input_scroll_mode(multiline, collapsed, focus_index as nat, text_len as nat),
{
    if multiline {
        InputScrollMode::Vertical
    } else if collapsed && focus_index == text_len {
        InputScrollMode::SingleLineEnd
    } else {
        InputScrollMode::Horizontal
    }
}

} // verus!

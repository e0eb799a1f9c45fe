//! Text selections over selectable text runs.

use vstd::prelude::*;

use crate::UzNodeId;

verus! {

/// Which side of a position a caret sticks to at a line break.
#[derive(Clone, Copy, Debug, PartialEq, Eq, Structural)]
pub enum Affinity {
    Upstream,
    Downstream,
}

/// A position inside a text node: the node and a byte offset into its text.
#[derive(Clone, Copy, Debug, PartialEq, Eq, Structural)]
pub struct SelectionEndpoint {
    pub node: UzNodeId,
    pub offset: usize,
    pub affinity: Affinity,
}

impl SelectionEndpoint {
    pub fn new(node: UzNodeId, offset: usize, affinity: Affinity) -> (r: Self)
        ensures
            r == (SelectionEndpoint { node, offset, affinity }),
    {
        SelectionEndpoint { node, offset, affinity }
    }
}

/// The (node, offset) pair that identifies where an endpoint sits; the
/// affinity is not part of it.
pub open spec fn endpoint_key(e: Option<SelectionEndpoint>) -> Option<(UzNodeId, usize)> {
    match e {
        Some(p) => Some((p.node, p.offset)),
        None => None,
    }
}

/// A view text selection: where it started (anchor) and where it ends (focus).
#[derive(Clone, Copy, Debug, PartialEq, Eq, Structural)]
pub struct TextSelection {
    pub anchor: Option<SelectionEndpoint>,
    pub focus: Option<SelectionEndpoint>,
}

impl TextSelection {
    /// A selection from `anchor` to `focus`.
    pub fn new(anchor: SelectionEndpoint, focus: SelectionEndpoint) -> (r: Self)
        ensures
            r == (TextSelection { anchor: Some(anchor), focus: Some(focus) }),
    {
        TextSelection { anchor: Some(anchor), focus: Some(focus) }
    }

    pub open spec fn empty_spec() -> Self {
        TextSelection { anchor: None, focus: None }
    }

    /// No selection at all.
    pub fn empty() -> (r: Self)
        ensures
            r == Self::empty_spec(),
    {
        TextSelection { anchor: None, focus: None }
    }

    pub open spec fn spec_is_collapsed(&self) -> bool {
        endpoint_key(self.anchor) == endpoint_key(self.focus)
    }

    /// A selection is collapsed when its anchor and focus sit at the same
    /// place (an empty selection counts as collapsed).
    pub fn is_collapsed(&self) -> (r: bool)
        ensures
            r == self.spec_is_collapsed(),
    {
        endpoint_key_eq(self.anchor, self.focus)
    }
}

/// Whether two optional endpoints sit at the same (node, offset).
pub fn endpoint_key_eq(a: Option<SelectionEndpoint>, b: Option<SelectionEndpoint>) -> (r: bool)
    ensures
        r == (endpoint_key(a) == endpoint_key(b)),
{
    match (a, b) {
        (Some(x), Some(y)) => x.node == y.node && x.offset == y.offset,
        (None, None) => true,
        _ => false,
    }
}

/// One text node of a selectable run, placed in the run's flat byte space.
#[derive(Clone, Copy, Debug, PartialEq, Eq, Structural)]
pub struct TextRunEntry {
    /// The text node itself.
    pub node_id: UzNodeId,
    /// The node whose inline layout holds the text.
    pub layout_node_id: UzNodeId,
    /// Where the node's text starts in the layout's flat text.
    pub flat_byte_start: usize,
    pub byte_len: usize,
}

/// A run of selectable text under one root.
#[derive(Clone, Debug)]
pub struct TextSelectRun {
    pub root_id: UzNodeId,
    pub entries: Vec<TextRunEntry>,
    pub total_graphemes: usize,
}

/// No entry's byte range runs past `usize::MAX`.
pub open spec fn run_entries_fit(entries: Seq<TextRunEntry>) -> bool {
    forall|i: int| 0 <= i < entries.len() ==> entries[i].flat_byte_start + entries[i].byte_len <= usize::MAX
}

/// `e` belongs to `layout_node_id` and its range holds `byte` (ends included).
pub open spec fn entry_covers(e: TextRunEntry, layout_node_id: UzNodeId, byte: usize) -> bool {
    &&& e.layout_node_id == layout_node_id
    &&& e.flat_byte_start <= byte
    &&& byte <= e.flat_byte_start + e.byte_len
}

/// `i` is the first index whose entry belongs to `layout_node_id` and holds `byte`.
pub open spec fn first_covering(entries: Seq<TextRunEntry>, i: int, layout_node_id: UzNodeId, byte: usize) -> bool {
    &&& 0 <= i < entries.len()
    &&& entry_covers(entries[i], layout_node_id, byte)
    &&& forall|j: int| 0 <= j < i ==> !entry_covers(#[trigger] entries[j], layout_node_id, byte)
}

/// `i` is the first index whose entry belongs to `layout_node_id`.
pub open spec fn first_of_layout(entries: Seq<TextRunEntry>, i: int, layout_node_id: UzNodeId) -> bool {
    &&& 0 <= i < entries.len()
    &&& entries[i].layout_node_id == layout_node_id
    &&& forall|j: int| 0 <= j < i ==> (#[trigger] entries[j]).layout_node_id != layout_node_id
}

/// The endpoint that byte `byte` of a layout's flat text falls on, relative
/// to entry `e`: the distance from the entry's start, kept inside the entry.
pub open spec fn endpoint_in_entry(e: TextRunEntry, byte: usize, affinity: Affinity) -> SelectionEndpoint {
    let rel: int = if byte >= e.flat_byte_start { byte - e.flat_byte_start } else { 0 };
    SelectionEndpoint {
        node: e.node_id,
        offset: (if rel <= e.byte_len { rel } else { e.byte_len as int }) as usize,
        affinity,
    }
}

/// What `endpoint_for_layout_byte` gives: the first entry of that layout
/// whose range holds the byte, or else the first entry of that layout at all,
/// with the offset clamped into the entry; `None` without such an entry.
pub open spec fn spec_endpoint_for_layout_byte(
    es: Seq<TextRunEntry>,
    layout_node_id: UzNodeId,
    byte: usize,
    affinity: Affinity,
    r: Option<SelectionEndpoint>,
) -> bool {
    if exists|i: int| 0 <= i < es.len() && entry_covers(#[trigger] es[i], layout_node_id, byte) {
        exists|i: int| first_covering(es, i, layout_node_id, byte) && r == Some(endpoint_in_entry(#[trigger] es[i], byte, affinity))
    } else if exists|i: int| 0 <= i < es.len() && (#[trigger] es[i]).layout_node_id == layout_node_id {
        exists|i: int| first_of_layout(es, i, layout_node_id) && r == Some(endpoint_in_entry(#[trigger] es[i], byte, affinity))
    } else {
        r.is_none()
    }
}

/// Map a byte of `layout_node_id`'s flat text to an endpoint in the run: the
/// first entry of that layout whose range holds the byte, or else the first
/// entry of that layout at all (offset clamped into it); `None` when the run
/// has no entry for that layout.
pub fn endpoint_for_layout_byte(
    run: &TextSelectRun,
    layout_node_id: UzNodeId,
    byte: usize,
    affinity: Affinity,
) -> (r: Option<SelectionEndpoint>)
    requires
        run_entries_fit(run.entries@),
    ensures
        spec_endpoint_for_layout_byte(run.entries@, layout_node_id, byte, affinity, r),
{
    let ghost es = run.entries@;
    let n = run.entries.len();
    let mut found: Option<usize> = None;
    let mut i: usize = 0;
    while i < n
        invariant_except_break
            found.is_none(),
        invariant
            n == es.len(),
            es == run.entries@,
            run_entries_fit(es),
            i <= n,
            forall|j: int| 0 <= j < i ==> !entry_covers(#[trigger] es[j], layout_node_id, byte),
        ensures
            found.is_none() ==> forall|j: int| 0 <= j < n ==> !entry_covers(#[trigger] es[j], layout_node_id, byte),
            found matches Some(k) ==> first_covering(es, k as int, layout_node_id, byte),
        decreases n - i,
    {
        let e = run.entries[i];
        if e.layout_node_id == layout_node_id && e.flat_byte_start <= byte && byte
            <= e.flat_byte_start + e.byte_len {
            found = Some(i);
            break;
        }
        i = i + 1;
    }
    let covered = found.is_some();
    if !covered {
        let mut j: usize = 0;
        while j < n
            invariant_except_break
                found.is_none(),
            invariant
                n == es.len(),
                es == run.entries@,
                j <= n,
                forall|m: int| 0 <= m < j ==> (#[trigger] es[m]).layout_node_id != layout_node_id,
            ensures
                found.is_none() ==> forall|m: int| 0 <= m < n ==> (#[trigger] es[m]).layout_node_id != layout_node_id,
                found matches Some(k) ==> first_of_layout(es, k as int, layout_node_id),
            decreases n - j,
        {
            if run.entries[j].layout_node_id == layout_node_id {
                found = Some(j);
                break;
            }
            j = j + 1;
        }
    }
    match found {
        None => None,
        Some(k) => {
            let e = run.entries[k];
            let rel = if byte >= e.flat_byte_start { byte - e.flat_byte_start } else { 0 };
            let offset = if rel <= e.byte_len { rel } else { e.byte_len };
            let r = Some(SelectionEndpoint::new(e.node_id, offset, affinity));
            assert(r == Some(endpoint_in_entry(es[k as int], byte, affinity)));
            r
        },
    }
}

/// The first entry of the run that belongs to `layout_node_id`.
fn first_entry_of_layout(run: &TextSelectRun, layout_node_id: UzNodeId) -> (r: Option<usize>)
    ensures
        r matches Some(k) ==> first_of_layout(run.entries@, k as int, layout_node_id),
        r is None ==> forall|m: int| 0 <= m < run.entries@.len() ==> (#[trigger] run.entries@[m]).layout_node_id
            != layout_node_id,
{
    let n = run.entries.len();
    let mut j: usize = 0;
    while j < n
        invariant
            n == run.entries@.len(),
            j <= n,
            forall|m: int| 0 <= m < j ==> (#[trigger] run.entries@[m]).layout_node_id != layout_node_id,
        decreases n - j,
    {
        if run.entries[j].layout_node_id == layout_node_id {
            return Some(j);
        }
        j = j + 1;
    }
    None
}

/// Where a pointer hit in a layout of the run lands: for a layout without
/// text, the start of its first text node; otherwise the endpoint of the hit
/// byte (`endpoint_for_layout_byte`).
pub fn run_hit_endpoint(
    run: &TextSelectRun,
    layout_node_id: UzNodeId,
    text_len: usize,
    byte: usize,
    affinity: Affinity,
) -> (r: Option<SelectionEndpoint>)
    requires
        run_entries_fit(run.entries@),
    ensures
        text_len == 0 ==> if exists|i: int| 0 <= i < run.entries@.len() && (#[trigger] run.entries@[i]).layout_node_id
            == layout_node_id {
            exists|i: int| first_of_layout(run.entries@, i, layout_node_id) && r == Some(
                SelectionEndpoint { node: (#[trigger] run.entries@[i]).node_id, offset: 0, affinity: Affinity::Downstream },
            )
        } else {
            r.is_none()
        },
        text_len != 0 ==> spec_endpoint_for_layout_byte(run.entries@, layout_node_id, byte, affinity, r),
{
    if text_len == 0 {
        match first_entry_of_layout(run, layout_node_id) {
            Some(k) => Some(SelectionEndpoint::new(run.entries[k].node_id, 0, Affinity::Downstream)),
            None => None,
        }
    } else {
        endpoint_for_layout_byte(run, layout_node_id, byte, affinity)
    }
}

/// The endpoints of a word or line range (`start`..`end` in a layout's flat
/// text) that a multi-click selects: both ends mapped into the run (start
/// downstream, end upstream); a text node `node_id` without text gives an
/// empty range at its start. `None` when an end has no entry.
pub fn range_endpoints(
    run: &TextSelectRun,
    layout_node_id: UzNodeId,
    node_id: UzNodeId,
    text_len: usize,
    start: usize,
    end: usize,
) -> (r: Option<(SelectionEndpoint, SelectionEndpoint)>)
    requires
        run_entries_fit(run.entries@),
    ensures
        text_len == 0 ==> r == Some(
            (
                SelectionEndpoint { node: node_id, offset: 0, affinity: Affinity::Downstream },
                SelectionEndpoint { node: node_id, offset: 0, affinity: Affinity::Downstream },
            ),
        ),
        text_len != 0 ==> match r {
            Some((s, e)) => spec_endpoint_for_layout_byte(run.entries@, layout_node_id, start, Affinity::Downstream, Some(s))
                && spec_endpoint_for_layout_byte(run.entries@, layout_node_id, end, Affinity::Upstream, Some(e)),
            None => spec_endpoint_for_layout_byte(run.entries@, layout_node_id, start, Affinity::Downstream, None)
                || spec_endpoint_for_layout_byte(run.entries@, layout_node_id, end, Affinity::Upstream, None),
        },
{
    if text_len == 0 {
        let e = SelectionEndpoint::new(node_id, 0, Affinity::Downstream);
        return Some((e, e));
    }
    let s = match endpoint_for_layout_byte(run, layout_node_id, start, Affinity::Downstream) {
        Some(s) => s,
        None => return None,
    };
    let e = match endpoint_for_layout_byte(run, layout_node_id, end, Affinity::Upstream) {
        Some(e) => e,
        None => return None,
    };
    Some((s, e))
}


} // verus!

//! Per-window state kept on the script thread, and the deferred destroy queue.

use std::collections::HashMap;
use std::collections::VecDeque;

use vstd::prelude::*;

use crate::dom::{acyclic, lemma_clear_slot_ranked, lemma_empty_acyclic, lemma_push_acyclic, lemma_free_detached_keeps_connected, node_at, ranked, spec_ancestor_path, spec_is_connected, NodeKind, UiNode, UiState, VarBinding};
use crate::flags::{KeyModifiers, MouseButtons};
use crate::{UzNodeId, WindowEntryId};
use vstd::string::StrSliceExecFns;

verus! {

broadcast use vstd::std_specs::hash::group_hash_axioms;

/// A node whose script-side wrapper was collected, waiting to be freed.
pub type PendingDestroy = (WindowEntryId, UzNodeId);

/// What the script thread keeps of a window's native state, so that reads
/// from scripts stay synchronous.
#[derive(Clone, Copy, Debug, PartialEq, Eq, Structural)]
pub struct WindowRecord {
    /// The native window exists (it is created after the entry and dropped
    /// when closing is requested).
    pub native_window: bool,
    pub focused: bool,
    /// The theme the system reports: dark or light, once known.
    pub dark_theme: Option<bool>,
    pub outer_position: Option<WindowPosition>,
}

/// A window's outer position on the screen, in physical pixels.
#[derive(Clone, Copy, Debug, PartialEq, Eq, Structural)]
pub struct WindowPosition {
    pub x: i32,
    pub y: i32,
}

/// One window as the script thread sees it.
pub struct JsWindow {
    pub dom: UiState,
    pub record: WindowRecord,
    /// Bumped whenever the caret blink timer is restarted, so stale ticks
    /// can be told apart.
    pub cursor_blink_generation: u64,
    pub mouse_buttons: MouseButtons,
    pub modifiers: KeyModifiers,
    pub vars: VarTable,
}

/// All windows of the script thread and the nodes waiting to be freed.
pub struct JsState {
    pub windows: HashMap<WindowEntryId, JsWindow>,
    pub pending_destroy: VecDeque<PendingDestroy>,
    /// Net change of external bytes held by retained nodes since the last
    /// report to the script engine.
    pub external_memory_delta: i64,
}

/// The node slots of every window.
pub open spec fn nodes_of(ws: Map<WindowEntryId, JsWindow>) -> Map<WindowEntryId, Seq<Option<UiNode>>> {
    Map::new(|w: WindowEntryId| ws.contains_key(w), |w: WindowEntryId| ws[w].dom.nodes@)
}

/// The document root of every window.
pub open spec fn roots_of(ws: Map<WindowEntryId, JsWindow>) -> Map<WindowEntryId, Option<UzNodeId>> {
    Map::new(|w: WindowEntryId| ws.contains_key(w), |w: WindowEntryId| ws[w].dom.root)
}

/// One queued node: dropped when its window or node is gone, queued again
/// while it is still connected to its document, freed otherwise.
pub open spec fn drain_step(
    nodes: Map<WindowEntryId, Seq<Option<UiNode>>>,
    roots: Map<WindowEntryId, Option<UzNodeId>>,
    item: PendingDestroy,
) -> (Map<WindowEntryId, Seq<Option<UiNode>>>, Seq<PendingDestroy>) {
    let (w, n) = item;
    if !nodes.contains_key(w) || node_at(nodes[w], n) is None {
        (nodes, Seq::empty())
    } else if spec_is_connected(nodes[w], roots[w], n) {
        (nodes, seq![item])
    } else {
        (nodes.insert(w, nodes[w].update(n as int, None)), Seq::empty())
    }
}

/// The queue processed front to back: the node slots afterwards, and the
/// entries queued again, in order.
pub open spec fn drain_seq(
    nodes: Map<WindowEntryId, Seq<Option<UiNode>>>,
    roots: Map<WindowEntryId, Option<UzNodeId>>,
    q: Seq<PendingDestroy>,
) -> (Map<WindowEntryId, Seq<Option<UiNode>>>, Seq<PendingDestroy>)
    decreases q.len(),
{
    if q.len() == 0 {
        (nodes, Seq::empty())
    } else {
        let (n1, r1) = drain_seq(nodes, roots, q.drop_last());
        let (n2, r2) = drain_step(n1, roots, q.last());
        (n2, r1 + r2)
    }
}

/// Everything of a window but its node slots is the same.
pub open spec fn same_but_nodes(a: JsWindow, b: JsWindow) -> bool {
    &&& a.dom.root == b.dom.root
    &&& a.dom.focused_node == b.dom.focused_node
    &&& a.dom.text_selection == b.dom.text_selection
    &&& a.dom.hit_state == b.dom.hit_state
    &&& a.dom.drag_mode == b.dom.drag_mode
    &&& a.dom.last_click_node == b.dom.last_click_node
    &&& a.dom.click_count == b.dom.click_count
    &&& a.dom.window_focused == b.dom.window_focused
    &&& a.dom.scroll_into_view_request == b.dom.scroll_into_view_request
    &&& a.cursor_blink_generation == b.cursor_blink_generation
    &&& a.mouse_buttons == b.mouse_buttons
    &&& a.modifiers == b.modifiers
    &&& a.vars == b.vars
    &&& a.record == b.record
}

impl JsState {
    pub fn new() -> (r: Self)
        ensures
            r.windows@.len() == 0,
            r.pending_destroy@.len() == 0,
            r.external_memory_delta == 0,
    {
        JsState { windows: HashMap::new(), pending_destroy: VecDeque::new(), external_memory_delta: 0 }
    }

    /// Processes the destroy queue once: every entry present at the start is
    /// looked at exactly once, in order. Entries whose window or node is gone
    /// are dropped; nodes still connected to their document are queued again
    /// (the tree still owns them); the others are freed.
    pub fn drain_pending_destroy(&mut self)
        ensures
            final(self).windows@.dom() == old(self).windows@.dom(),
            forall|w: WindowEntryId| #[trigger] final(self).windows@.contains_key(w) ==> same_but_nodes(
                final(self).windows@[w],
                old(self).windows@[w],
            ),
            nodes_of(final(self).windows@) == drain_seq(nodes_of(old(self).windows@), roots_of(old(self).windows@), old(self).pending_destroy@).0,
            final(self).pending_destroy@ == drain_seq(nodes_of(old(self).windows@), roots_of(old(self).windows@), old(self).pending_destroy@).1,
            final(self).external_memory_delta == old(self).external_memory_delta,
    {
        let ghost q = self.pending_destroy@;
        let ghost ws0 = self.windows@;
        let ghost roots = roots_of(ws0);
        let pass = self.pending_destroy.len();
        let mut i: usize = 0;
        proof {
            assert(q.take(0) =~= Seq::<PendingDestroy>::empty());
            assert(nodes_of(ws0) =~= drain_seq(nodes_of(ws0), roots, q.take(0)).0);
            assert(self.pending_destroy@ =~= q.subrange(0, pass as int) + drain_seq(nodes_of(ws0), roots, q.take(0)).1);
        }
        while i < pass
            invariant
                pass == q.len(),
                i <= pass,
                self.windows@.dom() == ws0.dom(),
                forall|w: WindowEntryId| #[trigger] self.windows@.contains_key(w) ==> same_but_nodes(self.windows@[w], ws0[w]),
                roots == roots_of(ws0),
                nodes_of(self.windows@) == drain_seq(nodes_of(ws0), roots, q.take(i as int)).0,
                self.pending_destroy@ == q.subrange(i as int, pass as int) + drain_seq(nodes_of(ws0), roots, q.take(i as int)).1,
                self.external_memory_delta == old(self).external_memory_delta,
            decreases pass - i,
        {
            let ghost before_nodes = nodes_of(self.windows@);
            let ghost before_q = self.pending_destroy@;
            proof {
                assert(self.pending_destroy@.len() > 0);
            }
            let item = self.pending_destroy.pop_front().unwrap();
            proof {
                assert(item == q[i as int]);
                assert(q.take(i + 1).drop_last() =~= q.take(i as int));
                assert(q.take(i + 1).last() == q[i as int]);
                assert(roots_of(self.windows@) =~= roots);
            }
            let (window_id, node_id) = item;
            let mut requeue = false;
            if let Some(mut entry) = self.windows.remove(&window_id) {
                let ghost entry0 = entry;
                if entry.dom.nodes.contains(node_id) {
                    if entry.dom.nodes.is_connected(entry.dom.root, node_id) {
                        requeue = true;
                    } else {
                        entry.dom.nodes.destroy_node(node_id);
                    }
                }
                proof {
                    assert(same_but_nodes(entry, entry0));
                }
                self.windows.insert(window_id, entry);
                proof {
                    assert(nodes_of(self.windows@) =~= drain_step(before_nodes, roots, item).0);
                }
            } else {
                proof {
                    assert(nodes_of(self.windows@) =~= before_nodes);
                }
            }
            if requeue {
                self.pending_destroy.push_back(item);
            }
            proof {
                let s = drain_step(before_nodes, roots, item);
                assert(requeue == (s.1.len() == 1));
                assert(self.pending_destroy@ =~= q.subrange(i + 1, pass as int) + (drain_seq(nodes_of(ws0), roots, q.take(i as int)).1 + s.1));
            }
            i = i + 1;
        }
        proof {
            assert(q.take(pass as int) =~= q);
            assert(q.subrange(pass as int, pass as int) =~= Seq::<PendingDestroy>::empty());
            assert(self.pending_destroy@ =~= drain_seq(nodes_of(ws0), roots, q).1);
        }
    }
}

impl JsState {
    /// Forgets a window once its native window is gone.
    pub fn drop_window(&mut self, id: WindowEntryId)
        ensures
            final(self).windows@ == old(self).windows@.remove(id),
            final(self).pending_destroy@ == old(self).pending_destroy@,
            final(self).external_memory_delta == old(self).external_memory_delta,
    {
        self.windows.remove(&id);
    }

    /// The change in external memory to report to the script engine since
    /// the last report, if there is any; the running count restarts at zero.
    pub fn take_external_memory_delta(&mut self) -> (r: Option<i64>)
        ensures
            r == (if old(self).external_memory_delta == 0 { None } else { Some(old(self).external_memory_delta) }),
            final(self).external_memory_delta == 0,
            final(self).windows@ == old(self).windows@,
            final(self).pending_destroy@ == old(self).pending_destroy@,
    {
        let delta = self.external_memory_delta;
        self.external_memory_delta = 0;
        if delta == 0 {
            None
        } else {
            Some(delta)
        }
    }
}

/// Window variables, by name; names are distinct.
pub struct VarTable {
    entries: Vec<(String, String)>,
}

/// The value stored for name `k`: that of the last entry with this name.
pub open spec fn lookup(entries: Seq<(String, String)>, k: Seq<char>) -> Option<Seq<char>>
    decreases entries.len(),
{
    if entries.len() == 0 {
        None
    } else if entries.last().0@ == k {
        Some(entries.last().1@)
    } else {
        lookup(entries.drop_last(), k)
    }
}

pub open spec fn keys_distinct(entries: Seq<(String, String)>) -> bool {
    forall|i: int, j: int| 0 <= i < j < entries.len() ==> (#[trigger] entries[i]).0@ != (#[trigger] entries[j]).0@
}

proof fn lemma_lookup_at(entries: Seq<(String, String)>, i: int)
    requires
        keys_distinct(entries),
        0 <= i < entries.len(),
    ensures
        lookup(entries, entries[i].0@) == Some(entries[i].1@),
    decreases entries.len(),
{
    if i < entries.len() - 1 {
        assert(entries.last().0@ != entries[i].0@);
        assert(entries.drop_last()[i] == entries[i]);
        lemma_lookup_at(entries.drop_last(), i);
    }
}

proof fn lemma_lookup_absent(entries: Seq<(String, String)>, k: Seq<char>)
    requires
        forall|i: int| 0 <= i < entries.len() ==> (#[trigger] entries[i]).0@ != k,
    ensures
        lookup(entries, k).is_none(),
    decreases entries.len(),
{
    if entries.len() > 0 {
        assert(entries.last().0@ != k);
        assert forall|i: int| 0 <= i < entries.drop_last().len() implies (#[trigger] entries.drop_last()[i]).0@ != k by {
            assert(entries.drop_last()[i] == entries[i]);
        }
        lemma_lookup_absent(entries.drop_last(), k);
    }
}

/// Looking up a name in entries with distinct names finds the entry with
/// that name, if any.
proof fn lemma_lookup_iff(entries: Seq<(String, String)>, k: Seq<char>)
    requires
        keys_distinct(entries),
    ensures
        lookup(entries, k) is Some <==> exists|i: int| 0 <= i < entries.len() && (#[trigger] entries[i]).0@ == k,
        forall|i: int| 0 <= i < entries.len() && (#[trigger] entries[i]).0@ == k ==> lookup(entries, k) == Some(entries[i].1@),
{
    if exists|i: int| 0 <= i < entries.len() && (#[trigger] entries[i]).0@ == k {
        let i = choose|i: int| 0 <= i < entries.len() && (#[trigger] entries[i]).0@ == k;
        lemma_lookup_at(entries, i);
    } else {
        lemma_lookup_absent(entries, k);
    }
    assert forall|i: int| 0 <= i < entries.len() && (#[trigger] entries[i]).0@ == k implies lookup(entries, k) == Some(entries[i].1@) by {
        lemma_lookup_at(entries, i);
    }
}

impl VarTable {
    pub closed spec fn spec_get(&self, k: Seq<char>) -> Option<Seq<char>> {
        lookup(self.entries@, k)
    }

    pub closed spec fn wf(&self) -> bool {
        keys_distinct(self.entries@)
    }

    pub fn new() -> (r: Self)
        ensures
            r.wf(),
            forall|k: Seq<char>| r.spec_get(k).is_none(),
    {
        VarTable { entries: Vec::new() }
    }

    fn find(&self, key: &str) -> (r: Option<usize>)
        requires
            self.wf(),
        ensures
            match r {
                Some(i) => i < self.entries@.len() && self.entries@[i as int].0@ == key@,
                None => forall|i: int| 0 <= i < self.entries@.len() ==> (#[trigger] self.entries@[i]).0@ != key@,
            },
    {
        let n = self.entries.len();
        let mut i: usize = 0;
        while i < n
            invariant
                n == self.entries@.len(),
                i <= n,
                forall|j: int| 0 <= j < i ==> (#[trigger] self.entries@[j]).0@ != key@,
            decreases n - i,
        {
            if string_eq_str(&self.entries[i].0, key) {
                return Some(i);
            }
            i = i + 1;
        }
        None
    }

    /// The value of a variable.
    pub fn get(&self, key: &str) -> (r: Option<String>)
        requires
            self.wf(),
        ensures
            match r {
                Some(v) => self.spec_get(key@) == Some(v@),
                None => self.spec_get(key@).is_none(),
            },
    {
        proof {
            lemma_lookup_iff(self.entries@, key@);
        }
        match self.find(key) {
            Some(i) => Some(self.entries[i].1.clone()),
            None => None,
        }
    }

    /// Defines or redefines a variable.
    pub fn insert(&mut self, key: String, value: String)
        requires
            old(self).wf(),
        ensures
            final(self).wf(),
            final(self).spec_get(key@) == Some(value@),
            forall|k: Seq<char>| k != key@ ==> final(self).spec_get(k) == old(self).spec_get(k),
    {
        proof {
            lemma_lookup_iff(self.entries@, key@);
        }
        match self.find(key.as_str()) {
            Some(i) => {
                let ghost before = self.entries@;
                self.entries.set(i, (key, value));
                proof {
                    assert forall|a: int, b: int| 0 <= a < b < self.entries@.len() implies (#[trigger] self.entries@[a]).0@
                        != (#[trigger] self.entries@[b]).0@ by {
                        assert(self.entries@[a].0@ == before[a].0@);
                        assert(self.entries@[b].0@ == before[b].0@);
                    }
                    lemma_lookup_iff(self.entries@, key@);
                    assert(self.entries@[i as int].0@ == key@);
                    assert forall|k: Seq<char>| k != key@ implies lookup(self.entries@, k) == lookup(before, k) by {
                        lemma_lookup_iff(self.entries@, k);
                        lemma_lookup_iff(before, k);
                        if exists|j: int| 0 <= j < before.len() && (#[trigger] before[j]).0@ == k {
                            let j = choose|j: int| 0 <= j < before.len() && (#[trigger] before[j]).0@ == k;
                            assert(self.entries@[j] == before[j]);
                        }
                        if exists|j: int| 0 <= j < self.entries@.len() && (#[trigger] self.entries@[j]).0@ == k {
                            let j = choose|j: int| 0 <= j < self.entries@.len() && (#[trigger] self.entries@[j]).0@ == k;
                            assert(self.entries@[j] == before[j]);
                        }
                    }
                }
            },
            None => {
                let ghost before = self.entries@;
                self.entries.push((key, value));
                proof {
                    assert(self.entries@.drop_last() =~= before);
                    assert forall|k: Seq<char>| k != key@ implies lookup(self.entries@, k) == lookup(before, k) by {}
                }
            },
        }
    }

    /// Removes a variable.
    pub fn remove(&mut self, key: &str)
        requires
            old(self).wf(),
        ensures
            final(self).wf(),
            final(self).spec_get(key@).is_none(),
            forall|k: Seq<char>| k != key@ ==> final(self).spec_get(k) == old(self).spec_get(k),
    {
        match self.find(key) {
            Some(i) => {
                let ghost before = self.entries@;
                let _ = self.entries.remove(i);
                proof {
                    let after = self.entries@;
                    assert(after =~= before.remove(i as int));
                    assert forall|a: int, b: int| 0 <= a < b < after.len() implies (#[trigger] after[a]).0@
                        != (#[trigger] after[b]).0@ by {
                        let a0 = if a < i { a } else { a + 1 };
                        let b0 = if b < i { b } else { b + 1 };
                        assert(after[a] == before[a0]);
                        assert(after[b] == before[b0]);
                    }
                    assert forall|j: int| 0 <= j < after.len() implies (#[trigger] after[j]).0@ != key@ by {
                        let j0 = if j < i { j } else { j + 1 };
                        assert(after[j] == before[j0]);
                    }
                    lemma_lookup_absent(after, key@);
                    assert forall|k: Seq<char>| k != key@ implies lookup(after, k) == lookup(before, k) by {
                        lemma_lookup_iff(after, k);
                        lemma_lookup_iff(before, k);
                        if exists|j: int| 0 <= j < before.len() && (#[trigger] before[j]).0@ == k {
                            let j = choose|j: int| 0 <= j < before.len() && (#[trigger] before[j]).0@ == k;
                            assert(j != i);
                            let j1 = if j < i { j } else { j - 1 };
                            assert(after[j1] == before[j]);
                        }
                        if exists|j: int| 0 <= j < after.len() && (#[trigger] after[j]).0@ == k {
                            let j = choose|j: int| 0 <= j < after.len() && (#[trigger] after[j]).0@ == k;
                            let j0 = if j < i { j } else { j + 1 };
                            assert(after[j] == before[j0]);
                        }
                    }
                }
            },
            None => {
                proof {
                    lemma_lookup_absent(self.entries@, key@);
                }
            },
        }
    }
}

/// Whether a `String` holds the same text as a `&str`.
pub fn string_eq_str(a: &String, b: &str) -> (r: bool)
    ensures
        r == (a@ == b@),
{
    let sa = a.as_str();
    let n = sa.unicode_len();
    if n != b.unicode_len() {
        return false;
    }
    let mut i: usize = 0;
    while i < n
        invariant
            n == sa@.len(),
            sa@ == a@,
            n == b@.len(),
            i <= n,
            forall|j: int| 0 <= j < i ==> sa@[j] == b@[j],
        decreases n - i,
    {
        let ca = sa.get_char(i);
        let cb = b.get_char(i);
        if ca != cb {
            proof {
                assert(sa@[i as int] != b@[i as int]);
            }
            return false;
        }
        i = i + 1;
    }
    proof {
        assert(sa@ =~= b@);
    }
    true
}

/// The text of an optional string.
pub open spec fn opt_str(o: Option<String>) -> Option<Seq<char>> {
    match o {
        Some(s) => Some(s@),
        None => None,
    }
}

/// The variable a value refers to: `$name` refers to `name`.
pub open spec fn var_ref(value: Seq<char>) -> Option<Seq<char>> {
    if value.len() >= 1 && value[0] == '$' {
        Some(value.subrange(1, value.len() as int))
    } else {
        None
    }
}

/// The bindings that do not set attribute `name`.
pub open spec fn without_attr(bs: Seq<VarBinding>, name: Seq<char>) -> Seq<VarBinding> {
    bs.filter(|b: VarBinding| b.attr_name@ != name)
}

/// The attributes bound to variable `key`: (node, attribute) in node order,
/// then binding order.
pub open spec fn bound_attrs(nodes: Seq<Option<UiNode>>, key: Seq<char>) -> Seq<(UzNodeId, Seq<char>)>
    decreases nodes.len(),
{
    if nodes.len() == 0 {
        Seq::empty()
    } else {
        bound_attrs(nodes.drop_last(), key) + node_bound_attrs(nodes.last(), (nodes.len() - 1) as UzNodeId, key)
    }
}

pub open spec fn node_bound_attrs(slot: Option<UiNode>, id: UzNodeId, key: Seq<char>) -> Seq<(UzNodeId, Seq<char>)> {
    match slot {
        Some(n) => bindings_to(n.var_bindings@, id, key),
        None => Seq::empty(),
    }
}

/// The (node `id`, attribute) of each binding of `bs` to variable `key`, in
/// binding order.
pub open spec fn bindings_to(bs: Seq<VarBinding>, id: UzNodeId, key: Seq<char>) -> Seq<(UzNodeId, Seq<char>)>
    decreases bs.len(),
{
    if bs.len() == 0 {
        Seq::empty()
    } else if bs.last().var_name@ == key {
        bindings_to(bs.drop_last(), id, key).push((id, bs.last().attr_name@))
    } else {
        bindings_to(bs.drop_last(), id, key)
    }
}

/// An attribute to apply again after a variable changed: the new value, or
/// `None` when the variable was removed (the attribute goes back to its
/// default).
#[derive(Clone, Debug)]
pub struct VarUpdate {
    pub node_id: UzNodeId,
    pub attr_name: String,
    pub value: Option<String>,
}

fn clone_binding(b: &VarBinding) -> (r: VarBinding)
    ensures
        r == *b,
{
    VarBinding { attr_name: b.attr_name.clone(), var_name: b.var_name.clone() }
}

/// The bindings of `bs` that do not set attribute `name`, in order.
fn bindings_without(bs: &Vec<VarBinding>, name: &str) -> (r: Vec<VarBinding>)
    ensures
        r@ == without_attr(bs@, name@),
{
    let ghost pred = |b: VarBinding| b.attr_name@ != name@;
    let mut out: Vec<VarBinding> = Vec::new();
    let n = bs.len();
    let mut i: usize = 0;
    proof {
        reveal_with_fuel(Seq::<VarBinding>::filter, 1);
        assert(bs@.take(0) =~= Seq::<VarBinding>::empty());
    }
    while i < n
        invariant
            n == bs@.len(),
            i <= n,
            pred == (|b: VarBinding| b.attr_name@ != name@),
            out@ == bs@.take(i as int).filter(pred),
        decreases n - i,
    {
        let keep = !string_eq_str(&bs[i].attr_name, name);
        proof {
            assert(bs@.take(i + 1).drop_last() =~= bs@.take(i as int));
            assert(bs@.take(i + 1).last() == bs@[i as int]);
            reveal_with_fuel(Seq::<VarBinding>::filter, 1);
        }
        if keep {
            out.push(clone_binding(&bs[i]));
        }
        i = i + 1;
    }
    proof {
        assert(bs@.take(n as int) =~= bs@);
    }
    out
}

/// If `value` is `$name`, the name.
fn parse_var_ref(value: &str) -> (r: Option<String>)
    ensures
        opt_str(r) == var_ref(value@),
{
    let n = value.unicode_len();
    if n >= 1 && value.get_char(0) == '$' {
        Some(value.substring_char(1, n).to_owned())
    } else {
        None
    }
}

impl JsWindow {
    /// A window whose document holds only its root view.
    pub fn new() -> (r: Self)
        ensures
            r.dom.nodes@.len() == 1,
            r.dom.root == Some(0usize),
            r.dom.focused_node.is_none(),
            r.cursor_blink_generation == 0,
            r.mouse_buttons@ == 0,
            r.modifiers@ == 0,
            r.vars.wf(),
            forall|k: Seq<char>| r.vars.spec_get(k).is_none(),
            r.record == (WindowRecord { native_window: false, focused: false, dark_theme: None, outer_position: None }),
    {
        let mut dom = UiState::new();
        let node = UiNode::new(NodeKind::View);
        proof {
            lemma_empty_acyclic(dom.nodes@);
            lemma_push_acyclic(dom.nodes@, node);
        }
        let root = dom.nodes.create_node(node);
        dom.root = Some(root);
        JsWindow {
            dom,
            record: WindowRecord { native_window: false, focused: false, dark_theme: None, outer_position: None },
            cursor_blink_generation: 0,
            mouse_buttons: MouseButtons::empty(),
            modifiers: KeyModifiers::empty(),
            vars: VarTable::new(),
        }
    }

    /// Sets attribute `name` of a node to `value`. A value `$name` binds the
    /// attribute to window variable `name` (replacing any earlier binding of
    /// the attribute); otherwise the attribute loses its binding. Returns the
    /// value to apply: the value itself, the variable's value, or `None` for
    /// an unknown variable (the attribute keeps its current style until the
    /// variable is defined).
    pub fn set_attribute(&mut self, node_id: UzNodeId, name: &str, value: &str) -> (r: Option<String>)
        requires
            old(self).vars.wf(),
        ensures
            final(self).vars == old(self).vars,
            same_but_nodes(*final(self), *old(self)),
            opt_str(r) == applied_value(old(self).vars, value@),
            match node_at(old(self).dom.nodes@, node_id) {
                Some(n) => rebound(
                    old(self).dom.nodes@,
                    final(self).dom.nodes@,
                    node_id,
                    bindings_after(n.var_bindings@, name@, value@),
                ),
                None => final(self).dom.nodes@ == old(self).dom.nodes@,
            },
    {
        let var_name = parse_var_ref(value);
        if let Some(node) = self.dom.nodes.get(node_id) {
            let mut bindings = bindings_without(&node.var_bindings, name);
            let ghost kept = bindings@;
            if let Some(v) = &var_name {
                bindings.push(VarBinding { attr_name: name.to_owned(), var_name: v.clone() });
            }
            proof {
                assert(bview(bindings@) =~= match var_ref(value@) {
                    Some(v) => bview(kept).push((name@, v)),
                    None => bview(kept),
                });
            }
            self.dom.nodes.set_var_bindings(node_id, bindings);
        }
        match var_name {
            Some(v) => self.vars.get(v.as_str()),
            None => Some(value.to_owned()),
        }
    }

    /// Removes attribute `name`'s variable binding from a node (the caller
    /// clears the attribute itself).
    pub fn clear_attribute(&mut self, node_id: UzNodeId, name: &str)
        ensures
            final(self).vars == old(self).vars,
            same_but_nodes(*final(self), *old(self)),
            match node_at(old(self).dom.nodes@, node_id) {
                Some(n) => rebound(old(self).dom.nodes@, final(self).dom.nodes@, node_id, bview(without_attr(n.var_bindings@, name@))),
                None => final(self).dom.nodes@ == old(self).dom.nodes@,
            },
    {
        if let Some(node) = self.dom.nodes.get(node_id) {
            let bindings = bindings_without(&node.var_bindings, name);
            self.dom.nodes.set_var_bindings(node_id, bindings);
        }
    }
}

/// The (attribute, variable) names of bindings.
pub open spec fn bview(bs: Seq<VarBinding>) -> Seq<(Seq<char>, Seq<char>)> {
    bs.map_values(|b: VarBinding| (b.attr_name@, b.var_name@))
}

/// `after` is `before` with node `id`'s bindings replaced by ones named `bs`
/// and nothing else changed.
pub open spec fn rebound(before: Seq<Option<UiNode>>, after: Seq<Option<UiNode>>, id: UzNodeId, bs: Seq<(Seq<char>, Seq<char>)>) -> bool {
    &&& after.len() == before.len()
    &&& forall|j: int| 0 <= j < before.len() && j != id ==> after[j] == before[j]
    &&& node_at(before, id) is Some
    &&& node_at(after, id) matches Some(m) && {
        let n = node_at(before, id).unwrap();
        &&& m.parent == n.parent
        &&& m.kind == n.kind
        &&& m.focusable == n.focusable
        &&& m.text_select_root == n.text_select_root
        &&& m.edit_context_root == n.edit_context_root
        &&& m.cursor == n.cursor
        &&& bview(m.var_bindings@) == bs
    }
}

/// The (node, attribute) of each update.
pub open spec fn uview(us: Seq<VarUpdate>) -> Seq<(UzNodeId, Seq<char>)> {
    us.map_values(|u: VarUpdate| (u.node_id, u.attr_name@))
}

fn clone_opt(s: &Option<String>) -> (r: Option<String>)
    ensures
        r == *s,
{
    match s {
        Some(t) => Some(t.clone()),
        None => None,
    }
}

impl JsWindow {
    /// Sets (`Some`) or removes (`None`) window variable `key`, then lists
    /// every attribute bound to it, in node order, with the value to apply
    /// (`None`: back to the default).
    pub fn set_var(&mut self, key: &str, value: Option<String>) -> (r: Vec<VarUpdate>)
        requires
            old(self).vars.wf(),
        ensures
            final(self).vars.wf(),
            final(self).vars.spec_get(key@) == opt_str(value),
            forall|k: Seq<char>| k != key@ ==> final(self).vars.spec_get(k) == old(self).vars.spec_get(k),
            final(self).dom.nodes@ == old(self).dom.nodes@,
            same_but_vars(*final(self), *old(self)),
            uview(r@) == bound_attrs(old(self).dom.nodes@, key@),
            forall|i: int| 0 <= i < r@.len() ==> opt_str(#[trigger] r@[i].value) == opt_str(value),
    {
        match &value {
            Some(v) => self.vars.insert(key.to_owned(), v.clone()),
            None => self.vars.remove(key),
        }
        let ghost nodes = self.dom.nodes@;
        let mut out: Vec<VarUpdate> = Vec::new();
        let n = self.dom.nodes.len();
        let mut id: usize = 0;
        proof {
            assert(nodes.take(0) =~= Seq::<Option<UiNode>>::empty());
            assert(uview(out@) =~= bound_attrs(nodes.take(0), key@));
        }
        while id < n
            invariant
                n == nodes.len(),
                nodes == self.dom.nodes@,
                id <= n,
                uview(out@) == bound_attrs(nodes.take(id as int), key@),
                forall|i: int| 0 <= i < out@.len() ==> opt_str(#[trigger] out@[i].value) == opt_str(value),
            decreases n - id,
        {
            let ghost before = out@;
            if let Some(node) = self.dom.nodes.get(id) {
                let bs = &node.var_bindings;
                let m = bs.len();
                let mut j: usize = 0;
                proof {
                    assert(bs@.take(0) =~= Seq::<VarBinding>::empty());
                    assert(uview(out@) =~= uview(before) + bindings_to(bs@.take(0), id, key@));
                }
                while j < m
                    invariant
                        m == bs@.len(),
                        j <= m,
                        uview(out@) == uview(before) + bindings_to(bs@.take(j as int), id, key@),
                        out@.len() >= before.len(),
                        forall|i: int| 0 <= i < out@.len() ==> opt_str(#[trigger] out@[i].value) == opt_str(value),
                    decreases m - j,
                {
                    let hit = string_eq_str(&bs[j].var_name, key);
                    let ghost o0 = out@;
                    proof {
                        assert(bs@.take(j + 1).drop_last() =~= bs@.take(j as int));
                        assert(bs@.take(j + 1).last() == bs@[j as int]);
                    }
                    if hit {
                        out.push(VarUpdate { node_id: id, attr_name: bs[j].attr_name.clone(), value: clone_opt(&value) });
                        proof {
                            assert(uview(out@) =~= uview(o0).push((id, bs@[j as int].attr_name@)));
                        }
                    }
                    j = j + 1;
                }
                proof {
                    assert(bs@.take(m as int) =~= bs@);
                    assert(node_at(nodes, id) == Some(*node));
                }
            }
            proof {
                let t = nodes.take(id + 1);
                assert(t.drop_last() =~= nodes.take(id as int));
                assert(t.last() == nodes[id as int]);
                assert(bound_attrs(t, key@) == bound_attrs(nodes.take(id as int), key@) + node_bound_attrs(nodes[id as int], id, key@));
                assert(uview(out@) =~= bound_attrs(t, key@));
            }
            id = id + 1;
        }
        proof {
            assert(nodes.take(n as int) =~= nodes);
        }
        out
    }

    /// The caret blink timer is restarted: a new generation, so that ticks
    /// of the previous timer are ignored.
    pub fn next_blink_generation(&mut self) -> (r: u64)
        ensures
            r == (if old(self).cursor_blink_generation == u64::MAX { 0 } else { old(self).cursor_blink_generation + 1 }),
            final(self).cursor_blink_generation == r,
            final(self).dom.nodes@ == old(self).dom.nodes@,
            final(self).vars == old(self).vars,
    {
        self.cursor_blink_generation = self.cursor_blink_generation.wrapping_add(1);
        self.cursor_blink_generation
    }

    /// A blink tick redraws only when it comes from the current timer and the
    /// caret still blinks.
    pub fn blink_tick_redraws(&self, generation: u64, caret_blinking: bool) -> (r: bool)
        ensures
            r == (self.cursor_blink_generation == generation && caret_blinking),
    {
        self.cursor_blink_generation == generation && caret_blinking
    }
}

/// Everything of a window but its variables is the same.
pub open spec fn same_but_vars(a: JsWindow, b: JsWindow) -> bool {
    &&& a.dom.root == b.dom.root
    &&& a.dom.focused_node == b.dom.focused_node
    &&& a.dom.text_selection == b.dom.text_selection
    &&& a.dom.hit_state == b.dom.hit_state
    &&& a.dom.drag_mode == b.dom.drag_mode
    &&& a.dom.last_click_node == b.dom.last_click_node
    &&& a.dom.click_count == b.dom.click_count
    &&& a.dom.window_focused == b.dom.window_focused
    &&& a.dom.scroll_into_view_request == b.dom.scroll_into_view_request
    &&& a.cursor_blink_generation == b.cursor_blink_generation
    &&& a.mouse_buttons == b.mouse_buttons
    &&& a.modifiers == b.modifiers
    &&& a.record == b.record
}

/// One pass over the destroy queue frees only queued nodes that were not
/// connected to their document, changes nothing else, and whatever it
/// queues again is still connected to its document afterwards.
pub proof fn lemma_drain_laws(
    nodes: Map<WindowEntryId, Seq<Option<UiNode>>>,
    roots: Map<WindowEntryId, Option<UzNodeId>>,
    q: Seq<PendingDestroy>,
)
    requires
        forall|w: WindowEntryId| #[trigger] nodes.contains_key(w) ==> acyclic(nodes[w]),
    ensures
        ({
            let (after, requeued) = drain_seq(nodes, roots, q);
            &&& after.dom() == nodes.dom()
            &&& forall|w: WindowEntryId| #[trigger] nodes.contains_key(w) ==> after[w].len() == nodes[w].len()
                && acyclic(after[w])
            &&& forall|w: WindowEntryId, i: int| #![trigger after[w][i]] nodes.contains_key(w) && 0 <= i < nodes[w].len()
                && after[w][i] != nodes[w][i] ==> after[w][i] is None && q.contains((w, i as UzNodeId))
            &&& forall|k: int| 0 <= k < requeued.len() ==> q.contains(#[trigger] requeued[k])
                && after.contains_key(requeued[k].0) && spec_is_connected(after[requeued[k].0], roots[requeued[k].0], requeued[k].1)
        }),
    decreases q.len(),
{
    if q.len() == 0 {
        return;
    }
    let qd = q.drop_last();
    lemma_drain_laws(nodes, roots, qd);
    let (n1, r1) = drain_seq(nodes, roots, qd);
    let item = q.last();
    let (w, n) = item;
    let (n2, r2) = drain_step(n1, roots, item);
    assert(drain_seq(nodes, roots, q) == (n2, r1 + r2));
    assert forall|x: PendingDestroy| qd.contains(x) implies q.contains(x) by {
        let k = choose|k: int| 0 <= k < qd.len() && qd[k] == x;
        assert(q[k] == x);
    }
    assert(q.contains(item)) by {
        assert(q[q.len() - 1] == item);
    }
    if !n1.contains_key(w) || node_at(n1[w], n) is None {
        assert(r1 + r2 =~= r1);
    } else if spec_is_connected(n1[w], roots[w], n) {
        assert forall|k: int| 0 <= k < (r1 + r2).len() implies q.contains(#[trigger] (r1 + r2)[k])
            && n2.contains_key((r1 + r2)[k].0) && spec_is_connected(n2[(r1 + r2)[k].0], roots[(r1 + r2)[k].0], (r1 + r2)[k].1) by {
            if k < r1.len() {
                assert((r1 + r2)[k] == r1[k]);
            } else {
                assert((r1 + r2)[k] == item);
            }
        }
    } else {
        let old_w = n1[w];
        let new_w = old_w.update(n as int, None);
        assert(n2 == n1.insert(w, new_w));
        assert(r1 + r2 =~= r1);
        assert(acyclic(new_w)) by {
            let rank = choose|rank: Seq<nat>| ranked(old_w, rank);
            lemma_clear_slot_ranked(old_w, rank, n as int);
        }
        assert forall|k: int| 0 <= k < r1.len() implies q.contains(#[trigger] r1[k]) && n2.contains_key(r1[k].0)
            && spec_is_connected(n2[r1[k].0], roots[r1[k].0], r1[k].1) by {
            if r1[k].0 == w {
                lemma_free_detached_keeps_connected(old_w, roots[w], n, r1[k].1);
            }
        }
        assert forall|v: WindowEntryId, i: int| #![trigger n2[v][i]] nodes.contains_key(v) && 0 <= i < nodes[v].len()
            && n2[v][i] != nodes[v][i] implies n2[v][i] is None && q.contains((v, i as UzNodeId)) by {
            if v == w && i == n {
            } else {
                assert(n2[v][i] == n1[v][i]);
            }
        }
    }
}

proof fn lemma_bindings_to_lists(bs: Seq<VarBinding>, id: UzNodeId, attr: Seq<char>, name: Seq<char>)
    requires
        bview(bs).contains((attr, name)),
    ensures
        bindings_to(bs, id, name).contains((id, attr)),
    decreases bs.len(),
{
    let k = choose|k: int| 0 <= k < bview(bs).len() && bview(bs)[k] == (attr, name);
    let rest = bindings_to(bs.drop_last(), id, name);
    if k == bs.len() - 1 {
        assert(bs.last().var_name@ == name && bs.last().attr_name@ == attr);
        assert(bindings_to(bs, id, name) == rest.push((id, attr)));
        assert(rest.push((id, attr))[rest.len() as int] == (id, attr));
    } else {
        assert(bview(bs.drop_last())[k] == (attr, name));
        lemma_bindings_to_lists(bs.drop_last(), id, attr, name);
        let i = choose|i: int| 0 <= i < rest.len() && rest[i] == (id, attr);
        if bs.last().var_name@ == name {
            assert(rest.push((id, bs.last().attr_name@))[i] == (id, attr));
        }
    }
}

/// A node whose bindings bind attribute `attr` to variable `name` is among
/// the attributes bound to `name`.
pub proof fn lemma_binding_listed(nodes: Seq<Option<UiNode>>, id: UzNodeId, attr: Seq<char>, name: Seq<char>)
    requires
        node_at(nodes, id) matches Some(n) && bview(n.var_bindings@).contains((attr, name)),
    ensures
        bound_attrs(nodes, name).contains((id, attr)),
    decreases nodes.len(),
{
    let last = (nodes.len() - 1) as UzNodeId;
    let prefix = bound_attrs(nodes.drop_last(), name);
    let tail = node_bound_attrs(nodes.last(), last, name);
    assert(bound_attrs(nodes, name) == prefix + tail);
    if id as int == nodes.len() - 1 {
        assert(last == id);
        let n = node_at(nodes, id).unwrap();
        assert(nodes.last() == Some(n));
        lemma_bindings_to_lists(n.var_bindings@, id, attr, name);
        let j = choose|j: int| 0 <= j < tail.len() && tail[j] == (id, attr);
        assert((prefix + tail)[prefix.len() + j] == (id, attr));
    } else {
        assert(node_at(nodes.drop_last(), id) == node_at(nodes, id));
        lemma_binding_listed(nodes.drop_last(), id, attr, name);
        let i = choose|i: int| 0 <= i < prefix.len() && prefix[i] == (id, attr);
        assert((prefix + tail)[i] == (id, attr));
    }
}

/// An attribute set to `$name` follows variable `name` even when `name` is
/// not defined yet: once `set_attribute` has bound it (the node's bindings
/// then end with (`attr`, `name`)), the node and attribute are among the
/// attributes bound to `name`, which is what `set_var` on `name` lists.
pub proof fn lemma_late_definition_applies(
    before: Seq<Option<UiNode>>,
    after: Seq<Option<UiNode>>,
    id: UzNodeId,
    kept: Seq<(Seq<char>, Seq<char>)>,
    attr: Seq<char>,
    name: Seq<char>,
)
    requires
        rebound(before, after, id, kept.push((attr, name))),
    ensures
        bound_attrs(after, name).contains((id, attr)),
{
    let bs = kept.push((attr, name));
    assert(bs[bs.len() - 1] == (attr, name));
    lemma_binding_listed(after, id, attr, name);
}

/// The value an attribute set to `value` gets: the variable's value for a
/// reference `$name` (none while `name` is undefined), else `value` itself.
pub open spec fn applied_value(vars: VarTable, value: Seq<char>) -> Option<Seq<char>> {
    match var_ref(value) {
        Some(v) => vars.spec_get(v),
        None => Some(value),
    }
}

/// The (attribute, variable) bindings a node has after attribute `name` is
/// set to `value`: the others stay, and a reference binds `name` last.
pub open spec fn bindings_after(bs: Seq<VarBinding>, name: Seq<char>, value: Seq<char>) -> Seq<(Seq<char>, Seq<char>)> {
    match var_ref(value) {
        Some(v) => bview(without_attr(bs, name)).push((name, v)),
        None => bview(without_attr(bs, name)),
    }
}

/// Setting an attribute to `$v` applies what setting it to the value of `v`
/// applies, when that value is not itself a reference: the same value, and
/// the same bindings but for the last one, which makes the attribute follow
/// `v`. While `v` is undefined, `$v` applies nothing.
pub proof fn lemma_reference_applies_like_value(vars: VarTable, bs: Seq<VarBinding>, name: Seq<char>, v: Seq<char>)
    ensures
        (vars.spec_get(v) matches Some(t) && var_ref(t) is None) ==> applied_value(vars, seq!['$'] + v)
            == applied_value(vars, vars.spec_get(v).unwrap()) && bindings_after(bs, name, seq!['$'] + v) == bindings_after(
            bs,
            name,
            vars.spec_get(v).unwrap(),
        ).push((name, v)),
        vars.spec_get(v) is None ==> applied_value(vars, seq!['$'] + v) is None,
{
    lemma_var_ref_roundtrip(v, Seq::empty());
}

/// A value `$name` refers to variable `name`, and a value that does not
/// start with `$` refers to no variable.
pub proof fn lemma_var_ref_roundtrip(name: Seq<char>, value: Seq<char>)
    ensures
        var_ref(seq!['$'] + name) == Some(name),
        (value.len() == 0 || value[0] != '$') ==> var_ref(value).is_none(),
{
    let v = seq!['$'] + name;
    assert(v[0] == '$');
    assert(v.subrange(1, v.len() as int) =~= name);
}

} // verus!

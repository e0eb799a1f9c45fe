//! The document of a window as the event layer sees it: a forest of nodes
//! linked to their parents, plus focus, selection, hover and drag state.

use vstd::prelude::*;

use crate::hitbox::HitTestState;
use crate::selection::TextSelection;
use crate::UzNodeId;

verus! {

/// The pointer shape a node asks for.
#[derive(Clone, Copy, Debug, PartialEq, Eq, Structural)]
pub enum CursorIcon {
    Default,
    Pointer,
    Text,
    Wait,
    Crosshair,
    NotAllowed,
    Move,
    Grab,
    Grabbing,
}

/// What a node is, as far as input handling cares.
#[derive(Clone, Copy, Debug, PartialEq, Eq, Structural)]
pub enum NodeKind {
    View,
    Text,
    Button,
    Checkbox { checked: bool },
    TextInput { secure: bool, multiline: bool },
}

/// An attribute whose value comes from a window variable (`$name`).
#[derive(Clone, Debug)]
pub struct VarBinding {
    pub attr_name: String,
    pub var_name: String,
}

#[derive(Clone, Debug)]
pub struct UiNode {
    pub parent: Option<UzNodeId>,
    pub kind: NodeKind,
    /// Reachable with Tab.
    pub focusable: bool,
    /// Root of a run of selectable text.
    pub text_select_root: bool,
    /// A view whose text script owns: keys there are reported as text updates
    /// and never edit the node itself.
    pub edit_context_root: bool,
    /// The node's own `cursor` style, if set.
    pub cursor: Option<CursorIcon>,
    pub var_bindings: Vec<VarBinding>,
}

impl UiNode {
    /// A node with no parent, no cursor, no bindings, neither focusable nor a
    /// selection root.
    pub fn new(kind: NodeKind) -> (r: Self)
        ensures
            r.parent.is_none(),
            r.kind == kind,
            !r.focusable,
            !r.text_select_root,
            !r.edit_context_root,
            r.cursor.is_none(),
            r.var_bindings@.len() == 0,
    {
        UiNode {
            parent: None,
            kind,
            focusable: false,
            text_select_root: false,
            edit_context_root: false,
            cursor: None,
            var_bindings: Vec::new(),
        }
    }
}

/// The node stored under `id`, if any.
pub open spec fn node_at(nodes: Seq<Option<UiNode>>, id: UzNodeId) -> Option<UiNode> {
    if id < nodes.len() {
        nodes[id as int]
    } else {
        None
    }
}

/// The parent of the node stored under `id`, when both are stored.
pub open spec fn stored_parent(nodes: Seq<Option<UiNode>>, i: int) -> Option<UzNodeId> {
    if 0 <= i < nodes.len() && nodes[i] is Some && nodes[i].unwrap().parent is Some && node_at(
        nodes,
        nodes[i].unwrap().parent.unwrap(),
    ) is Some {
        nodes[i].unwrap().parent
    } else {
        None
    }
}

/// `rank` gives every slot a rank below the number of slots, and a parent
/// link between two stored nodes always goes to a lower rank.
pub open spec fn ranked(nodes: Seq<Option<UiNode>>, rank: Seq<nat>) -> bool {
    &&& rank.len() == nodes.len()
    &&& forall|i: int| 0 <= i < nodes.len() ==> #[trigger] rank[i] < nodes.len()
    &&& forall|i: int| #[trigger] stored_parent(nodes, i) is Some ==> rank[stored_parent(nodes, i).unwrap() as int] < rank[i]
}

/// Following parent links never leads back to a node already passed: the
/// nodes can be ranked so that every link goes down.
pub open spec fn acyclic(nodes: Seq<Option<UiNode>>) -> bool {
    exists|rank: Seq<nat>| ranked(nodes, rank)
}

/// At most `fuel` parent links followed from `id`: the node, then its
/// ancestors, until a node without parent or a missing node.
pub open spec fn parent_walk(nodes: Seq<Option<UiNode>>, id: UzNodeId, fuel: nat) -> Seq<UzNodeId>
    decreases fuel,
{
    match node_at(nodes, id) {
        Some(n) => match n.parent {
            Some(p) => if fuel > 0 {
                seq![id] + parent_walk(nodes, p, (fuel - 1) as nat)
            } else {
                seq![id]
            },
            None => seq![id],
        },
        None => seq![id],
    }
}

/// The node and its ancestors, innermost first, following parent links until
/// a node without parent or a missing node. (In an acyclic document, as many
/// links as there are slots always reach that end.)
pub open spec fn spec_ancestor_path(nodes: Seq<Option<UiNode>>, id: UzNodeId) -> Seq<UzNodeId> {
    parent_walk(nodes, id, nodes.len())
}

/// With enough fuel the walk is the same whatever the fuel.
proof fn lemma_walk_fuel(nodes: Seq<Option<UiNode>>, rank: Seq<nat>, id: UzNodeId, f1: nat, f2: nat)
    requires
        ranked(nodes, rank),
        node_at(nodes, id) is Some ==> rank[id as int] < f1 && rank[id as int] < f2,
    ensures
        parent_walk(nodes, id, f1) == parent_walk(nodes, id, f2),
    decreases f1,
{
    if let Some(n) = node_at(nodes, id) {
        if let Some(p) = n.parent {
            assert(nodes[id as int] == Some(n));
            if node_at(nodes, p) is Some {
                assert(stored_parent(nodes, id as int) == Some(p));
            }
            lemma_walk_fuel(nodes, rank, p, (f1 - 1) as nat, (f2 - 1) as nat);
        }
    }
}

/// The path of a stored node with a parent is the node, then its parent's path.
pub proof fn lemma_ancestor_path_unfold(nodes: Seq<Option<UiNode>>, id: UzNodeId)
    requires
        acyclic(nodes),
    ensures
        spec_ancestor_path(nodes, id) == match node_at(nodes, id) {
            Some(n) => match n.parent {
                Some(p) => seq![id] + spec_ancestor_path(nodes, p),
                None => seq![id],
            },
            None => seq![id],
        },
{
    let rank = choose|rank: Seq<nat>| ranked(nodes, rank);
    if let Some(n) = node_at(nodes, id) {
        if let Some(p) = n.parent {
            assert(nodes[id as int] == Some(n));
            assert(rank[id as int] < nodes.len());
            if node_at(nodes, p) is Some {
                assert(stored_parent(nodes, id as int) == Some(p));
                assert(rank[p as int] < rank[id as int]);
            }
            lemma_walk_fuel(nodes, rank, p, (nodes.len() - 1) as nat, nodes.len());
        }
    }
}

/// Every stored node on a path is ranked no higher than where it starts.
proof fn lemma_path_ranks(nodes: Seq<Option<UiNode>>, rank: Seq<nat>, id: UzNodeId)
    requires
        ranked(nodes, rank),
        node_at(nodes, id) is Some,
    ensures
        forall|k: int| 0 <= k < spec_ancestor_path(nodes, id).len() && node_at(nodes, #[trigger] spec_ancestor_path(nodes, id)[k]) is Some
            ==> rank[spec_ancestor_path(nodes, id)[k] as int] <= rank[id as int],
    decreases rank[id as int],
{
    assert(acyclic(nodes));
    lemma_ancestor_path_unfold(nodes, id);
    let path = spec_ancestor_path(nodes, id);
    let n = node_at(nodes, id).unwrap();
    assert(nodes[id as int] == Some(n));
    if let Some(p) = n.parent {
        let rest = spec_ancestor_path(nodes, p);
        if node_at(nodes, p) is Some {
            assert(stored_parent(nodes, id as int) == Some(p));
            lemma_path_ranks(nodes, rank, p);
        } else {
            lemma_ancestor_path_unfold(nodes, p);
        }
        assert forall|k: int| 0 <= k < path.len() && node_at(nodes, #[trigger] path[k]) is Some implies rank[path[k] as int]
            <= rank[id as int] by {
            if k > 0 {
                assert(path[k] == rest[k - 1]);
            }
        }
    }
}

/// The shape of a path in an acyclic document: it starts at the node, each
/// entry but the last is a stored node whose parent is the next entry, the
/// last entry is missing or has no parent, and no entry repeats.
pub proof fn lemma_ancestor_path_shape(nodes: Seq<Option<UiNode>>, id: UzNodeId)
    requires
        acyclic(nodes),
    ensures
        ({
            let path = spec_ancestor_path(nodes, id);
            &&& path.len() >= 1
            &&& path[0] == id
            &&& forall|i: int| 0 < i < path.len() ==> (node_at(nodes, #[trigger] path[i - 1]) matches Some(n) && n.parent
                == Some(path[i]))
            &&& node_at(nodes, path.last()) matches Some(n) ==> n.parent is None
            &&& path.no_duplicates()
        }),
    decreases spec_ancestor_path(nodes, id).len(),
{
    let rank = choose|rank: Seq<nat>| ranked(nodes, rank);
    lemma_ancestor_path_unfold(nodes, id);
    let path = spec_ancestor_path(nodes, id);
    if let Some(n) = node_at(nodes, id) {
        if let Some(p) = n.parent {
            let rest = spec_ancestor_path(nodes, p);
            lemma_ancestor_path_shape(nodes, p);
            assert(path == seq![id] + rest);
            assert(path.last() == rest.last());
            assert forall|i: int| 0 < i < path.len() implies (node_at(nodes, #[trigger] path[i - 1]) matches Some(m) && m.parent
                == Some(path[i])) by {
                if i > 1 {
                    assert(path[i - 1] == rest[i - 2]);
                    assert(path[i] == rest[i - 1]);
                }
            }
            // `id` is not on its parent's path: stored entries there rank lower.
            assert(!rest.contains(id)) by {
                if rest.contains(id) {
                    let k = choose|k: int| 0 <= k < rest.len() && rest[k] == id;
                    assert(nodes[id as int] == Some(n));
                    assert(node_at(nodes, p) is Some) by {
                        if node_at(nodes, p) is None {
                            lemma_ancestor_path_unfold(nodes, p);
                            assert(rest == seq![p]);
                        }
                    }
                    assert(stored_parent(nodes, id as int) == Some(p));
                    lemma_path_ranks(nodes, rank, p);
                    assert(rest[k] == id);
                }
            }
            assert forall|a: int, b: int| 0 <= a < path.len() && 0 <= b < path.len() && a != b implies path[a] != path[b] by {
                if a > 0 && b > 0 {
                    assert(path[a] == rest[a - 1]);
                    assert(path[b] == rest[b - 1]);
                } else if a == 0 {
                    assert(path[b] == rest[b - 1]);
                } else {
                    assert(path[a] == rest[a - 1]);
                }
            }
        }
    }
}

/// The path of any entry of a path is the rest of that path.
pub proof fn lemma_ancestor_path_suffix(nodes: Seq<Option<UiNode>>, id: UzNodeId, k: int)
    requires
        acyclic(nodes),
        0 <= k < spec_ancestor_path(nodes, id).len(),
    ensures
        spec_ancestor_path(nodes, spec_ancestor_path(nodes, id)[k]) == spec_ancestor_path(nodes, id).subrange(
            k,
            spec_ancestor_path(nodes, id).len() as int,
        ),
    decreases spec_ancestor_path(nodes, id).len(),
{
    lemma_ancestor_path_unfold(nodes, id);
    let path = spec_ancestor_path(nodes, id);
    if k == 0 {
        assert(path.subrange(0, path.len() as int) =~= path);
    } else {
        let n = node_at(nodes, id).unwrap();
        let p = n.parent.unwrap();
        let rest = spec_ancestor_path(nodes, p);
        assert(path == seq![id] + rest);
        lemma_ancestor_path_suffix(nodes, p, k - 1);
        assert(path[k] == rest[k - 1]);
        assert(rest.subrange(k - 1, rest.len() as int) =~= path.subrange(k, path.len() as int));
    }
}

/// Slots that keep their presence and parent links keep a ranking.
pub proof fn lemma_same_links_ranked(before: Seq<Option<UiNode>>, after: Seq<Option<UiNode>>, rank: Seq<nat>)
    requires
        ranked(before, rank),
        after.len() == before.len(),
        forall|i: int| 0 <= i < before.len() ==> (#[trigger] after[i] is Some) == before[i] is Some,
        forall|i: int| 0 <= i < before.len() && after[i] is Some ==> (#[trigger] after[i]).unwrap().parent
            == before[i].unwrap().parent,
    ensures
        ranked(after, rank),
{
    assert forall|i: int| #[trigger] stored_parent(after, i) is Some implies rank[stored_parent(after, i).unwrap() as int] < rank[i] by {
        let p = stored_parent(after, i).unwrap();
        assert(after[i] is Some);
        assert(after[p as int] is Some);
        assert(stored_parent(before, i) == Some(p));
    }
}

/// Emptying a slot keeps a ranking.
pub proof fn lemma_clear_slot_ranked(nodes: Seq<Option<UiNode>>, rank: Seq<nat>, z: int)
    requires
        ranked(nodes, rank),
        0 <= z < nodes.len(),
    ensures
        ranked(nodes.update(z, None), rank),
{
    let after = nodes.update(z, None);
    assert forall|i: int| #[trigger] stored_parent(after, i) is Some implies rank[stored_parent(after, i).unwrap() as int] < rank[i] by {
        let p = stored_parent(after, i).unwrap();
        assert(after[i] == nodes[i]);
        assert(after[p as int] == nodes[p as int]);
        assert(stored_parent(nodes, i) == Some(p));
    }
}

/// A document without slots is acyclic.
pub proof fn lemma_empty_acyclic(nodes: Seq<Option<UiNode>>)
    requires
        nodes.len() == 0,
    ensures
        acyclic(nodes),
{
    assert(ranked(nodes, Seq::<nat>::empty()));
}

/// Adding a node keeps the document acyclic when no stored node links to
/// the new slot yet and the new node is not its own parent: the new node
/// ranks above its parent.
pub proof fn lemma_push_acyclic(nodes: Seq<Option<UiNode>>, node: UiNode)
    requires
        acyclic(nodes),
        forall|i: int| 0 <= i < nodes.len() && #[trigger] nodes[i] is Some ==> nodes[i].unwrap().parent != Some(
            nodes.len() as UzNodeId,
        ),
        node.parent != Some(nodes.len() as UzNodeId),
        nodes.len() < usize::MAX,
    ensures
        acyclic(nodes.push(Some(node))),
{
    let rank = choose|rank: Seq<nat>| ranked(nodes, rank);
    let after = nodes.push(Some(node));
    let r: nat = match node.parent {
        Some(p) => if node_at(nodes, p) is Some {
            rank[p as int] + 1
        } else {
            0
        },
        None => 0,
    };
    let rank2 = rank.push(r);
    if let Some(p) = node.parent {
        if node_at(nodes, p) is Some {
            assert(rank[p as int] < nodes.len());
        }
    }
    assert forall|i: int| #[trigger] stored_parent(after, i) is Some implies rank2[stored_parent(after, i).unwrap() as int] < rank2[i] by {
        let p = stored_parent(after, i).unwrap();
        if i < nodes.len() {
            assert(after[i] == nodes[i]);
            assert(p != nodes.len());
            assert(after[p as int] == nodes[p as int]);
            assert(stored_parent(nodes, i) == Some(p));
        } else {
            assert(node_at(nodes, p) is Some);
        }
    }
    assert(ranked(after, rank2));
}

/// The first node of `path` that exists and is a button.
pub open spec fn first_button(nodes: Seq<Option<UiNode>>, path: Seq<UzNodeId>) -> Option<UzNodeId>
    decreases path.len(),
{
    if path.len() == 0 {
        None
    } else if node_at(nodes, path[0]) matches Some(n) && n.kind == NodeKind::Button {
        Some(path[0])
    } else {
        first_button(nodes, path.drop_first())
    }
}

/// The first node of `path` that exists and is a selectable-text root.
pub open spec fn first_text_root(nodes: Seq<Option<UiNode>>, path: Seq<UzNodeId>) -> Option<UzNodeId>
    decreases path.len(),
{
    if path.len() == 0 {
        None
    } else if node_at(nodes, path[0]) matches Some(n) && n.text_select_root {
        Some(path[0])
    } else {
        first_text_root(nodes, path.drop_first())
    }
}

/// The cursor of the first node of `path` that sets one; the default arrow
/// when none does.
pub open spec fn first_cursor(nodes: Seq<Option<UiNode>>, path: Seq<UzNodeId>) -> CursorIcon
    decreases path.len(),
{
    if path.len() == 0 {
        CursorIcon::Default
    } else if node_at(nodes, path[0]) matches Some(n) && n.cursor is Some {
        node_at(nodes, path[0]).unwrap().cursor.unwrap()
    } else {
        first_cursor(nodes, path.drop_first())
    }
}

/// The node exists and is connected to `root` through parent links.
pub open spec fn spec_is_connected(nodes: Seq<Option<UiNode>>, root: Option<UzNodeId>, id: UzNodeId) -> bool {
    &&& node_at(nodes, id) is Some
    &&& root matches Some(r) && spec_ancestor_path(nodes, id).contains(r)
}

/// Nodes stored by id. Removed nodes leave an empty slot; ids are not reused.
pub struct NodeTree {
    nodes: Vec<Option<UiNode>>,
}

impl View for NodeTree {
    type V = Seq<Option<UiNode>>;

    closed spec fn view(&self) -> Seq<Option<UiNode>> {
        self.nodes@
    }
}

impl NodeTree {
    #[verifier::type_invariant]
    closed spec fn inv(self) -> bool {
        acyclic(self.nodes@)
    }

    pub fn new() -> (r: Self)
        ensures
            r@.len() == 0,
    {
        proof {
            assert(ranked(Seq::<Option<UiNode>>::empty(), Seq::<nat>::empty()));
        }
        NodeTree { nodes: Vec::new() }
    }

    /// The number of slots; the document is acyclic.
    pub fn len(&self) -> (r: usize)
        ensures
            r == self@.len(),
            acyclic(self@),
    {
        proof {
            use_type_invariant(self);
        }
        self.nodes.len()
    }

    /// Stores a node under the next id. Its parent link may point anywhere,
    /// as long as no cycle of parent links forms.
    pub fn create_node(&mut self, node: UiNode) -> (id: UzNodeId)
        requires
            acyclic(old(self)@.push(Some(node))),
        ensures
            id == old(self)@.len(),
            final(self)@ == old(self)@.push(Some(node)),
    {
        let id = self.nodes.len();
        let mut nodes: Vec<Option<UiNode>> = Vec::new();
        proof {
            lemma_empty_acyclic(nodes@);
        }
        std::mem::swap(&mut nodes, &mut self.nodes);
        nodes.push(Some(node));
        self.nodes = nodes;
        id
    }

    /// Links a stored node to a new parent (or none), as long as no cycle of
    /// parent links forms; nothing changes when the node is missing.
    pub fn set_parent(&mut self, id: UzNodeId, parent: Option<UzNodeId>)
        requires
            node_at(old(self)@, id) is Some ==> acyclic(
                old(self)@.update(id as int, Some(UiNode { parent, ..node_at(old(self)@, id).unwrap() })),
            ),
        ensures
            node_at(old(self)@, id) is Some ==> final(self)@ == old(self)@.update(
                id as int,
                Some(UiNode { parent, ..node_at(old(self)@, id).unwrap() }),
            ),
            node_at(old(self)@, id) is None ==> final(self)@ == old(self)@,
    {
        proof {
            use_type_invariant(&*self);
        }
        if id >= self.nodes.len() {
            return;
        }
        let mut nodes: Vec<Option<UiNode>> = Vec::new();
        proof {
            lemma_empty_acyclic(nodes@);
        }
        std::mem::swap(&mut nodes, &mut self.nodes);
        let ghost before = nodes@;
        let slot = nodes.remove(id);
        let put_back = match slot {
            Some(n) => Some(
                UiNode {
                    parent,
                    kind: n.kind,
                    focusable: n.focusable,
                    text_select_root: n.text_select_root,
                    edit_context_root: n.edit_context_root,
                    cursor: n.cursor,
                    var_bindings: n.var_bindings,
                },
            ),
            None => None,
        };
        nodes.insert(id, put_back);
        proof {
            assert(nodes@ =~= before.update(id as int, put_back));
            if put_back is None {
                assert(nodes@ =~= before);
            }
        }
        self.nodes = nodes;
    }

    /// Removes a node; links to it from other nodes are left dangling.
    pub fn destroy_node(&mut self, id: UzNodeId)
        ensures
            final(self)@ == (if id < old(self)@.len() { old(self)@.update(id as int, None) } else { old(self)@ }),
    {
        proof {
            use_type_invariant(&*self);
        }
        if id < self.nodes.len() {
            let mut nodes: Vec<Option<UiNode>> = Vec::new();
            proof {
                lemma_empty_acyclic(nodes@);
            }
            std::mem::swap(&mut nodes, &mut self.nodes);
            nodes.set(id, None);
            proof {
                let rank = choose|rank: Seq<nat>| ranked(old(self)@, rank);
                lemma_clear_slot_ranked(old(self)@, rank, id as int);
            }
            self.nodes = nodes;
        }
    }

    pub fn contains(&self, id: UzNodeId) -> (r: bool)
        ensures
            r == node_at(self@, id).is_some(),
    {
        id < self.nodes.len() && self.nodes[id].is_some()
    }

    pub fn get(&self, id: UzNodeId) -> (r: Option<&UiNode>)
        ensures
            match r {
                Some(n) => node_at(self@, id) == Some(*n),
                None => node_at(self@, id).is_none(),
            },
    {
        if id < self.nodes.len() {
            match &self.nodes[id] {
                Some(n) => Some(n),
                None => None,
            }
        } else {
            None
        }
    }

    /// Sets a checkbox's state; `false` (and no change) when the node is not
    /// a checkbox.
    pub fn set_checked(&mut self, id: UzNodeId, checked: bool) -> (r: bool)
        ensures
            r == (node_at(old(self)@, id) matches Some(n) && n.kind is Checkbox),
            r ==> final(self)@ == old(self)@.update(
                id as int,
                Some(UiNode { kind: NodeKind::Checkbox { checked }, ..node_at(old(self)@, id).unwrap() }),
            ),
            !r ==> final(self)@ == old(self)@,
    {
        proof {
            use_type_invariant(&*self);
        }
        if id >= self.nodes.len() {
            return false;
        }
        let mut nodes: Vec<Option<UiNode>> = Vec::new();
        proof {
            lemma_empty_acyclic(nodes@);
        }
        std::mem::swap(&mut nodes, &mut self.nodes);
        let ghost before = nodes@;
        let slot = nodes.remove(id);
        let (put_back, changed) = match slot {
            Some(n) => {
                match n.kind {
                    NodeKind::Checkbox { .. } => {
                        let new_node = UiNode {
                            parent: n.parent,
                            kind: NodeKind::Checkbox { checked },
                            focusable: n.focusable,
                            text_select_root: n.text_select_root,
                            edit_context_root: n.edit_context_root,
                            cursor: n.cursor,
                            var_bindings: n.var_bindings,
                        };
                        (Some(new_node), true)
                    },
                    _ => (Some(n), false),
                }
            },
            None => (None, false),
        };
        nodes.insert(id, put_back);
        proof {
            if changed {
                assert(nodes@ =~= before.update(id as int, put_back));
            } else {
                assert(nodes@ =~= before);
            }
            let rank = choose|rank: Seq<nat>| ranked(before, rank);
            lemma_same_links_ranked(before, nodes@, rank);
        }
        self.nodes = nodes;
        changed
    }

    /// The node and its ancestors, innermost first: it starts at `id`, each
    /// entry but the last is a stored node whose parent is the next entry,
    /// the last entry is missing or has no parent, and no entry repeats.
    pub fn ancestor_path(&self, id: UzNodeId) -> (r: Vec<UzNodeId>)
        ensures
            r@ == spec_ancestor_path(self@, id),
            acyclic(self@),
            r@.len() >= 1,
            r@[0] == id,
            forall|i: int| 0 < i < r@.len() ==> (node_at(self@, #[trigger] r@[i - 1]) matches Some(n) && n.parent == Some(
                r@[i],
            )),
            node_at(self@, r@.last()) matches Some(n) ==> n.parent is None,
            r@.no_duplicates(),
    {
        proof {
            use_type_invariant(self);
            lemma_ancestor_path_shape(self@, id);
        }
        let ghost rank = choose|rank: Seq<nat>| ranked(self@, rank);
        let mut path: Vec<UzNodeId> = Vec::new();
        let mut current = id;
        loop
            invariant
                acyclic(self@),
                ranked(self@, rank),
                path@ + spec_ancestor_path(self@, current) == spec_ancestor_path(self@, id),
            decreases (if node_at(self@, current) is Some { rank[current as int] + 1 } else { 0 }),
        {
            let ghost before = path@;
            proof {
                lemma_ancestor_path_unfold(self@, current);
            }
            path.push(current);
            let next = match self.get(current) {
                Some(n) => n.parent,
                None => None,
            };
            match next {
                Some(p) => {
                    proof {
                        assert(self@[current as int] is Some);
                        if node_at(self@, p) is Some {
                            assert(stored_parent(self@, current as int) == Some(p));
                        }
                        assert(before + spec_ancestor_path(self@, current) =~= path@ + spec_ancestor_path(self@, p));
                    }
                    current = p;
                },
                None => {
                    proof {
                        assert(before + spec_ancestor_path(self@, current) =~= path@);
                        lemma_ancestor_path_shape(self@, id);
                    }
                    return path;
                },
            }
        }
    }

    /// The nearest node, the given one included, that is a button.
    pub fn nearest_button_ancestor(&self, id: UzNodeId) -> (r: Option<UzNodeId>)
        ensures
            r == first_button(self@, spec_ancestor_path(self@, id)),
    {
        let path = self.ancestor_path(id);
        let n = path.len();
        let mut i: usize = 0;
        proof {
            assert(path@.subrange(0, n as int) =~= path@);
        }
        while i < n
            invariant
                n == path@.len(),
                i <= n,
                path@ == spec_ancestor_path(self@, id),
                first_button(self@, path@) == first_button(self@, path@.subrange(i as int, n as int)),
            decreases n - i,
        {
            let ghost rest = path@.subrange(i as int, n as int);
            proof {
                assert(rest.drop_first() =~= path@.subrange(i + 1, n as int));
            }
            if let Some(node) = self.get(path[i]) {
                if node.kind == NodeKind::Button {
                    return Some(path[i]);
                }
            }
            i = i + 1;
        }
        None
    }

    /// The nearest node, the given one included, that roots selectable text.
    pub fn containing_text_run_root(&self, id: UzNodeId) -> (r: Option<UzNodeId>)
        ensures
            r == first_text_root(self@, spec_ancestor_path(self@, id)),
    {
        let path = self.ancestor_path(id);
        let n = path.len();
        let mut i: usize = 0;
        proof {
            assert(path@.subrange(0, n as int) =~= path@);
        }
        while i < n
            invariant
                n == path@.len(),
                i <= n,
                path@ == spec_ancestor_path(self@, id),
                first_text_root(self@, path@) == first_text_root(self@, path@.subrange(i as int, n as int)),
            decreases n - i,
        {
            let ghost rest = path@.subrange(i as int, n as int);
            proof {
                assert(rest.drop_first() =~= path@.subrange(i + 1, n as int));
            }
            if let Some(node) = self.get(path[i]) {
                if node.text_select_root {
                    return Some(path[i]);
                }
            }
            i = i + 1;
        }
        None
    }

    /// The cursor the node shows: its own, else the nearest ancestor's, else
    /// the default arrow.
    pub fn resolve_cursor(&self, id: UzNodeId) -> (r: CursorIcon)
        ensures
            r == first_cursor(self@, spec_ancestor_path(self@, id)),
    {
        let path = self.ancestor_path(id);
        let n = path.len();
        let mut i: usize = 0;
        proof {
            assert(path@.subrange(0, n as int) =~= path@);
        }
        while i < n
            invariant
                n == path@.len(),
                i <= n,
                path@ == spec_ancestor_path(self@, id),
                first_cursor(self@, path@) == first_cursor(self@, path@.subrange(i as int, n as int)),
            decreases n - i,
        {
            let ghost rest = path@.subrange(i as int, n as int);
            proof {
                assert(rest.drop_first() =~= path@.subrange(i + 1, n as int));
            }
            if let Some(node) = self.get(path[i]) {
                if let Some(c) = node.cursor {
                    return c;
                }
            }
            i = i + 1;
        }
        CursorIcon::Default
    }

    /// The node exists and its parent chain reaches `root`.
    pub fn is_connected(&self, root: Option<UzNodeId>, id: UzNodeId) -> (r: bool)
        ensures
            r == spec_is_connected(self@, root, id),
    {
        if !self.contains(id) {
            return false;
        }
        let root_id = match root {
            Some(x) => x,
            None => return false,
        };
        let path = self.ancestor_path(id);
        let n = path.len();
        let mut i: usize = 0;
        while i < n
            invariant
                n == path@.len(),
                i <= n,
                path@ == spec_ancestor_path(self@, id),
                forall|j: int| 0 <= j < i ==> path@[j] != root_id,
                root == Some(root_id),
                node_at(self@, id) is Some,
            decreases n - i,
        {
            if path[i] == root_id {
                proof {
                    assert(path@[i as int] == root_id);
                }
                return true;
            }
            i = i + 1;
        }
        false
    }

    /// Whether the node exists and is a text input.
    pub fn is_text_input(&self, id: UzNodeId) -> (r: bool)
        ensures
            r == (node_at(self@, id) matches Some(n) && n.kind is TextInput),
    {
        match self.get(id) {
            Some(n) => match n.kind {
                NodeKind::TextInput { .. } => true,
                _ => false,
            },
            None => false,
        }
    }

    /// Replaces a node's variable bindings; no change when the node is missing.
    pub fn set_var_bindings(&mut self, id: UzNodeId, bindings: Vec<VarBinding>)
        ensures
            node_at(old(self)@, id) is Some ==> final(self)@ == old(self)@.update(
                id as int,
                Some(UiNode { var_bindings: bindings, ..node_at(old(self)@, id).unwrap() }),
            ),
            node_at(old(self)@, id) is None ==> final(self)@ == old(self)@,
    {
        proof {
            use_type_invariant(&*self);
        }
        if id >= self.nodes.len() {
            return;
        }
        let mut nodes: Vec<Option<UiNode>> = Vec::new();
        proof {
            lemma_empty_acyclic(nodes@);
        }
        std::mem::swap(&mut nodes, &mut self.nodes);
        let ghost before = nodes@;
        let slot = nodes.remove(id);
        let put_back = match slot {
            Some(n) => Some(
                UiNode {
                    parent: n.parent,
                    kind: n.kind,
                    focusable: n.focusable,
                    text_select_root: n.text_select_root,
                    edit_context_root: n.edit_context_root,
                    cursor: n.cursor,
                    var_bindings: bindings,
                },
            ),
            None => None,
        };
        nodes.insert(id, put_back);
        proof {
            assert(nodes@ =~= before.update(id as int, put_back));
            let rank = choose|rank: Seq<nat>| ranked(before, rank);
            lemma_same_links_ranked(before, nodes@, rank);
        }
        self.nodes = nodes;
    }
}


/// The scroll direction of a scrollbar.
#[derive(Clone, Copy, Debug, PartialEq, Eq, Structural)]
pub enum ScrollAxis {
    X,
    Y,
}

/// What a held left button is dragging.
#[derive(Clone, Copy, Debug, PartialEq, Eq, Structural)]
pub enum DragMode {
    Idle,
    ScrollbarThumb { node_id: UzNodeId, axis: ScrollAxis },
    InputSelection(UzNodeId),
    ViewSelection(UzNodeId),
}

/// Focus moved from `old` to `new`.
#[derive(Clone, Copy, Debug, PartialEq, Eq, Structural)]
pub struct FocusChange {
    pub old: Option<UzNodeId>,
    pub new: UzNodeId,
}

/// A slot holds a node reachable with Tab.
pub open spec fn is_tab_stop(nodes: Seq<Option<UiNode>>, i: int) -> bool {
    0 <= i < nodes.len() && nodes[i] is Some && nodes[i].unwrap().focusable
}

/// The first tab stop at or after `lo`.
pub open spec fn first_stop(nodes: Seq<Option<UiNode>>, lo: int) -> Option<UzNodeId>
    decreases nodes.len() - lo,
{
    if lo >= nodes.len() || lo < 0 {
        None
    } else if is_tab_stop(nodes, lo) {
        Some(lo as UzNodeId)
    } else {
        first_stop(nodes, lo + 1)
    }
}

/// The last tab stop before `hi`.
pub open spec fn last_stop(nodes: Seq<Option<UiNode>>, hi: int) -> Option<UzNodeId>
    decreases hi,
{
    if hi <= 0 {
        None
    } else if is_tab_stop(nodes, hi - 1) {
        Some((hi - 1) as UzNodeId)
    } else {
        last_stop(nodes, hi - 1)
    }
}

/// Where Tab moves focus: the next tab stop in document order after the
/// focused node, wrapping to the first one.
pub open spec fn next_tab_target(nodes: Seq<Option<UiNode>>, focused: Option<UzNodeId>) -> Option<UzNodeId> {
    match focused {
        Some(c) => match first_stop(nodes, c + 1) {
            Some(k) => Some(k),
            None => first_stop(nodes, 0),
        },
        None => first_stop(nodes, 0),
    }
}

/// Where Shift-Tab moves focus: the previous tab stop before the focused
/// node, wrapping to the last one.
pub open spec fn prev_tab_target(nodes: Seq<Option<UiNode>>, focused: Option<UzNodeId>) -> Option<UzNodeId> {
    match focused {
        Some(c) => match last_stop(nodes, c as int) {
            Some(k) => Some(k),
            None => last_stop(nodes, nodes.len() as int),
        },
        None => last_stop(nodes, nodes.len() as int),
    }
}

/// The focus change of moving focus to `target`: none when there is no
/// target or focus is already there.
pub open spec fn focus_change_to(target: Option<UzNodeId>, focused: Option<UzNodeId>) -> Option<FocusChange> {
    match target {
        Some(t) => if Some(t) != focused {
            Some(FocusChange { old: focused, new: t })
        } else {
            None
        },
        None => None,
    }
}

/// Where focus is after moving it to `target`.
pub open spec fn focus_after(target: Option<UzNodeId>, focused: Option<UzNodeId>) -> Option<UzNodeId> {
    match target {
        Some(t) => Some(t),
        None => focused,
    }
}

/// The state of one window's document that input handling reads and updates.
pub struct UiState {
    pub nodes: NodeTree,
    pub root: Option<UzNodeId>,
    pub focused_node: Option<UzNodeId>,
    pub text_selection: TextSelection,
    pub hit_state: HitTestState,
    pub drag_mode: DragMode,
    pub last_click_node: Option<UzNodeId>,
    /// 1 for a single click, up to 4 for rapid repeated clicks on one node.
    pub click_count: u8,
    pub window_focused: bool,
    /// A node that asked to be scrolled into view.
    pub scroll_into_view_request: Option<UzNodeId>,
}

/// Two states differ at most in their node trees.
pub open spec fn same_but_tree(a: UiState, b: UiState) -> bool {
    &&& a.root == b.root
    &&& a.focused_node == b.focused_node
    &&& a.text_selection == b.text_selection
    &&& a.hit_state == b.hit_state
    &&& a.drag_mode == b.drag_mode
    &&& a.last_click_node == b.last_click_node
    &&& a.click_count == b.click_count
    &&& a.window_focused == b.window_focused
    &&& a.scroll_into_view_request == b.scroll_into_view_request
}

impl UiState {
    pub fn new() -> (r: Self)
        ensures
            r.nodes@.len() == 0,
            r.root.is_none(),
            r.focused_node.is_none(),
            r.text_selection == TextSelection::empty_spec(),
            r.hit_state.hovered_nodes@.len() == 0,
            r.hit_state.top_node.is_none(),
            r.hit_state.active_node.is_none(),
            r.drag_mode == DragMode::Idle,
            r.last_click_node.is_none(),
            r.click_count == 0,
            !r.window_focused,
            r.scroll_into_view_request.is_none(),
    {
        UiState {
            nodes: NodeTree::new(),
            root: None,
            focused_node: None,
            text_selection: TextSelection::empty(),
            hit_state: HitTestState::new(),
            drag_mode: DragMode::Idle,
            last_click_node: None,
            click_count: 0,
            window_focused: false,
            scroll_into_view_request: None,
        }
    }

    /// Marks a node as pressed (or none).
    pub fn set_active(&mut self, node: Option<UzNodeId>)
        ensures
            *final(self) == (UiState { hit_state: HitTestState { active_node: node, ..old(self).hit_state }, ..*old(self) }),
    {
        self.hit_state.active_node = node;
    }

    pub fn set_selection(&mut self, selection: TextSelection)
        ensures
            *final(self) == (UiState { text_selection: selection, ..*old(self) }),
    {
        self.text_selection = selection;
    }

    pub fn clear_selection(&mut self)
        ensures
            *final(self) == (UiState { text_selection: TextSelection::empty_spec(), ..*old(self) }),
    {
        self.text_selection = TextSelection::empty();
    }

    /// Moves focus to the next tab stop (document order, wrapping). `None`,
    /// and no change, when there is no tab stop or focus would stay put.
    pub fn focus_next_node(&mut self) -> (r: Option<FocusChange>)
        ensures
            r == focus_change_to(next_tab_target(old(self).nodes@, old(self).focused_node), old(self).focused_node),
            *final(self) == (UiState {
                focused_node: focus_after(next_tab_target(old(self).nodes@, old(self).focused_node), old(self).focused_node),
                ..*old(self)
            }),
    {
        let n = self.nodes.len();
        let target = match self.focused_node {
            Some(c) => {
                if c < usize::MAX {
                    match self.find_first_stop(c + 1) {
                        Some(k) => Some(k),
                        None => self.find_first_stop(0),
                    }
                } else {
                    proof {
                        assert(c + 1 >= self.nodes@.len());
                        assert(first_stop(self.nodes@, c + 1) is None);
                    }
                    self.find_first_stop(0)
                }
            },
            None => self.find_first_stop(0),
        };
        self.apply_focus_target(target)
    }

    /// Moves focus to the previous tab stop (document order, wrapping).
    /// `None`, and no change, when there is no tab stop or focus would stay put.
    pub fn focus_prev_node(&mut self) -> (r: Option<FocusChange>)
        ensures
            r == focus_change_to(prev_tab_target(old(self).nodes@, old(self).focused_node), old(self).focused_node),
            *final(self) == (UiState {
                focused_node: focus_after(prev_tab_target(old(self).nodes@, old(self).focused_node), old(self).focused_node),
                ..*old(self)
            }),
    {
        let n = self.nodes.len();
        let target = match self.focused_node {
            Some(c) => {
                let below = if c < n { c } else { n };
                proof {
                    lemma_last_stop_beyond(self.nodes@, c as int);
                }
                match self.find_last_stop(below) {
                    Some(k) => Some(k),
                    None => self.find_last_stop(n),
                }
            },
            None => self.find_last_stop(n),
        };
        self.apply_focus_target(target)
    }

    fn apply_focus_target(&mut self, target: Option<UzNodeId>) -> (r: Option<FocusChange>)
        ensures
            r == focus_change_to(target, old(self).focused_node),
            *final(self) == (UiState { focused_node: focus_after(target, old(self).focused_node), ..*old(self) }),
    {
        match target {
            Some(t) => {
                if self.focused_node == Some(t) {
                    None
                } else {
                    let old_focus = self.focused_node;
                    self.focused_node = Some(t);
                    Some(FocusChange { old: old_focus, new: t })
                }
            },
            None => None,
        }
    }

    fn find_first_stop(&self, lo: usize) -> (r: Option<UzNodeId>)
        ensures
            r == first_stop(self.nodes@, lo as int),
    {
        let n = self.nodes.len();
        let mut i = lo;
        while i < n
            invariant
                n == self.nodes@.len(),
                lo <= i,
                first_stop(self.nodes@, lo as int) == first_stop(self.nodes@, i as int),
            decreases n - i,
        {
            if let Some(node) = self.nodes.get(i) {
                if node.focusable {
                    return Some(i);
                }
            }
            i = i + 1;
        }
        None
    }

    fn find_last_stop(&self, hi: usize) -> (r: Option<UzNodeId>)
        requires
            hi <= self.nodes@.len(),
        ensures
            r == last_stop(self.nodes@, hi as int),
    {
        let mut i = hi;
        while i > 0
            invariant
                i <= hi,
                hi <= self.nodes@.len(),
                last_stop(self.nodes@, hi as int) == last_stop(self.nodes@, i as int),
            decreases i,
        {
            if let Some(node) = self.nodes.get(i - 1) {
                if node.focusable {
                    return Some(i - 1);
                }
            }
            i = i - 1;
        }
        None
    }
}

/// Past the last slot, looking back from any point gives the same stop.
proof fn lemma_last_stop_beyond(nodes: Seq<Option<UiNode>>, hi: int)
    ensures
        hi >= nodes.len() ==> last_stop(nodes, hi) == last_stop(nodes, nodes.len() as int),
    decreases hi,
{
    if hi > nodes.len() {
        lemma_last_stop_beyond(nodes, hi - 1);
    }
}

/// `first_stop` finds the smallest tab stop at or after `lo`.
proof fn lemma_first_stop(nodes: Seq<Option<UiNode>>, lo: int)
    requires
        lo >= 0,
        nodes.len() <= usize::MAX,
    ensures
        match first_stop(nodes, lo) {
            Some(k) => lo <= k < nodes.len() && is_tab_stop(nodes, k as int) && forall|j: int| lo <= j < k ==> !is_tab_stop(nodes, j),
            None => forall|j: int| lo <= j < nodes.len() ==> !is_tab_stop(nodes, j),
        },
    decreases nodes.len() - lo,
{
    if lo < nodes.len() && !is_tab_stop(nodes, lo) {
        lemma_first_stop(nodes, lo + 1);
    }
}

/// `last_stop` finds the largest tab stop before `hi`.
proof fn lemma_last_stop(nodes: Seq<Option<UiNode>>, hi: int)
    requires
        nodes.len() <= usize::MAX,
    ensures
        match last_stop(nodes, hi) {
            Some(k) => 0 <= k < hi && is_tab_stop(nodes, k as int) && forall|j: int| k < j < hi ==> !is_tab_stop(nodes, j),
            None => forall|j: int| 0 <= j < hi ==> !is_tab_stop(nodes, j),
        },
    decreases hi,
{
    if hi > 0 && !is_tab_stop(nodes, hi - 1) {
        lemma_last_stop(nodes, hi - 1);
    }
}

/// Tab and Shift-Tab only ever move focus to a tab stop.
pub proof fn lemma_tab_targets_are_stops(nodes: Seq<Option<UiNode>>, focused: Option<UzNodeId>)
    requires
        nodes.len() <= usize::MAX,
    ensures
        next_tab_target(nodes, focused) matches Some(t) ==> is_tab_stop(nodes, t as int),
        prev_tab_target(nodes, focused) matches Some(t) ==> is_tab_stop(nodes, t as int),
{
    lemma_first_stop(nodes, 0);
    lemma_last_stop(nodes, nodes.len() as int);
    if let Some(c) = focused {
        lemma_first_stop(nodes, c + 1);
        lemma_last_stop(nodes, c as int);
    }
}

/// From a focused tab stop, Shift-Tab undoes Tab: it brings focus back to
/// where it was (also across the wrap-around).
pub proof fn lemma_shift_tab_undoes_tab(nodes: Seq<Option<UiNode>>, f: UzNodeId)
    requires
        nodes.len() <= usize::MAX,
        is_tab_stop(nodes, f as int),
    ensures
        next_tab_target(nodes, Some(f)) is Some && next_tab_target(nodes, Some(f)).unwrap() != f ==> prev_tab_target(
            nodes,
            next_tab_target(nodes, Some(f)),
        ) == Some(f),
{
    lemma_first_stop(nodes, f + 1);
    lemma_first_stop(nodes, 0);
    match next_tab_target(nodes, Some(f)) {
        Some(t) => {
            if t != f {
                lemma_last_stop(nodes, t as int);
                lemma_last_stop(nodes, nodes.len() as int);
                match first_stop(nodes, f + 1) {
                    Some(k) => {
                        assert(k == t);
                        match last_stop(nodes, t as int) {
                            Some(p) => {
                                if p < f {
                                    assert(!is_tab_stop(nodes, f as int));
                                }
                                if p > f {
                                    assert(!is_tab_stop(nodes, p as int));
                                }
                            },
                            None => {},
                        }
                    },
                    None => {
                        assert(t <= f);
                        match last_stop(nodes, t as int) {
                            Some(p) => {
                                assert(!is_tab_stop(nodes, p as int));
                            },
                            None => {
                                match last_stop(nodes, nodes.len() as int) {
                                    Some(p) => {
                                        if p < f {
                                            assert(!is_tab_stop(nodes, f as int));
                                        }
                                        if p > f {
                                            assert(!is_tab_stop(nodes, p as int));
                                        }
                                    },
                                    None => {},
                                }
                            },
                        }
                    },
                }
            }
        },
        None => {},
    }
}

/// Emptying slot `z` cuts every path at `z`: a path through `z` now ends
/// there, and a path that avoids it is unchanged.
proof fn lemma_path_after_clear(nodes: Seq<Option<UiNode>>, z: UzNodeId, y: UzNodeId)
    requires
        acyclic(nodes),
        z < nodes.len(),
    ensures
        acyclic(nodes.update(z as int, None)),
        forall|k: int| 0 <= k < spec_ancestor_path(nodes, y).len() && #[trigger] spec_ancestor_path(nodes, y)[k] == z
            ==> spec_ancestor_path(nodes.update(z as int, None), y) == spec_ancestor_path(nodes, y).take(k + 1),
        !spec_ancestor_path(nodes, y).contains(z) ==> spec_ancestor_path(nodes.update(z as int, None), y)
            == spec_ancestor_path(nodes, y),
    decreases spec_ancestor_path(nodes, y).len(),
{
    let after = nodes.update(z as int, None);
    let rank = choose|rank: Seq<nat>| ranked(nodes, rank);
    lemma_clear_slot_ranked(nodes, rank, z as int);
    assert(acyclic(after));
    lemma_ancestor_path_unfold(nodes, y);
    lemma_ancestor_path_unfold(after, y);
    let path = spec_ancestor_path(nodes, y);
    if y == z {
        assert(node_at(after, y) is None);
        assert(path[0] == z);
        assert forall|k: int| 0 <= k < path.len() && #[trigger] path[k] == z implies spec_ancestor_path(after, y) == path.take(
            k + 1,
        ) by {
            lemma_ancestor_path_shape(nodes, y);
            assert(path[0] == path[k]);
            assert(k == 0);
            assert(path.take(1) =~= seq![y]);
        }
    } else {
        assert(node_at(after, y) == node_at(nodes, y));
        match node_at(nodes, y) {
            Some(n) => match n.parent {
                Some(p) => {
                    let rest = spec_ancestor_path(nodes, p);
                    lemma_path_after_clear(nodes, z, p);
                    assert(path == seq![y] + rest);
                    assert forall|k: int| 0 <= k < path.len() && #[trigger] path[k] == z implies spec_ancestor_path(
                        after,
                        y,
                    ) == path.take(k + 1) by {
                        assert(k > 0);
                        assert(rest[k - 1] == z);
                        assert(path.take(k + 1) =~= seq![y] + rest.take(k));
                    }
                    if !path.contains(z) {
                        assert forall|k: int| 0 <= k < rest.len() implies rest[k] != z by {
                            assert(path[k + 1] == rest[k]);
                        }
                    }
                },
                None => {},
            },
            None => {},
        }
    }
}

/// Freeing a node that is not connected to the document keeps every
/// connected node connected.
pub proof fn lemma_free_detached_keeps_connected(
    nodes: Seq<Option<UiNode>>,
    root: Option<UzNodeId>,
    z: UzNodeId,
    y: UzNodeId,
)
    requires
        acyclic(nodes),
        z < nodes.len(),
        !spec_is_connected(nodes, root, z),
        spec_is_connected(nodes, root, y),
    ensures
        spec_is_connected(nodes.update(z as int, None), root, y),
{
    let after = nodes.update(z as int, None);
    let r = root.unwrap();
    let path = spec_ancestor_path(nodes, y);
    lemma_ancestor_path_shape(nodes, y);
    lemma_path_after_clear(nodes, z, y);
    let j = choose|j: int| 0 <= j < path.len() && path[j] == r;
    assert(y != z);
    assert(node_at(after, y) == node_at(nodes, y));
    if path.contains(z) {
        let k = choose|k: int| 0 <= k < path.len() && path[k] == z;
        if j > k {
            // `z` lies on the way to the root, so it is stored and connected.
            let i = k + 1;
            assert(0 < i < path.len());
            assert(node_at(nodes, path[i - 1]) matches Some(m) && m.parent == Some(path[i]));
            assert(path[i - 1] == z);
            lemma_ancestor_path_suffix(nodes, y, k);
            assert(spec_ancestor_path(nodes, z)[j - k] == r);
            assert(false);
        }
        assert(path.take(k + 1)[j] == r);
    }
}

} // verus!

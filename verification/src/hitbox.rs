//! Hitboxes registered during paint, and hit testing over them.

use vstd::prelude::*;

use crate::UzNodeId;

verus! {

#[derive(Clone, Copy, Debug, PartialEq, Eq, Structural, Hash)]
pub struct HitboxId(pub u64);

/// A hit region of a node. `geometry` is the region itself (its bounds,
/// transform and clip), which the caller tests points against.
#[derive(Clone, Copy, Debug)]
pub struct Hitbox<G> {
    pub id: HitboxId,
    pub node_id: UzNodeId,
    pub geometry: G,
}

/// Which nodes the pointer is over, and which node is pressed.
#[derive(Clone, Debug, Default)]
pub struct HitTestState {
    /// Nodes under the pointer, without repeats, back to front.
    pub hovered_nodes: Vec<UzNodeId>,
    /// The frontmost node under the pointer.
    pub top_node: Option<UzNodeId>,
    /// The node pressed and not yet released.
    pub active_node: Option<UzNodeId>,
}

impl HitTestState {
    pub fn new() -> (r: Self)
        ensures
            r.hovered_nodes@.len() == 0,
            r.top_node.is_none(),
            r.active_node.is_none(),
    {
        HitTestState { hovered_nodes: Vec::new(), top_node: None, active_node: None }
    }

    pub fn is_hovered(&self, node_id: UzNodeId) -> (r: bool)
        ensures
            r == self.hovered_nodes@.contains(node_id),
    {
        let n = self.hovered_nodes.len();
        let mut i: usize = 0;
        while i < n
            invariant
                n == self.hovered_nodes@.len(),
                i <= n,
                forall|j: int| 0 <= j < i ==> self.hovered_nodes@[j] != node_id,
            decreases n - i,
        {
            if self.hovered_nodes[i] == node_id {
                return true;
            }
            i = i + 1;
        }
        false
    }

    /// The node is pressed and the pointer is still over it.
    pub fn is_active(&self, node_id: UzNodeId) -> (r: bool)
        ensures
            r == (self.active_node == Some(node_id) && self.hovered_nodes@.contains(node_id)),
    {
        self.active_node == Some(node_id) && self.is_hovered(node_id)
    }
}

impl<G> Hitbox<G> {
    pub fn is_hovered(&self, hit_state: &HitTestState) -> (r: bool)
        ensures
            r == hit_state.hovered_nodes@.contains(self.node_id),
    {
        hit_state.is_hovered(self.node_id)
    }
}

/// All hitboxes of a paint pass, back to front (later ones are painted on top).
#[derive(Clone, Debug)]
pub struct HitboxStore<G> {
    hitboxes: Vec<Hitbox<G>>,
    next_id: u64,
}

/// The elements of `s` whose decision in `d` is `true`, in order.
pub open spec fn select<T>(s: Seq<T>, d: Seq<bool>) -> Seq<T>
    decreases s.len(),
{
    if s.len() == 0 {
        Seq::empty()
    } else {
        let rest = select(s.drop_last(), d.drop_last());
        if d.last() {
            rest.push(s.last())
        } else {
            rest
        }
    }
}

/// The hitboxes that the point falls in, given one answer per hitbox.
pub open spec fn hit_at<G>(boxes: Seq<Hitbox<G>>, hits: Seq<bool>, i: int) -> bool {
    0 <= i < boxes.len() && hits[i]
}

/// Node `n` owns some hitbox that the point falls in.
pub open spec fn node_hit<G>(boxes: Seq<Hitbox<G>>, hits: Seq<bool>, n: UzNodeId) -> bool {
    exists|i: int| hit_at(boxes, hits, i) && (#[trigger] boxes[i]).node_id == n
}

/// Every hit of node `a` comes before some hit of node `b`: the frontmost hit
/// of `b` lies in front of the frontmost hit of `a`.
pub open spec fn hit_behind<G>(boxes: Seq<Hitbox<G>>, hits: Seq<bool>, a: UzNodeId, b: UzNodeId) -> bool {
    forall|j: int| #![trigger boxes[j]] hit_at(boxes, hits, j) && boxes[j].node_id == a ==> exists|k: int|
        j < k && hit_at(boxes, hits, k) && (#[trigger] boxes[k]).node_id == b
}

/// The result of hit testing: every node hit, each once, ordered back to
/// front by its frontmost hitbox; the top node is the owner of the frontmost
/// hitbox hit.
pub open spec fn spec_hit_result<G>(boxes: Seq<Hitbox<G>>, hits: Seq<bool>, hovered: Seq<UzNodeId>, top: Option<UzNodeId>) -> bool {
    &&& forall|n: UzNodeId| hovered.contains(n) <==> node_hit(boxes, hits, n)
    &&& hovered.no_duplicates()
    &&& forall|a: int, b: int| 0 <= a < b < hovered.len() ==> hit_behind(boxes, hits, #[trigger] hovered[a], #[trigger] hovered[b])
    &&& match top {
        None => forall|i: int| !hit_at(boxes, hits, i),
        Some(t) => exists|i: int| #![trigger boxes[i]] hit_at(boxes, hits, i) && boxes[i].node_id == t
            && forall|k: int| i < k < boxes.len() ==> !hits[k],
    }
}

/// Whether `v` holds `x`.
pub fn vec_contains(v: &Vec<UzNodeId>, x: UzNodeId) -> (r: bool)
    ensures
        r == v@.contains(x),
{
    let n = v.len();
    let mut i: usize = 0;
    while i < n
        invariant
            n == v@.len(),
            i <= n,
            forall|j: int| 0 <= j < i ==> v@[j] != x,
        decreases n - i,
    {
        if v[i] == x {
            return true;
        }
        i = i + 1;
    }
    false
}

/// The nodes found front to back, reversed, meet the hit-test statement.
proof fn lemma_hit_result<G>(
    boxes: Seq<Hitbox<G>>,
    hs: Seq<bool>,
    fs: Seq<UzNodeId>,
    pos: Seq<int>,
    hovered: Seq<UzNodeId>,
    top: Option<UzNodeId>,
)
    requires
        hs.len() == boxes.len(),
        fs.len() == pos.len(),
        fs.no_duplicates(),
        forall|a: int| #![trigger pos[a]] 0 <= a < pos.len() ==> {
            &&& 0 <= pos[a] < boxes.len()
            &&& hit_at(boxes, hs, pos[a])
            &&& boxes[pos[a]].node_id == fs[a]
            &&& forall|k: int| pos[a] < k < boxes.len() && hit_at(boxes, hs, k) ==> (#[trigger] boxes[k]).node_id != fs[a]
        },
        forall|a: int, b: int| 0 <= a < b < pos.len() ==> #[trigger] pos[a] > #[trigger] pos[b],
        forall|k: int| 0 <= k < boxes.len() && hit_at(boxes, hs, k) ==> fs.contains((#[trigger] boxes[k]).node_id),
        hovered.len() == fs.len(),
        forall|x: int| 0 <= x < hovered.len() ==> hovered[x] == fs[fs.len() - 1 - x],
        match top {
            None => forall|k: int| 0 <= k < boxes.len() ==> !hs[k],
            Some(t) => exists|m: int| #![trigger boxes[m]] 0 <= m < boxes.len() && hit_at(boxes, hs, m) && boxes[m].node_id == t
                && forall|k: int| m < k < boxes.len() ==> !hs[k],
        },
    ensures
        spec_hit_result(boxes, hs, hovered, top),
{
    let len = fs.len();
    assert forall|nd: UzNodeId| hovered.contains(nd) <==> node_hit(boxes, hs, nd) by {
        if hovered.contains(nd) {
            let x = choose|x: int| 0 <= x < hovered.len() && hovered[x] == nd;
            let a = len - 1 - x;
            assert(boxes[pos[a]].node_id == nd);
        }
        if node_hit(boxes, hs, nd) {
            let k = choose|k: int| hit_at(boxes, hs, k) && (#[trigger] boxes[k]).node_id == nd;
            assert(fs.contains(nd));
            let a = choose|a: int| 0 <= a < len && fs[a] == nd;
            assert(hovered[len - 1 - a] == nd);
        }
    }
    assert forall|x: int, y: int| 0 <= x < y < hovered.len() implies hovered[x] != hovered[y] by {
        assert(fs[len - 1 - x] != fs[len - 1 - y]);
    }
    assert forall|x: int, y: int| 0 <= x < y < hovered.len() implies hit_behind(boxes, hs, #[trigger] hovered[x], #[trigger] hovered[y]) by {
        let a = len - 1 - x;
        let b = len - 1 - y;
        assert(pos[b] > pos[a]);
        assert forall|j: int| #![trigger boxes[j]] hit_at(boxes, hs, j) && boxes[j].node_id == hovered[x] implies exists|k: int|
            j < k && hit_at(boxes, hs, k) && (#[trigger] boxes[k]).node_id == hovered[y] by {
            assert(j <= pos[a]);
            assert(boxes[pos[b]].node_id == hovered[y]);
        }
    }
}

impl<G> HitboxStore<G> {
    /// Ids are increasing, back to front, and all lie below the next id.
    pub closed spec fn wf(&self) -> bool {
        &&& forall|i: int, j: int| 0 <= i < j < self.hitboxes@.len() ==> (#[trigger] self.hitboxes@[i]).id.0 < (#[trigger] self.hitboxes@[j]).id.0
        &&& forall|i: int| 0 <= i < self.hitboxes@.len() ==> (#[trigger] self.hitboxes@[i]).id.0 < self.next_id
    }

    pub closed spec fn spec_hitboxes(&self) -> Seq<Hitbox<G>> {
        self.hitboxes@
    }

    pub closed spec fn spec_next_id(&self) -> u64 {
        self.next_id
    }

    pub fn new() -> (r: Self)
        ensures
            r.wf(),
            r.spec_hitboxes().len() == 0,
            r.spec_next_id() == 0,
    {
        HitboxStore { hitboxes: Vec::new(), next_id: 0 }
    }

    /// Drops every hitbox and restarts ids from zero.
    pub fn clear(&mut self)
        ensures
            final(self).wf(),
            final(self).spec_hitboxes().len() == 0,
            final(self).spec_next_id() == 0,
    {
        self.hitboxes.clear();
        self.next_id = 0;
    }

    /// The id the next registered hitbox gets.
    pub fn next_id(&self) -> (r: u64)
        ensures
            r == self.spec_next_id(),
    {
        self.next_id
    }

    /// Registers a hitbox on top of all others and returns its fresh id.
    pub fn insert(&mut self, node_id: UzNodeId, geometry: G) -> (id: HitboxId)
        requires
            old(self).wf(),
            old(self).spec_next_id() < u64::MAX,
        ensures
            final(self).wf(),
            id.0 == old(self).spec_next_id(),
            final(self).spec_next_id() == old(self).spec_next_id() + 1,
            final(self).spec_hitboxes() == old(self).spec_hitboxes().push(Hitbox { id, node_id, geometry }),
    {
        let id = HitboxId(self.next_id);
        self.next_id = self.next_id + 1;
        self.hitboxes.push(Hitbox { id, node_id, geometry });
        id
    }

    /// Keeps, in order, the hitboxes whose node `keep` accepts.
    pub fn retain_by_node(&mut self, keep: impl Fn(UzNodeId) -> bool)
        where G: Copy,
        requires
            old(self).wf(),
            forall|n: UzNodeId| keep.requires((n,)),
        ensures
            final(self).wf(),
            final(self).spec_next_id() == old(self).spec_next_id(),
            exists|d: Seq<bool>| {
                &&& d.len() == old(self).spec_hitboxes().len()
                &&& forall|j: int| 0 <= j < d.len() ==> keep.ensures((old(self).spec_hitboxes()[j].node_id,), #[trigger] d[j])
                &&& final(self).spec_hitboxes() == select(old(self).spec_hitboxes(), d)
            },
    {
        let ghost before = self.hitboxes@;
        let ghost mut d: Seq<bool> = Seq::empty();
        let mut kept: Vec<Hitbox<G>> = Vec::new();
        let n = self.hitboxes.len();
        let mut i: usize = 0;
        while i < n
            invariant
                n == self.hitboxes@.len(),
                before == self.hitboxes@,
                old(self).wf(),
                before == old(self).spec_hitboxes(),
                forall|m: UzNodeId| keep.requires((m,)),
                i <= n,
                d.len() == i,
                forall|j: int| 0 <= j < i ==> keep.ensures((before[j].node_id,), #[trigger] d[j]),
                kept@ == select(before.take(i as int), d),
                forall|k: int| 0 <= k < kept@.len() ==> exists|j: int| 0 <= j < i && #[trigger] kept@[k] == before[j],
                forall|a: int, b: int| 0 <= a < b < kept@.len() ==> (#[trigger] kept@[a]).id.0 < (#[trigger] kept@[b]).id.0,
            decreases n - i,
        {
            let h = self.hitboxes[i];
            let keep_it = keep(h.node_id);
            let ghost d0 = d;
            let ghost kept0 = kept@;
            proof {
                d = d.push(keep_it);
            }
            if keep_it {
                proof {
                    assert forall|k: int| 0 <= k < kept@.len() implies (#[trigger] kept@[k]).id.0 < h.id.0 by {
                        let j = choose|j: int| 0 <= j < i && kept@[k] == before[j];
                        assert(before[j].id.0 < before[i as int].id.0);
                    }
                }
                kept.push(h);
            }
            proof {
                let s1 = before.take(i + 1);
                assert(s1.drop_last() =~= before.take(i as int));
                assert(d.drop_last() =~= d0);
                assert(s1.last() == before[i as int]);
                assert(d.last() == keep_it);
                assert(select(s1, d) == (if keep_it {
                    select(before.take(i as int), d0).push(before[i as int])
                } else {
                    select(before.take(i as int), d0)
                }));
                assert forall|j: int| 0 <= j < i + 1 implies keep.ensures((before[j].node_id,), #[trigger] d[j]) by {
                    if j < i {
                        assert(d[j] == d0[j]);
                    }
                }
                assert forall|k: int| 0 <= k < kept@.len() implies exists|j: int| 0 <= j < i + 1 && #[trigger] kept@[k] == before[j] by {
                    if keep_it && k == kept@.len() - 1 {
                        assert(kept@[k] == before[i as int]);
                    } else {
                        assert(kept@[k] == kept0[k]);
                        let j = choose|j: int| 0 <= j < i && kept0[k] == before[j];
                        assert(0 <= j < i + 1 && kept@[k] == before[j]);
                    }
                }
            }
            i = i + 1;
        }
        proof {
            assert(before.take(n as int) =~= before);
        }
        self.hitboxes = kept;
        proof {
            assert forall|k: int| 0 <= k < self.hitboxes@.len() implies (#[trigger] self.hitboxes@[k]).id.0 < self.next_id by {
                let j = choose|j: int| 0 <= j < n && kept@[k] == before[j];
            }
        }
    }

    /// The hitbox with this id, if it is registered.
    pub fn get(&self, id: HitboxId) -> (r: Option<&Hitbox<G>>)
        requires
            self.wf(),
        ensures
            match r {
                Some(h) => exists|i: int| 0 <= i < self.spec_hitboxes().len() && self.spec_hitboxes()[i] == *h && h.id == id,
                None => forall|i: int| 0 <= i < self.spec_hitboxes().len() ==> (#[trigger] self.spec_hitboxes()[i]).id != id,
            },
    {
        let n = self.hitboxes.len();
        let mut i: usize = 0;
        while i < n
            invariant
                n == self.hitboxes@.len(),
                i <= n,
                forall|j: int| 0 <= j < i ==> (#[trigger] self.hitboxes@[j]).id != id,
            decreases n - i,
        {
            if self.hitboxes[i].id.0 == id.0 {
                let h = &self.hitboxes[i];
                proof {
                    assert(self.spec_hitboxes()[i as int] == *h);
                    assert(h.id == id);
                }
                return Some(h);
            }
            i = i + 1;
        }
        None
    }

    pub fn hitboxes(&self) -> (r: &[Hitbox<G>])
        ensures
            r@ == self.spec_hitboxes(),
    {
        self.hitboxes.as_slice()
    }

    /// Hit test, given for each hitbox whether the point falls in it. Walks
    /// front to back collecting each node once, then reports the nodes back
    /// to front; the active node is left unset for the caller to carry over.
    pub fn hit_test(&self, hits: &Vec<bool>) -> (r: HitTestState)
        requires
            hits@.len() == self.spec_hitboxes().len(),
        ensures
            spec_hit_result(self.spec_hitboxes(), hits@, r.hovered_nodes@, r.top_node),
            r.active_node.is_none(),
    {
        let ghost boxes = self.hitboxes@;
        let ghost hs = hits@;
        let n = self.hitboxes.len();
        let mut found: Vec<UzNodeId> = Vec::new();
        let ghost mut pos: Seq<int> = Seq::empty();
        let mut top_node: Option<UzNodeId> = None;
        let mut i: usize = n;
        while i > 0
            invariant
                n == boxes.len(),
                boxes == self.hitboxes@,
                hs == hits@,
                hs.len() == n,
                i <= n,
                found@.len() == pos.len(),
                found@.no_duplicates(),
                forall|a: int| #![trigger pos[a]] 0 <= a < pos.len() ==> {
                    &&& i <= pos[a] < n
                    &&& hit_at(boxes, hs, pos[a])
                    &&& boxes[pos[a]].node_id == found@[a]
                    &&& forall|k: int| pos[a] < k < n && hit_at(boxes, hs, k) ==> (#[trigger] boxes[k]).node_id != found@[a]
                },
                forall|a: int, b: int| 0 <= a < b < pos.len() ==> #[trigger] pos[a] > #[trigger] pos[b],
                forall|k: int| i <= k < n && hit_at(boxes, hs, k) ==> found@.contains((#[trigger] boxes[k]).node_id),
                match top_node {
                    None => forall|k: int| i <= k < n ==> !hs[k],
                    Some(t) => exists|m: int| #![trigger boxes[m]] i <= m < n && hit_at(boxes, hs, m) && boxes[m].node_id == t
                        && forall|k: int| m < k < n ==> !hs[k],
                },
            decreases i,
        {
            i = i - 1;
            let ghost found0 = found@;
            if hits[i] {
                let node = self.hitboxes[i].node_id;
                if top_node.is_none() {
                    top_node = Some(node);
                }
                let seen = vec_contains(&found, node);
                if !seen {
                    proof {
                        assert forall|k: int| i < k < n && hit_at(boxes, hs, k) implies (#[trigger] boxes[k]).node_id != node by {
                            assert(found@.contains(boxes[k].node_id));
                        }
                        pos = pos.push(i as int);
                    }
                    found.push(node);
                    proof {
                        assert(found@[found@.len() - 1] == node);
                    }
                }
                proof {
                    assert(found@.contains(node));
                    assert forall|k: int| i <= k < n && hit_at(boxes, hs, k) implies found@.contains((#[trigger] boxes[k]).node_id) by {
                        if k > i {
                            assert(found0.contains(boxes[k].node_id));
                            let a = choose|a: int| 0 <= a < found0.len() && found0[a] == boxes[k].node_id;
                            assert(found@[a] == boxes[k].node_id);
                        }
                    }
                }
            }
        }
        let ghost fs = found@;
        let m = found.len();
        let mut hovered: Vec<UzNodeId> = Vec::new();
        let mut j: usize = m;
        while j > 0
            invariant
                m == fs.len(),
                fs == found@,
                j <= m,
                hovered@.len() == m - j,
                forall|x: int| 0 <= x < hovered@.len() ==> hovered@[x] == fs[m - 1 - x],
            decreases j,
        {
            j = j - 1;
            hovered.push(found[j]);
        }
        proof {
            lemma_hit_result(boxes, hs, fs, pos, hovered@, top_node);
        }
        HitTestState { hovered_nodes: hovered, top_node, active_node: None }
    }
}

/// Ids are unique in a store, and the next id is not taken: a hitbox
/// inserted with it is the only one that `get` can return for its id.
pub proof fn lemma_insert_then_get<G>(before: HitboxStore<G>, after: HitboxStore<G>, node_id: UzNodeId, geometry: G)
    requires
        before.wf(),
        after.spec_hitboxes() == before.spec_hitboxes().push(
            Hitbox { id: HitboxId(before.spec_next_id()), node_id, geometry },
        ),
    ensures
        forall|i: int| 0 <= i < after.spec_hitboxes().len() && (#[trigger] after.spec_hitboxes()[i]).id == HitboxId(before.spec_next_id())
            ==> after.spec_hitboxes()[i] == (Hitbox { id: HitboxId(before.spec_next_id()), node_id, geometry }),
        forall|i: int, j: int| 0 <= i < j < before.spec_hitboxes().len() ==> (#[trigger] before.spec_hitboxes()[i]).id
            != (#[trigger] before.spec_hitboxes()[j]).id,
{
    let n = before.spec_hitboxes().len();
    assert forall|i: int| 0 <= i < after.spec_hitboxes().len() && (#[trigger] after.spec_hitboxes()[i]).id == HitboxId(before.spec_next_id())
        implies after.spec_hitboxes()[i] == (Hitbox { id: HitboxId(before.spec_next_id()), node_id, geometry }) by {
        if i < n {
            assert(after.spec_hitboxes()[i] == before.spec_hitboxes()[i]);
            assert(before.spec_hitboxes()[i].id.0 < before.spec_next_id());
        }
    }
}

/// The top node of a hit test is the last (frontmost) of the hovered nodes,
/// and nothing is hovered exactly when there is no top node.
pub proof fn lemma_top_is_frontmost_hovered<G>(boxes: Seq<Hitbox<G>>, hits: Seq<bool>, hovered: Seq<UzNodeId>, top: Option<UzNodeId>)
    requires
        hits.len() == boxes.len(),
        spec_hit_result(boxes, hits, hovered, top),
    ensures
        top is None <==> hovered.len() == 0,
        top matches Some(t) ==> hovered.last() == t,
{
    match top {
        None => {
            if hovered.len() > 0 {
                assert(hovered.contains(hovered[0]));
                assert(node_hit(boxes, hits, hovered[0]));
            }
        },
        Some(t) => {
            let m = choose|m: int| #![trigger boxes[m]] hit_at(boxes, hits, m) && boxes[m].node_id == t
                && forall|k: int| m < k < boxes.len() ==> !hits[k];
            assert(node_hit(boxes, hits, t));
            assert(hovered.contains(t));
            let x = choose|x: int| 0 <= x < hovered.len() && hovered[x] == t;
            if x < hovered.len() - 1 {
                let y = hovered.len() - 1;
                assert(hit_behind(boxes, hits, hovered[x], hovered[y]));
                let k = choose|k: int| m < k && hit_at(boxes, hits, k) && (#[trigger] boxes[k]).node_id == hovered[y];
                assert(false);
            }
        },
    }
}

/// Which style of a node applies: the base style or one of its state
/// variants.
#[derive(Clone, Copy, Debug, PartialEq, Eq, Structural)]
pub enum StyleSlot {
    Base,
    Hover,
    Active,
    Focus,
}

/// A node's pointer cursor and its styles per interaction state. Variant
/// styles are created on first use.
pub struct Interactivity<S> {
    pub cursor: Option<crate::dom::CursorIcon>,
    pub base_style: Box<S>,
    pub hover_style: Option<Box<S>>,
    pub active_style: Option<Box<S>>,
    pub focus_style: Option<Box<S>>,
}

impl<S> Interactivity<S> {
    /// No cursor, the given base style and no variant styles.
    pub fn new(base: S) -> (r: Self)
        ensures
            r.cursor.is_none(),
            *r.base_style == base,
            r.hover_style.is_none(),
            r.active_style.is_none(),
            r.focus_style.is_none(),
    {
        Interactivity { cursor: None, base_style: Box::new(base), hover_style: None, active_style: None, focus_style: None }
    }

    /// The style to edit for a slot; a missing variant style is first
    /// created from `fresh` (the default style).
    pub fn style_for(&mut self, slot: StyleSlot, fresh: S) -> (r: &mut S)
        ensures
            final(self).cursor == old(self).cursor,
            match slot {
                StyleSlot::Base => {
                    &&& *r == *old(self).base_style
                    &&& *final(self).base_style == *final(r)
                    &&& final(self).hover_style == old(self).hover_style
                    &&& final(self).active_style == old(self).active_style
                    &&& final(self).focus_style == old(self).focus_style
                },
                StyleSlot::Hover => {
                    &&& *r == (match old(self).hover_style { Some(b) => *b, None => fresh })
                    &&& final(self).hover_style == Some(Box::new(*final(r)))
                    &&& final(self).base_style == old(self).base_style
                    &&& final(self).active_style == old(self).active_style
                    &&& final(self).focus_style == old(self).focus_style
                },
                StyleSlot::Active => {
                    &&& *r == (match old(self).active_style { Some(b) => *b, None => fresh })
                    &&& final(self).active_style == Some(Box::new(*final(r)))
                    &&& final(self).base_style == old(self).base_style
                    &&& final(self).hover_style == old(self).hover_style
                    &&& final(self).focus_style == old(self).focus_style
                },
                StyleSlot::Focus => {
                    &&& *r == (match old(self).focus_style { Some(b) => *b, None => fresh })
                    &&& final(self).focus_style == Some(Box::new(*final(r)))
                    &&& final(self).base_style == old(self).base_style
                    &&& final(self).hover_style == old(self).hover_style
                    &&& final(self).active_style == old(self).active_style
                },
            },
    {
        match slot {
            StyleSlot::Base => &mut *self.base_style,
            StyleSlot::Hover => {
                if self.hover_style.is_none() {
                    self.hover_style = Some(Box::new(fresh));
                }
                match &mut self.hover_style {
                    Some(b) => &mut **b,
                    None => {
                        proof {
                            assert(false);
                        }
                        &mut *self.base_style
                    },
                }
            },
            StyleSlot::Active => {
                if self.active_style.is_none() {
                    self.active_style = Some(Box::new(fresh));
                }
                match &mut self.active_style {
                    Some(b) => &mut **b,
                    None => {
                        proof {
                            assert(false);
                        }
                        &mut *self.base_style
                    },
                }
            },
            StyleSlot::Focus => {
                if self.focus_style.is_none() {
                    self.focus_style = Some(Box::new(fresh));
                }
                match &mut self.focus_style {
                    Some(b) => &mut **b,
                    None => {
                        proof {
                            assert(false);
                        }
                        &mut *self.base_style
                    },
                }
            },
        }
    }
}

} // verus!

//! A quadtree over the primitives of one tile.
//!
//! The tree cuts the tile's rectangle into cells. A cell lists the
//! primitives whose bounds reach into it, and is cut into four once it lists
//! too many. The nodes live in one pool; a node refers to its children by
//! their position in the pool.

use vstd::prelude::*;
use std::collections::HashMap;
use crate::invalidation::{InvalidationReason, PrimitiveCompareResult};
use crate::invalidation::cached_surface::{PrimitiveDependencyIndex, PrimitiveDescriptor};
use crate::invalidation::compare::{PrimitiveComparer, PrimitiveComparisonKey};
use crate::units::{Box2D, PictureBox2D, PictureRect, Point2D};

verus! {

/// A leaf is not cut where it is this deep.
pub const MAX_DEPTH: u32 = 4;

/// A leaf that lists more primitives than this is cut, if it may be.
pub const MAX_LEAF_PRIMS: usize = 8;

/// The pool never holds more nodes than this: a full tree of depth 4.
pub const MAX_NODES: usize = 341;

/// A primitive as the tree knows it: its position in the tile's list and
/// its bounds in picture space.
#[derive(Clone, Copy, Debug, PartialEq, Eq, Structural)]
pub struct PrimEntry {
    pub index: PrimitiveDependencyIndex,
    pub rect: PictureBox2D,
}

/// One node of the pool.
struct Node {
    /// The cell.
    rect: PictureRect,
    /// The root has depth 0.
    depth: u32,
    /// A leaf lists primitives; an inner node has four children.
    is_leaf: bool,
    /// For an inner node, the position of the first of its four children.
    first_child: usize,
    /// The position of the node that this node is a child of; 0 for the root.
    parent: usize,
    /// For a leaf, the primitives whose bounds reach into the cell.
    entries: Vec<PrimEntry>,
}

/// The quadtree of one tile.
pub struct TileNode {
    nodes: Vec<Node>,
    added: Ghost<Seq<PrimEntry>>,
}

/// The middle of an interval; its lower end where the interval is empty.
pub open spec fn spec_mid(lo: int, hi: int) -> int {
    if hi > lo {
        lo + (hi - lo) / 2
    } else {
        lo
    }
}

/// One of the four cells that a cell is cut into: 0 and 1 are the upper
/// two, left to right, 2 and 3 the lower two.
pub open spec fn spec_quadrant(rect: Box2D, which: int) -> Box2D {
    let mx = spec_mid(rect.min.x as int, rect.max.x as int) as i32;
    let my = spec_mid(rect.min.y as int, rect.max.y as int) as i32;
    let x0 = if which % 2 == 0 { rect.min.x } else { mx };
    let x1 = if which % 2 == 0 { mx } else { rect.max.x };
    let y0 = if which < 2 { rect.min.y } else { my };
    let y1 = if which < 2 { my } else { rect.max.y };
    Box2D { min: Point2D { x: x0, y: y0 }, max: Point2D { x: x1, y: y1 } }
}

/// A box that reaches into a cell reaches into one of its four quadrants.
pub proof fn lemma_quadrants_cover(rect: Box2D, b: Box2D)
    requires
        b.spec_intersects(rect),
    ensures
        b.spec_intersects(spec_quadrant(rect, 0)) || b.spec_intersects(spec_quadrant(rect, 1))
            || b.spec_intersects(spec_quadrant(rect, 2)) || b.spec_intersects(
            spec_quadrant(rect, 3),
        ),
{
}

/// A box that reaches into a quadrant of a cell reaches into the cell.
pub proof fn lemma_quadrant_within(rect: Box2D, which: int, b: Box2D)
    requires
        0 <= which < 4,
        b.spec_intersects(spec_quadrant(rect, which)),
    ensures
        b.spec_intersects(rect),
{
}

fn mid(lo: i32, hi: i32) -> (r: i32)
    ensures
        r == spec_mid(lo as int, hi as int),
{
    if hi > lo {
        let half: i64 = (hi as i64 - lo as i64) / 2;
        (lo as i64 + half) as i32
    } else {
        lo
    }
}

fn quadrant(rect: &Box2D, which: usize) -> (r: Box2D)
    requires
        which < 4,
    ensures
        r == spec_quadrant(*rect, which as int),
{
    let mx = mid(rect.min.x, rect.max.x);
    let my = mid(rect.min.y, rect.max.y);
    let x0 = if which % 2 == 0 { rect.min.x } else { mx };
    let x1 = if which % 2 == 0 { mx } else { rect.max.x };
    let y0 = if which < 2 { rect.min.y } else { my };
    let y1 = if which < 2 { my } else { rect.max.y };
    Box2D { min: Point2D { x: x0, y: y0 }, max: Point2D { x: x1, y: y1 } }
}

/// The entries whose bounds reach into `rect`, in their order.
fn entries_within(entries: &Vec<PrimEntry>, rect: &Box2D) -> (r: Vec<PrimEntry>)
    ensures
        forall|k: int| 0 <= k < r@.len() ==> entries@.contains(#[trigger] r@[k]) && r@[k].rect.spec_intersects(*rect),
        forall|k: int|
            0 <= k < entries@.len() && (#[trigger] entries@[k]).rect.spec_intersects(*rect)
                ==> r@.contains(entries@[k]),
{
    let mut out: Vec<PrimEntry> = Vec::new();
    let mut k: usize = 0;
    while k < entries.len()
        invariant
            k <= entries@.len(),
            forall|m: int| 0 <= m < out@.len() ==> entries@.contains(#[trigger] out@[m]) && out@[m].rect.spec_intersects(*rect),
            forall|m: int|
                0 <= m < k && (#[trigger] entries@[m]).rect.spec_intersects(*rect)
                    ==> out@.contains(entries@[m]),
        decreases entries@.len() - k,
    {
        let e = entries[k];
        if e.rect.intersects(rect) {
            let ghost before = out@;
            out.push(e);
            assert(out@[out@.len() - 1] == e);
            assert forall|m: int|
                0 <= m < k + 1 && (#[trigger] entries@[m]).rect.spec_intersects(
                    *rect,
                ) implies out@.contains(entries@[m]) by {
                if m < k {
                    let w = choose|w: int| 0 <= w < before.len() && before[w] == entries@[m];
                    assert(out@[w] == entries@[m]);
                }
            }
        }
        k += 1;
    }
    out
}

impl TileNode {
    /// The rectangle of the tile.
    pub closed spec fn rect(&self) -> PictureRect {
        self.nodes@[0].rect
    }

    /// The primitives that were added since the tree was cleared, in the
    /// order in which they were added.
    pub closed spec fn prims(&self) -> Seq<PrimEntry> {
        self.added@
    }

    /// Whether one of the primitives at position `i` of the tile's list has
    /// bounds that reach into the tile. Only such primitives are listed in
    /// the tree.
    pub open spec fn indexed(&self, i: int) -> bool {
        exists|j: int|
            0 <= j < self.prims().len() && (#[trigger] self.prims()[j]).index.0 == i
                && self.prims()[j].rect.spec_intersects(self.rect())
    }

    spec fn is_leaf(&self, p: int) -> bool {
        0 <= p < self.nodes@.len() && self.nodes@[p].is_leaf
    }

    /// Leaf `p` lists `e`.
    spec fn leaf_has(&self, p: int, e: PrimEntry) -> bool {
        self.is_leaf(p) && self.nodes@[p].entries@.contains(e)
    }

    /// Some leaf lists `e`.
    spec fn listed(&self, e: PrimEntry) -> bool {
        exists|p: int| self.leaf_has(p, e)
    }

    /// `b` reaches into the cell of leaf `p`.
    spec fn leaf_meets(&self, p: int, b: Box2D) -> bool {
        self.is_leaf(p) && b.spec_intersects(self.nodes@[p].rect)
    }

    /// `b` reaches into the cell of some leaf.
    spec fn met(&self, b: Box2D) -> bool {
        exists|p: int| self.leaf_meets(p, b)
    }

    /// What a leaf lists was added, reaches into the tile and into the
    /// leaf's cell.
    spec fn entries_sound(&self) -> bool {
        forall|p: int, k: int|
            self.is_leaf(p) && 0 <= k < self.nodes@[p].entries@.len() ==> {
                let e = #[trigger] self.nodes@[p].entries@[k];
                &&& self.added@.contains(e)
                &&& e.rect.spec_intersects(self.nodes@[0].rect)
                &&& e.rect.spec_intersects(self.nodes@[p].rect)
            }
    }

    /// The cells of the leaves leave no part of the tile out.
    spec fn leaves_cover(&self) -> bool {
        forall|b: Box2D| #[trigger] b.spec_intersects(self.nodes@[0].rect) ==> self.met(b)
    }

    /// Node `q` lies in the subtree of node `p`.
    spec fn under(&self, q: int, p: int) -> bool
        decreases q,
    {
        if q == p {
            0 <= q < self.nodes@.len()
        } else if 0 < q < self.nodes@.len() && self.nodes@[q].parent < q {
            self.under(self.nodes@[q].parent as int, p)
        } else {
            false
        }
    }

    /// Node `q` has its place in the tree: it is one of the four children
    /// of its parent, with a quadrant of the parent's cell as its cell, and
    /// its own children, if it has any, stand behind it in the pool.
    spec fn node_wf(&self, q: int) -> bool {
        let n = self.nodes@[q];
        &&& n.depth <= MAX_DEPTH
        &&& q > 0 ==> {
            let up = self.nodes@[n.parent as int];
            &&& n.parent < q
            &&& !up.is_leaf
            &&& up.first_child <= q < up.first_child + 4
            &&& n.rect == spec_quadrant(up.rect, q - up.first_child)
            &&& n.depth == up.depth + 1
        }
        &&& !n.is_leaf ==> {
            &&& q < n.first_child
            &&& n.first_child + 4 <= self.nodes@.len()
            &&& forall|c: int|
                0 <= c < 4 ==> (#[trigger] self.nodes@[n.first_child + c]).parent == q
        }
    }

    /// Every node has its place in the tree.
    spec fn tree_wf(&self) -> bool {
        forall|q: int| 0 <= q < self.nodes@.len() ==> #[trigger] self.node_wf(q)
    }

    /// Node `q` is done with `e`: if it is a leaf that `e` reaches into, it
    /// lists `e`.
    spec fn done(&self, q: int, e: PrimEntry) -> bool {
        self.is_leaf(q) && e.rect.spec_intersects(self.nodes@[q].rect)
            ==> self.nodes@[q].entries@.contains(e)
    }

    /// `after` has the nodes of this tree at their places, and maybe more;
    /// the nodes that were done with `e` still are.
    spec fn grown(&self, after: &TileNode, e: PrimEntry) -> bool {
        &&& self.nodes@.len() <= after.nodes@.len()
        &&& self.added@ == after.added@
        &&& forall|q: int|
            0 <= q < self.nodes@.len() ==> {
                let a = #[trigger] after.nodes@[q];
                let b = self.nodes@[q];
                &&& a.rect == b.rect
                &&& a.depth == b.depth
                &&& a.parent == b.parent
                &&& !b.is_leaf ==> !a.is_leaf && a.first_child == b.first_child
                &&& self.done(q, e) ==> after.done(q, e)
            }
        &&& forall|x: PrimEntry| self.listed(x) ==> after.listed(x)
    }

    /// A tree has grown from itself.
    proof fn lemma_grown_same(&self, e: PrimEntry)
        ensures
            self.grown(self, e),
    {
    }

    /// The invariant of the pool but for the listing of what was added.
    spec fn core_wf(&self) -> bool {
        &&& 1 <= self.nodes@.len() <= MAX_NODES
        &&& self.entries_sound()
        &&& self.leaves_cover()
        &&& self.tree_wf()
    }

    /// Growth does not change which of the old nodes lie under which.
    proof fn lemma_under_stable(&self, after: &TileNode, e: PrimEntry, q: int, p: int)
        requires
            self.grown(after, e),
            0 <= q < self.nodes@.len(),
        ensures
            after.under(q, p) == self.under(q, p),
        decreases q,
    {
        if q != p && q > 0 && self.nodes@[q].parent < q {
            assert(after.nodes@[q].parent == self.nodes@[q].parent);
            self.lemma_under_stable(after, e, self.nodes@[q].parent as int, p);
        } else {
            assert(after.nodes@[q].parent == self.nodes@[q].parent);
        }
    }

    /// Nothing but a leaf itself lies under it.
    proof fn lemma_leaf_alone(&self, q: int, p: int)
        requires
            self.tree_wf(),
            self.is_leaf(p),
            self.under(q, p),
        ensures
            q == p,
        decreases q,
    {
        if q != p {
            assert(self.node_wf(q));
            self.lemma_leaf_alone(self.nodes@[q].parent as int, p);
        }
    }

    /// What reaches into the cell of a node reaches into the cells of the
    /// nodes that it lies under.
    proof fn lemma_under_within(&self, q: int, p: int, b: Box2D)
        requires
            self.tree_wf(),
            self.under(q, p),
            b.spec_intersects(self.nodes@[q].rect),
        ensures
            b.spec_intersects(self.nodes@[p].rect),
        decreases q,
    {
        if q != p {
            assert(self.node_wf(q));
            let up = self.nodes@[q].parent as int;
            lemma_quadrant_within(self.nodes@[up].rect, q - self.nodes@[up].first_child, b);
            self.lemma_under_within(up, p, b);
        }
    }

    /// What lies under an inner node, and is not the node, lies under one of
    /// its children.
    proof fn lemma_under_child(&self, q: int, p: int) -> (c: int)
        requires
            self.tree_wf(),
            self.under(q, p),
            q != p,
        ensures
            0 <= c < 4,
            0 <= p < self.nodes@.len(),
            !self.nodes@[p].is_leaf,
            self.under(q, self.nodes@[p].first_child + c),
        decreases q,
    {
        assert(self.node_wf(q));
        let up = self.nodes@[q].parent as int;
        if up == p {
            q - self.nodes@[p].first_child
        } else {
            self.lemma_under_child(up, p)
        }
    }

    /// Every node lies under the root.
    proof fn lemma_under_root(&self, q: int)
        requires
            self.tree_wf(),
            0 <= q < self.nodes@.len(),
        ensures
            self.under(q, 0),
        decreases q,
    {
        if q > 0 {
            assert(self.node_wf(q));
            self.lemma_under_root(self.nodes@[q].parent as int);
        }
    }

    /// Growth after growth is growth.
    proof fn lemma_grown_twice(&self, mid: &TileNode, after: &TileNode, e: PrimEntry)
        requires
            self.grown(mid, e),
            mid.grown(after, e),
        ensures
            self.grown(after, e),
    {
        assert forall|q: int| 0 <= q < self.nodes@.len() implies {
            let a = #[trigger] after.nodes@[q];
            let b = self.nodes@[q];
            &&& a.rect == b.rect
            &&& a.depth == b.depth
            &&& a.parent == b.parent
            &&& !b.is_leaf ==> !a.is_leaf && a.first_child == b.first_child
            &&& self.done(q, e) ==> after.done(q, e)
        } by {
            let m = mid.nodes@[q];
        }
    }

    /// The first `n` of the added primitives that reach into the tile are
    /// listed by a leaf.
    spec fn added_listed(&self, n: int) -> bool {
        forall|j: int|
            0 <= j < n && (#[trigger] self.added@[j]).rect.spec_intersects(self.nodes@[0].rect)
                ==> self.listed(self.added@[j])
    }

    /// The tree is consistent: the leaves list exactly primitives that were
    /// added and reach into their cells, and each primitive that reaches
    /// into the tile is listed by a leaf.
    pub closed spec fn wf(&self) -> bool {
        &&& self.core_wf()
        &&& self.added_listed(self.added@.len() as int)
    }

    /// A tree of one leaf with an empty cell.
    pub fn new_leaf() -> (r: TileNode)
        ensures
            r.wf(),
            r.rect() == Box2D::spec_zero(),
            r.prims() == Seq::<PrimEntry>::empty(),
    {
        let mut nodes: Vec<Node> = Vec::new();
        nodes.push(
            Node {
                rect: Box2D::zero(),
                depth: 0,
                is_leaf: true,
                first_child: 0,
                parent: 0,
                entries: Vec::new(),
            },
        );
        let r = TileNode { nodes, added: Ghost(Seq::empty()) };
        proof {
            assert forall|b: Box2D| #[trigger]
                b.spec_intersects(r.nodes@[0].rect) implies r.met(b) by {
                assert(r.leaf_meets(0, b));
            }
        }
        r
    }

    /// Resets the tree to one leaf whose cell is the tile's rectangle.
    pub fn clear(&mut self, rect: PictureRect)
        ensures
            final(self).wf(),
            final(self).rect() == rect,
            final(self).prims() == Seq::<PrimEntry>::empty(),
    {
        self.nodes.clear();
        self.nodes.push(
            Node { rect, depth: 0, is_leaf: true, first_child: 0, parent: 0, entries: Vec::new() },
        );
        self.added = Ghost(Seq::empty());
        proof {
            assert forall|b: Box2D| #[trigger]
                b.spec_intersects(self.nodes@[0].rect) implies self.met(b) by {
                assert(self.leaf_meets(0, b));
            }
        }
    }

    /// Lists `e` in leaf `p`.
    fn push_entry(&mut self, p: usize, e: PrimEntry)
        requires
            old(self).core_wf(),
            old(self).is_leaf(p as int),
            old(self).added@.contains(e),
            e.rect.spec_intersects(old(self).nodes@[0].rect),
            e.rect.spec_intersects(old(self).nodes@[p as int].rect),
        ensures
            final(self).core_wf(),
            final(self).added@ == old(self).added@,
            final(self).nodes@.len() == old(self).nodes@.len(),
            final(self).nodes@[0].rect == old(self).nodes@[0].rect,
            forall|q: int|
                0 <= q < old(self).nodes@.len() && q != p ==> final(self).nodes@[q] == old(
                    self,
                ).nodes@[q],
            final(self).is_leaf(p as int),
            final(self).nodes@[p as int].rect == old(self).nodes@[p as int].rect,
            final(self).nodes@[p as int].depth == old(self).nodes@[p as int].depth,
            final(self).nodes@[p as int].parent == old(self).nodes@[p as int].parent,
            final(self).nodes@[p as int].entries@ == old(self).nodes@[p as int].entries@.push(e),
            forall|x: PrimEntry| old(self).listed(x) ==> final(self).listed(x),
            forall|x: PrimEntry| old(self).grown(final(self), x),
            final(self).done(p as int, e),
    {
        self.nodes[p].entries.push(e);
        proof {
            let before = old(self).nodes@[p as int].entries@;
            let after = self.nodes@[p as int].entries@;
            assert(after[after.len() - 1] == e);
            assert forall|q: int| 0 <= q < self.nodes@.len() implies #[trigger] self.node_wf(
                q,
            ) by {
                assert(old(self).node_wf(q));
                let n = old(self).nodes@[q];
                if q != p {
                    assert(self.nodes@[q] == n);
                }
                if q > 0 && n.parent != p {
                    assert(self.nodes@[n.parent as int] == old(self).nodes@[n.parent as int]);
                }
                if !n.is_leaf {
                    assert forall|c: int| 0 <= c < 4 implies (#[trigger] self.nodes@[n.first_child
                        + c]).parent == q by {
                        assert(old(self).nodes@[n.first_child + c].parent == q);
                    }
                }
            }
            assert forall|q: int, k: int|
                self.is_leaf(q) && 0 <= k < self.nodes@[q].entries@.len() implies {
                let x = #[trigger] self.nodes@[q].entries@[k];
                &&& self.added@.contains(x)
                &&& x.rect.spec_intersects(self.nodes@[0].rect)
                &&& x.rect.spec_intersects(self.nodes@[q].rect)
            } by {
                if q == p && k < before.len() {
                    assert(after[k] == before[k]);
                } else if q != p {
                    assert(self.nodes@[q] == old(self).nodes@[q]);
                    assert(old(self).is_leaf(q));
                }
            }
            assert forall|b: Box2D| #[trigger]
                b.spec_intersects(self.nodes@[0].rect) implies self.met(b) by {
                assert(old(self).met(b));
                let w = choose|w: int| old(self).leaf_meets(w, b);
                assert(self.leaf_meets(w, b));
            }
            assert forall|x: PrimEntry| old(self).listed(x) implies self.listed(x) by {
                let w = choose|w: int| old(self).leaf_has(w, x);
                if w == p {
                    let k = choose|k: int| 0 <= k < before.len() && before[k] == x;
                    assert(after[k] == x);
                }
                assert(self.leaf_has(w, x));
            }
            assert forall|x: PrimEntry| old(self).grown(self, x) by {
                assert forall|q: int| 0 <= q < old(self).nodes@.len() implies {
                    let a = #[trigger] self.nodes@[q];
                    let b = old(self).nodes@[q];
                    &&& a.rect == b.rect
                    &&& a.depth == b.depth
                    &&& a.parent == b.parent
                    &&& !b.is_leaf ==> !a.is_leaf && a.first_child == b.first_child
                    &&& old(self).done(q, x) ==> self.done(q, x)
                } by {
                    if q == p {
                        if old(self).done(q, x) && x.rect.spec_intersects(self.nodes@[q].rect) {
                            let k = choose|k: int| 0 <= k < before.len() && before[k] == x;
                            assert(after[k] == x);
                        }
                    } else {
                        assert(self.nodes@[q] == old(self).nodes@[q]);
                    }
                }
            }
        }
    }

    /// Cuts leaf `p` into four and hands what it lists to the quadrants that
    /// it reaches into.
    fn split(&mut self, p: usize)
        requires
            old(self).core_wf(),
            old(self).is_leaf(p as int),
            old(self).nodes@[p as int].depth < MAX_DEPTH,
            old(self).nodes@.len() + 4 <= MAX_NODES,
        ensures
            final(self).core_wf(),
            final(self).added@ == old(self).added@,
            final(self).nodes@.len() == old(self).nodes@.len() + 4,
            final(self).nodes@[0].rect == old(self).nodes@[0].rect,
            forall|q: int|
                0 <= q < old(self).nodes@.len() && q != p ==> final(self).nodes@[q] == old(
                    self,
                ).nodes@[q],
            !final(self).is_leaf(p as int),
            forall|x: PrimEntry| old(self).listed(x) ==> final(self).listed(x),
            forall|q: int, x: PrimEntry|
                old(self).nodes@.len() <= q < final(self).nodes@.len() && old(self).nodes@[p as int].entries@.contains(
                    x,
                ) && x.rect.spec_intersects(#[trigger] final(self).nodes@[q].rect)
                    ==> #[trigger] final(self).nodes@[q].entries@.contains(x),
            forall|x: PrimEntry| old(self).grown(final(self), x),
    {
        let rect = self.nodes[p].rect;
        let depth = self.nodes[p].depth;
        let first = self.nodes.len();
        let mut entries: Vec<PrimEntry> = Vec::new();
        core::mem::swap(&mut self.nodes[p].entries, &mut entries);
        self.nodes[p].is_leaf = false;
        self.nodes[p].first_child = first;
        let mut c: usize = 0;
        while c < 4
            invariant
                c <= 4,
                p < first,
                first + 4 <= MAX_NODES,
                first == old(self).nodes@.len(),
                self.nodes@.len() == first + c,
                depth < MAX_DEPTH,
                self.added@ == old(self).added@,
                entries@ == old(self).nodes@[p as int].entries@,
                rect == old(self).nodes@[p as int].rect,
                self.nodes@[0].rect == old(self).nodes@[0].rect,
                !self.nodes@[p as int].is_leaf,
                self.nodes@[p as int].first_child == first,
                self.nodes@[p as int].rect == rect,
                self.nodes@[p as int].depth == depth,
                self.nodes@[p as int].parent == old(self).nodes@[p as int].parent,
                forall|q: int|
                    0 <= q < first && q != p ==> self.nodes@[q] == old(self).nodes@[q],
                forall|cc: int|
                    0 <= cc < c ==> {
                        let node = #[trigger] self.nodes@[first + cc];
                        &&& node.is_leaf
                        &&& node.parent == p
                        &&& node.depth == depth + 1
                        &&& node.rect == spec_quadrant(rect, cc)
                        &&& forall|k: int|
                            0 <= k < node.entries@.len() ==> entries@.contains(
                                #[trigger] node.entries@[k],
                            ) && node.entries@[k].rect.spec_intersects(node.rect)
                        &&& forall|k: int|
                            0 <= k < entries@.len() && (#[trigger] entries@[k]).rect.spec_intersects(
                                node.rect,
                            ) ==> node.entries@.contains(entries@[k])
                    },
            decreases 4 - c,
        {
            let cell = quadrant(&rect, c);
            let listed = entries_within(&entries, &cell);
            let ghost before = self.nodes@;
            self.nodes.push(
                Node {
                    rect: cell,
                    depth: depth + 1,
                    is_leaf: true,
                    first_child: 0,
                    parent: p,
                    entries: listed,
                },
            );
            proof {
                assert forall|cc: int| 0 <= cc < c + 1 implies {
                    let node = #[trigger] self.nodes@[first + cc];
                    &&& node.is_leaf
                    &&& node.parent == p
                    &&& node.depth == depth + 1
                    &&& node.rect == spec_quadrant(rect, cc)
                    &&& forall|k: int|
                        0 <= k < node.entries@.len() ==> entries@.contains(
                            #[trigger] node.entries@[k],
                        ) && node.entries@[k].rect.spec_intersects(node.rect)
                    &&& forall|k: int|
                        0 <= k < entries@.len() && (#[trigger] entries@[k]).rect.spec_intersects(
                            node.rect,
                        ) ==> node.entries@.contains(entries@[k])
                } by {
                    if cc < c {
                        assert(self.nodes@[first + cc] == before[first + cc]);
                    }
                }
            }
            c += 1;
        }
        proof {
            assert forall|q: int| 0 <= q < self.nodes@.len() implies #[trigger] self.node_wf(
                q,
            ) by {
                if q < first {
                    assert(old(self).node_wf(q));
                    let n = old(self).nodes@[q];
                    if q != p {
                        assert(self.nodes@[q] == n);
                        if !n.is_leaf {
                            assert forall|c: int| 0 <= c < 4 implies (
                            #[trigger] self.nodes@[n.first_child + c]).parent == q by {
                                assert(old(self).nodes@[n.first_child + c].parent == q);
                                if n.first_child + c != p {
                                    assert(self.nodes@[n.first_child + c] == old(
                                        self,
                                    ).nodes@[n.first_child + c]);
                                }
                            }
                        }
                    } else {
                        assert forall|c: int| 0 <= c < 4 implies (#[trigger] self.nodes@[first
                            + c]).parent == q by {
                        }
                    }
                    if q > 0 {
                        let up = n.parent as int;
                        assert(up != p);
                        assert(self.nodes@[up] == old(self).nodes@[up]);
                    }
                } else {
                    let node = self.nodes@[first + (q - first)];
                    assert(node.parent == p);
                }
            }
            let old_entries = old(self).nodes@[p as int].entries@;
            assert forall|q: int, k: int|
                self.is_leaf(q) && 0 <= k < self.nodes@[q].entries@.len() implies {
                let x = #[trigger] self.nodes@[q].entries@[k];
                &&& self.added@.contains(x)
                &&& x.rect.spec_intersects(self.nodes@[0].rect)
                &&& x.rect.spec_intersects(self.nodes@[q].rect)
            } by {
                let x = self.nodes@[q].entries@[k];
                if q < first {
                    assert(self.nodes@[q] == old(self).nodes@[q]);
                    assert(old(self).is_leaf(q));
                } else {
                    let node = self.nodes@[first + (q - first)];
                    assert(old_entries.contains(node.entries@[k]));
                    let m = choose|m: int| 0 <= m < old_entries.len() && old_entries[m] == x;
                    assert(old(self).nodes@[p as int].entries@[m] == x);
                }
            }
            assert forall|b: Box2D| #[trigger]
                b.spec_intersects(self.nodes@[0].rect) implies self.met(b) by {
                assert(old(self).met(b));
                let w = choose|w: int| old(self).leaf_meets(w, b);
                if w != p {
                    assert(self.nodes@[w] == old(self).nodes@[w]);
                    assert(self.leaf_meets(w, b));
                } else {
                    lemma_quadrants_cover(rect, b);
                    let cc = if b.spec_intersects(spec_quadrant(rect, 0)) {
                        0int
                    } else if b.spec_intersects(spec_quadrant(rect, 1)) {
                        1int
                    } else if b.spec_intersects(spec_quadrant(rect, 2)) {
                        2int
                    } else {
                        3int
                    };
                    let node = self.nodes@[first + cc];
                    assert(self.leaf_meets(first + cc, b));
                }
            }
            assert forall|x: PrimEntry| old(self).listed(x) implies self.listed(x) by {
                let w = choose|w: int| old(self).leaf_has(w, x);
                if w != p {
                    assert(self.nodes@[w] == old(self).nodes@[w]);
                    assert(self.leaf_has(w, x));
                } else {
                    let m = choose|m: int| 0 <= m < old_entries.len() && old_entries[m] == x;
                    assert(old(self).nodes@[p as int].entries@[m] == x);
                    lemma_quadrants_cover(rect, x.rect);
                    let cc = if x.rect.spec_intersects(spec_quadrant(rect, 0)) {
                        0int
                    } else if x.rect.spec_intersects(spec_quadrant(rect, 1)) {
                        1int
                    } else if x.rect.spec_intersects(spec_quadrant(rect, 2)) {
                        2int
                    } else {
                        3int
                    };
                    let node = self.nodes@[first + cc];
                    assert(entries@[m].rect.spec_intersects(node.rect));
                    assert(self.leaf_has(first + cc, x));
                }
            }
            assert forall|x: PrimEntry| old(self).grown(self, x) by {
                assert forall|q: int| 0 <= q < old(self).nodes@.len() implies {
                    let a = #[trigger] self.nodes@[q];
                    let b = old(self).nodes@[q];
                    &&& a.rect == b.rect
                    &&& a.depth == b.depth
                    &&& a.parent == b.parent
                    &&& !b.is_leaf ==> !a.is_leaf && a.first_child == b.first_child
                    &&& old(self).done(q, x) ==> self.done(q, x)
                } by {
                    if q != p {
                        assert(self.nodes@[q] == old(self).nodes@[q]);
                    }
                }
            }
            assert forall|q: int, x: PrimEntry|
                first <= q < self.nodes@.len() && old_entries.contains(x)
                    && x.rect.spec_intersects(
                    #[trigger] self.nodes@[q].rect,
                ) implies #[trigger] self.nodes@[q].entries@.contains(x) by {
                let node = self.nodes@[first + (q - first)];
                let m = choose|m: int| 0 <= m < old_entries.len() && old_entries[m] == x;
                assert(entries@[m].rect.spec_intersects(node.rect));
            }
        }
    }

    /// Adds the primitive at position `index` of the tile's list, with its
    /// bounds in picture space. A primitive whose bounds do not reach into
    /// the tile is listed nowhere.
    pub fn add_prim(&mut self, index: PrimitiveDependencyIndex, rect: &PictureBox2D)
        requires
            old(self).wf(),
        ensures
            final(self).wf(),
            final(self).rect() == old(self).rect(),
            final(self).prims() == old(self).prims().push(PrimEntry { index, rect: *rect }),
    {
        let e = PrimEntry { index, rect: *rect };
        let ghost n_old = self.added@.len() as int;
        self.added = Ghost(self.added@.push(e));
        proof {
            assert(self.added@[n_old] == e);
            self.lemma_same_nodes(old(self), n_old);
        }
        if !rect.intersects(&self.nodes[0].rect) {
            return ;
        }
        let ghost before = *self;
        self.descend(0, e);
        proof {
            assert(self.added_listed(n_old)) by {
                assert forall|j: int|
                    0 <= j < n_old && (#[trigger] self.added@[j]).rect.spec_intersects(
                        self.nodes@[0].rect,
                    ) implies self.listed(self.added@[j]) by {
                    assert(before.added@[j] == self.added@[j]);
                    assert(before.listed(before.added@[j]));
                }
            }
            assert(self.met(e.rect));
            let w = choose|w: int| self.leaf_meets(w, e.rect);
            self.lemma_under_root(w);
            assert(self.done(w, e));
            assert(self.leaf_has(w, e));
            assert(self.listed(e));
        }
    }

    /// Lists `e` in the leaves under node `p` whose cells it reaches into,
    /// and cuts a leaf that then lists too many, if it may be cut.
    fn descend(&mut self, p: usize, e: PrimEntry)
        requires
            old(self).core_wf(),
            p < old(self).nodes@.len(),
            old(self).added@.contains(e),
            e.rect.spec_intersects(old(self).nodes@[0].rect),
        ensures
            final(self).core_wf(),
            final(self).nodes@[0].rect == old(self).nodes@[0].rect,
            old(self).grown(final(self), e),
            forall|q: int|
                old(self).nodes@.len() <= q < final(self).nodes@.len()
                    ==> #[trigger] final(self).done(q, e),
            forall|q: int| final(self).under(q, p as int) ==> #[trigger] final(self).done(q, e),
        decreases MAX_DEPTH - old(self).nodes@[p as int].depth,
    {
        proof {
            assert(self.node_wf(p as int));
            self.lemma_grown_same(e);
        }
        if !e.rect.intersects(&self.nodes[p].rect) {
            proof {
                assert forall|q: int| self.under(q, p as int) implies #[trigger] self.done(
                    q,
                    e,
                ) by {
                    if self.is_leaf(q) && e.rect.spec_intersects(self.nodes@[q].rect) {
                        self.lemma_under_within(q, p as int, e.rect);
                    }
                }
            }
            return ;
        }
        if self.nodes[p].is_leaf {
            self.push_entry(p, e);
            let ghost pushed = *self;
            proof {
                assert(old(self).grown(&pushed, e));
                assert forall|q: int| pushed.under(q, p as int) implies #[trigger] pushed.done(
                    q,
                    e,
                ) by {
                    pushed.lemma_leaf_alone(q, p as int);
                }
            }
            if self.nodes[p].entries.len() > MAX_LEAF_PRIMS && self.nodes[p].depth < MAX_DEPTH
                && self.nodes.len() <= MAX_NODES - 4 {
                self.split(p);
                proof {
                    assert(pushed.grown(self, e));
                    old(self).lemma_grown_twice(&pushed, self, e);
                    assert(pushed.nodes@[p as int].entries@.contains(e));
                    assert forall|q: int|
                        old(self).nodes@.len() <= q < self.nodes@.len() implies #[trigger] self.done(
                        q,
                        e,
                    ) by {
                        if e.rect.spec_intersects(self.nodes@[q].rect) {
                            assert(self.nodes@[q].entries@.contains(e));
                        }
                    }
                    assert forall|q: int| self.under(q, p as int) implies #[trigger] self.done(
                        q,
                        e,
                    ) by {
                        if q < pushed.nodes@.len() {
                            pushed.lemma_under_stable(self, e, q, p as int);
                            pushed.lemma_leaf_alone(q, p as int);
                        }
                    }
                }
            }
        } else {
            let first = self.nodes[p].first_child;
            let ghost depth = self.nodes@[p as int].depth;
            proof {
                assert forall|j: int| 0 <= j < 4 implies (#[trigger] self.nodes@[first
                    + j]).depth == depth + 1 by {
                    assert(self.nodes@[first + j].parent == p);
                    assert(self.node_wf(first + j));
                }
                assert(self.nodes@[first + 0].depth == depth + 1);
                assert(self.node_wf(first + 0));
            }
            let mut c: usize = 0;
            while c < 4
                invariant
                    c <= 4,
                    self.core_wf(),
                    p < old(self).nodes@.len(),
                    old(self).core_wf(),
                    old(self).grown(self, e),
                    self.nodes@[0].rect == old(self).nodes@[0].rect,
                    self.added@.contains(e),
                    e.rect.spec_intersects(self.nodes@[0].rect),
                    !old(self).nodes@[p as int].is_leaf,
                    first == old(self).nodes@[p as int].first_child,
                    depth == old(self).nodes@[p as int].depth,
                    depth < MAX_DEPTH,
                    first + 4 <= old(self).nodes@.len(),
                    forall|j: int|
                        0 <= j < 4 ==> (#[trigger] old(self).nodes@[first + j]).depth == depth + 1,
                    forall|q: int|
                        old(self).nodes@.len() <= q < self.nodes@.len() ==> #[trigger] self.done(
                            q,
                            e,
                        ),
                    forall|q: int, j: int|
                        0 <= j < c && #[trigger] self.under(q, first + j) ==> self.done(q, e),
                decreases 4 - c,
            {
                let ghost before = *self;
                proof {
                    assert(old(self).nodes@[first + c].depth == depth + 1);
                    assert(self.nodes@[first + c].depth == depth + 1);
                }
                self.descend(first + c, e);
                proof {
                    old(self).lemma_grown_twice(&before, self, e);
                    assert forall|q: int|
                        old(self).nodes@.len() <= q < self.nodes@.len() implies #[trigger] self.done(
                        q,
                        e,
                    ) by {
                        if q < before.nodes@.len() {
                            assert(before.done(q, e));
                        }
                    }
                    assert forall|q: int, j: int|
                        0 <= j < c + 1 && #[trigger] self.under(
                            q,
                            first + j,
                        ) implies self.done(q, e) by {
                        if j < c {
                            if q < before.nodes@.len() {
                                before.lemma_under_stable(self, e, q, first + j);
                                assert(before.done(q, e));
                            } else {
                                assert(0 <= q < self.nodes@.len());
                            }
                        }
                    }
                }
                c += 1;
            }
            proof {
                assert forall|q: int| self.under(q, p as int) implies #[trigger] self.done(
                    q,
                    e,
                ) by {
                    assert(!self.nodes@[p as int].is_leaf);
                    if q != p {
                        let j = self.lemma_under_child(q, p as int);
                        assert(self.under(q, first + j));
                    }
                }
            }
        }
    }

    /// A tree with the same nodes as `other`, and what was added to `other`
    /// at the start of what was added to it, lists what `other` lists.
    proof fn lemma_same_nodes(&self, other: &TileNode, n: int)
        requires
            other.wf(),
            self.nodes@ == other.nodes@,
            n == other.added@.len(),
            n <= self.added@.len(),
            forall|j: int| 0 <= j < n ==> self.added@[j] == other.added@[j],
        ensures
            self.core_wf(),
            self.added_listed(n),
    {
        assert forall|q: int| 0 <= q < self.nodes@.len() implies #[trigger] self.node_wf(q) by {
            assert(other.node_wf(q));
        }
        assert forall|q: int, k: int|
            self.is_leaf(q) && 0 <= k < self.nodes@[q].entries@.len() implies {
            let x = #[trigger] self.nodes@[q].entries@[k];
            &&& self.added@.contains(x)
            &&& x.rect.spec_intersects(self.nodes@[0].rect)
            &&& x.rect.spec_intersects(self.nodes@[q].rect)
        } by {
            let x = self.nodes@[q].entries@[k];
            assert(other.is_leaf(q));
            assert(other.added@.contains(other.nodes@[q].entries@[k]));
            let j = choose|j: int| 0 <= j < other.added@.len() && other.added@[j] == x;
            assert(self.added@[j] == x);
        }
        assert forall|b: Box2D| #[trigger]
            b.spec_intersects(self.nodes@[0].rect) implies self.met(b) by {
            assert(other.met(b));
            let w = choose|w: int| other.leaf_meets(w, b);
            assert(self.leaf_meets(w, b));
        }
        assert forall|j: int|
            0 <= j < n && (#[trigger] self.added@[j]).rect.spec_intersects(
                self.nodes@[0].rect,
            ) implies self.listed(self.added@[j]) by {
            assert(other.added@[j] == self.added@[j]);
            assert(other.listed(other.added@[j]));
            let w = choose|w: int| other.leaf_has(w, other.added@[j]);
            assert(self.leaf_has(w, self.added@[j]));
        }
    }

    /// The positions below `curr_prims.len()` of the primitives that reach
    /// into the tile and are not equal to their counterpart of the previous
    /// frame.
    pub open spec fn changed(
        &self,
        comparer: &PrimitiveComparer,
        prev_prims: Seq<PrimitiveDescriptor>,
        curr_prims: Seq<PrimitiveDescriptor>,
    ) -> Set<int> {
        Set::new(
            |i: int|
                0 <= i < curr_prims.len() && self.indexed(i) && pair_result(
                    comparer,
                    prev_prims,
                    curr_prims,
                    i,
                ) != PrimitiveCompareResult::Equal,
        )
    }

    /// The positions of the primitives that are compared with a counterpart:
    /// those that reach into the tile and have one.
    pub open spec fn compared(
        &self,
        prev_prims: Seq<PrimitiveDescriptor>,
        curr_prims: Seq<PrimitiveDescriptor>,
        i: int,
    ) -> bool {
        0 <= i < curr_prims.len() && i < prev_prims.len() && self.indexed(i)
    }

    /// Compares the primitives that the leaves list with their counterparts
    /// of the previous frame.
    ///
    /// The bounds of each primitive that is not equal are joined to
    /// `dirty_rect`. `invalidation_reason`, where it is not set yet, is set
    /// to the reason of the first such primitive in the order of the list.
    /// A primitive that has no counterpart differs as a descriptor. So does
    /// a primitive of the previous list for which the current list has no
    /// place: it is gone, and its bounds of the previous frame are joined to
    /// `dirty_rect`. Each comparison is looked up in `compare_cache` and made
    /// only where it is not found there.
    pub fn update_dirty_rects(
        &self,
        prev_prims: &[PrimitiveDescriptor],
        curr_prims: &[PrimitiveDescriptor],
        comparer: &PrimitiveComparer,
        dirty_rect: &mut PictureBox2D,
        compare_cache: &mut HashMap<u64, PrimitiveCompareResult>,
        invalidation_reason: &mut Option<InvalidationReason>,
    )
        requires
            self.wf(),
            cache_agrees(old(compare_cache)@, comparer, prev_prims@, curr_prims@),
        ensures
            *final(dirty_rect) == self.dirty_after(
                comparer,
                prev_prims@,
                curr_prims@,
                *old(dirty_rect),
            ),
            *final(invalidation_reason) == first_reason(
                *old(invalidation_reason),
                comparer,
                prev_prims@,
                curr_prims@,
                self.changed(comparer, prev_prims@, curr_prims@),
            ),
            cache_agrees(final(compare_cache)@, comparer, prev_prims@, curr_prims@),
            forall|k: u64| #[trigger]
                old(compare_cache)@.contains_key(k) ==> final(compare_cache)@.contains_key(k)
                    && final(compare_cache)@[k] == old(compare_cache)@[k],
            forall|i: int|
                self.compared(prev_prims@, curr_prims@, i) ==> final(compare_cache)@.contains_key(
                    #[trigger] pair_key(i),
                ),
            forall|k: u64| #[trigger]
                final(compare_cache)@.contains_key(k) && !old(compare_cache)@.contains_key(k)
                    ==> exists|i: int|
                    self.compared(prev_prims@, curr_prims@, i) && k == #[trigger] pair_key(i),
    {
        let n = curr_prims.len();
        let ghost changed = self.changed(comparer, prev_prims@, curr_prims@);
        let ghost mut sel: Set<int> = Set::empty();
        let mut first: Option<(u32, PrimitiveCompareResult)> = None;
        let mut p: usize = 0;
        proof {
            lemma_union_of_none(curr_prims@, sel, n as int, *dirty_rect);
        }
        while p < self.nodes.len()
            invariant
                self.wf(),
                p <= self.nodes@.len(),
                n == curr_prims@.len(),
                changed == self.changed(comparer, prev_prims@, curr_prims@),
                *dirty_rect == union_of(curr_prims@, sel, n as int, *old(dirty_rect)),
                forall|i: int| sel.contains(i) ==> changed.contains(i),
                forall|q: int, k: int|
                    0 <= q < p && self.is_leaf(q) && 0 <= k < self.nodes@[q].entries@.len() ==> {
                        let i = (#[trigger] self.nodes@[q].entries@[k]).index.0 as int;
                        &&& changed.contains(i) ==> sel.contains(i)
                        &&& self.compared(prev_prims@, curr_prims@, i) ==> compare_cache@.contains_key(
                            pair_key(i),
                        )
                    },
                first_tracks(first, sel, comparer, prev_prims@, curr_prims@),
                cache_agrees(compare_cache@, comparer, prev_prims@, curr_prims@),
                forall|k: u64| #[trigger]
                    old(compare_cache)@.contains_key(k) ==> compare_cache@.contains_key(k)
                        && compare_cache@[k] == old(compare_cache)@[k],
                forall|k: u64| #[trigger]
                    compare_cache@.contains_key(k) && !old(compare_cache)@.contains_key(k)
                        ==> exists|i: int|
                        self.compared(prev_prims@, curr_prims@, i) && k == #[trigger] pair_key(i),
            decreases self.nodes@.len() - p,
        {
            if self.nodes[p].is_leaf {
                let count = self.nodes[p].entries.len();
                let mut k: usize = 0;
                while k < count
                    invariant
                        self.wf(),
                        p < self.nodes@.len(),
                        self.is_leaf(p as int),
                        count == self.nodes@[p as int].entries@.len(),
                        k <= count,
                        n == curr_prims@.len(),
                        changed == self.changed(comparer, prev_prims@, curr_prims@),
                        *dirty_rect == union_of(curr_prims@, sel, n as int, *old(dirty_rect)),
                        forall|i: int| sel.contains(i) ==> changed.contains(i),
                        forall|q: int, m: int|
                            ((0 <= q < p && 0 <= m < self.nodes@[q].entries@.len()) || (q == p && 0
                                <= m < k)) && self.is_leaf(q) ==> {
                                let i = (#[trigger] self.nodes@[q].entries@[m]).index.0 as int;
                                &&& changed.contains(i) ==> sel.contains(i)
                                &&& self.compared(prev_prims@, curr_prims@, i)
                                    ==> compare_cache@.contains_key(pair_key(i))
                            },
                        first_tracks(first, sel, comparer, prev_prims@, curr_prims@),
                        cache_agrees(compare_cache@, comparer, prev_prims@, curr_prims@),
                        forall|k: u64| #[trigger]
                            old(compare_cache)@.contains_key(k) ==> compare_cache@.contains_key(k)
                                && compare_cache@[k] == old(compare_cache)@[k],
                        forall|k: u64| #[trigger]
                            compare_cache@.contains_key(k) && !old(compare_cache)@.contains_key(k)
                                ==> exists|i: int|
                                self.compared(prev_prims@, curr_prims@, i) && k
                                    == #[trigger] pair_key(i),
                    decreases count - k,
                {
                    let entry = self.nodes[p].entries[k];
                    let idx: u32 = entry.index.0;
                    let i: usize = idx as usize;
                    let ghost cache_before = compare_cache@;
                    let ghost sel_before = sel;
                    proof {
                        self.lemma_entry_indexed(p as int, k as int);
                    }
                    if i < n {
                        let result = compare_at(idx, prev_prims, curr_prims, comparer, compare_cache);
                        if !matches!(result, PrimitiveCompareResult::Equal) {
                            *dirty_rect = dirty_rect.union(&curr_prims[i].prim_clip_box);
                            let better = match first {
                                Some((f, _)) => idx < f,
                                None => true,
                            };
                            if better {
                                first = Some((idx, result));
                            }
                            proof {
                                lemma_union_of_insert(
                                    curr_prims@,
                                    sel,
                                    n as int,
                                    *old(dirty_rect),
                                    i as int,
                                );
                                sel = sel.insert(i as int);
                            }
                        }
                    }
                    proof {
                        assert forall|kk: u64| #[trigger]
                            compare_cache@.contains_key(kk) && !old(compare_cache)@.contains_key(
                                kk,
                            ) implies exists|j: int|
                            self.compared(prev_prims@, curr_prims@, j) && kk == #[trigger] pair_key(
                                j,
                            ) by {
                            if !cache_before.contains_key(kk) {
                                assert(kk == pair_key(i as int));
                                assert(self.compared(prev_prims@, curr_prims@, i as int));
                            }
                        }
                    }
                    k += 1;
                }
            }
            p += 1;
        }
        proof {
            assert forall|i: int| changed.contains(i) implies sel.contains(i) by {
                let j = choose|j: int|
                    0 <= j < self.prims().len() && (#[trigger] self.prims()[j]).index.0 == i
                        && self.prims()[j].rect.spec_intersects(self.rect());
                let e = self.added@[j];
                assert(self.listed(e));
                let w = choose|w: int| self.leaf_has(w, e);
                let m = choose|m: int|
                    0 <= m < self.nodes@[w].entries@.len() && self.nodes@[w].entries@[m] == e;
                assert(self.nodes@[w].entries@[m].index.0 == i);
            }
            assert(sel =~= changed);
            assert forall|i: int|
                self.compared(prev_prims@, curr_prims@, i) implies compare_cache@.contains_key(
                #[trigger] pair_key(i),
            ) by {
                let j = choose|j: int|
                    0 <= j < self.prims().len() && (#[trigger] self.prims()[j]).index.0 == i
                        && self.prims()[j].rect.spec_intersects(self.rect());
                let e = self.added@[j];
                assert(self.listed(e));
                let w = choose|w: int| self.leaf_has(w, e);
                let m = choose|m: int|
                    0 <= m < self.nodes@[w].entries@.len() && self.nodes@[w].entries@[m] == e;
                assert(self.nodes@[w].entries@[m].index.0 == i);
            }
            lemma_first_tracks(first, sel, curr_prims@.len() as int, comparer, prev_prims@, curr_prims@);
        }
        if invalidation_reason.is_none() {
            match first {
                Some((_, result)) => {
                    *invalidation_reason = result.reason();
                },
                None => {},
            }
        }
        let ghost gone = removed(prev_prims@, curr_prims@);
        let ghost listed_dirty = *dirty_rect;
        let total = prev_prims.len();
        proof {
            if n <= total {
                lemma_union_of_none(prev_prims@, gone, n as int, listed_dirty);
            } else {
                lemma_union_of_none(prev_prims@, gone, total as int, listed_dirty);
            }
        }
        let mut i: usize = n;
        while i < total
            invariant
                n == curr_prims@.len(),
                total == prev_prims@.len(),
                n <= i,
                i <= total || total < n,
                gone == removed(prev_prims@, curr_prims@),
                i <= total ==> *dirty_rect == union_of(prev_prims@, gone, i as int, listed_dirty),
                total < n ==> *dirty_rect == union_of(
                    prev_prims@,
                    gone,
                    total as int,
                    listed_dirty,
                ),
            decreases total - i,
        {
            *dirty_rect = dirty_rect.union(&prev_prims[i].prim_clip_box);
            i += 1;
        }
        if total > n && invalidation_reason.is_none() {
            *invalidation_reason = Some(InvalidationReason::Descriptor);
        }
    }

    /// The dirty rectangle after the comparison: `init` joined with the
    /// bounds of the primitives that changed, then with the bounds that the
    /// primitives that are gone had in the previous frame.
    pub open spec fn dirty_after(
        &self,
        comparer: &PrimitiveComparer,
        prev_prims: Seq<PrimitiveDescriptor>,
        curr_prims: Seq<PrimitiveDescriptor>,
        init: Box2D,
    ) -> Box2D {
        union_of(
            prev_prims,
            removed(prev_prims, curr_prims),
            prev_prims.len() as int,
            union_of(
                curr_prims,
                self.changed(comparer, prev_prims, curr_prims),
                curr_prims.len() as int,
                init,
            ),
        )
    }

    /// What a leaf lists is a primitive that reaches into the tile.
    proof fn lemma_entry_indexed(&self, p: int, k: int)
        requires
            self.wf(),
            self.is_leaf(p),
            0 <= k < self.nodes@[p].entries@.len(),
        ensures
            self.indexed(self.nodes@[p].entries@[k].index.0 as int),
    {
        let e = self.nodes@[p].entries@[k];
        assert(self.added@.contains(e));
        let j = choose|j: int| 0 <= j < self.added@.len() && self.added@[j] == e;
        assert(self.prims()[j].index.0 == e.index.0);
    }
}

/// The key under which the comparison of the two primitives at position `i`
/// is remembered.
pub open spec fn pair_key(i: int) -> u64 {
    PrimitiveComparisonKey {
        prev_index: PrimitiveDependencyIndex(i as u32),
        curr_index: PrimitiveDependencyIndex(i as u32),
    }.spec_key()
}

/// How the primitive at position `i` of the current list relates to the
/// previous frame: as it compares with the primitive at the same position of
/// the previous list, and as a different descriptor where there is none.
pub open spec fn pair_result(
    comparer: &PrimitiveComparer,
    prev_prims: Seq<PrimitiveDescriptor>,
    curr_prims: Seq<PrimitiveDescriptor>,
    i: int,
) -> PrimitiveCompareResult {
    if i < prev_prims.len() {
        comparer.spec_compare_prim(prev_prims[i], curr_prims[i])
    } else {
        PrimitiveCompareResult::Descriptor
    }
}

/// What the table remembers of the pairs at one position is what the
/// comparer finds.
pub open spec fn cache_agrees(
    cache: Map<u64, PrimitiveCompareResult>,
    comparer: &PrimitiveComparer,
    prev_prims: Seq<PrimitiveDescriptor>,
    curr_prims: Seq<PrimitiveDescriptor>,
) -> bool {
    forall|i: int|
        0 <= i < curr_prims.len() && i < prev_prims.len() && i <= u32::MAX && cache.contains_key(
            #[trigger] pair_key(i),
        ) ==> cache[pair_key(i)] == pair_result(comparer, prev_prims, curr_prims, i)
}

/// `init` joined with the bounds of the primitives at the positions below
/// `n` that `sel` holds, in the order of the list.
pub open spec fn union_of(
    prims: Seq<PrimitiveDescriptor>,
    sel: Set<int>,
    n: int,
    init: Box2D,
) -> Box2D
    decreases n,
{
    if n <= 0 {
        init
    } else {
        let rest = union_of(prims, sel, n - 1, init);
        if sel.contains(n - 1) {
            rest.spec_union(prims[n - 1].prim_clip_box)
        } else {
            rest
        }
    }
}

/// The least position below `n` that `sel` holds.
pub open spec fn first_in(sel: Set<int>, n: int) -> Option<int>
    decreases n,
{
    if n <= 0 {
        None
    } else {
        match first_in(sel, n - 1) {
            Some(i) => Some(i),
            None => if sel.contains(n - 1) {
                Some(n - 1)
            } else {
                None
            },
        }
    }
}

/// The positions of the primitives that are gone: those of the previous list
/// for which the current list has no place.
pub open spec fn removed(
    prev_prims: Seq<PrimitiveDescriptor>,
    curr_prims: Seq<PrimitiveDescriptor>,
) -> Set<int> {
    Set::new(|i: int| curr_prims.len() <= i < prev_prims.len())
}

/// The reason after the comparison: the one that was set before, else the
/// reason of the first primitive, in the order of the list, that is not
/// equal, else that the descriptor differs where a primitive is gone.
pub open spec fn first_reason(
    before: Option<InvalidationReason>,
    comparer: &PrimitiveComparer,
    prev_prims: Seq<PrimitiveDescriptor>,
    curr_prims: Seq<PrimitiveDescriptor>,
    changed: Set<int>,
) -> Option<InvalidationReason> {
    match before {
        Some(r) => Some(r),
        None => match first_in(changed, curr_prims.len() as int) {
            Some(i) => pair_result(comparer, prev_prims, curr_prims, i).spec_reason(),
            None => if prev_prims.len() > curr_prims.len() {
                Some(InvalidationReason::Descriptor)
            } else {
                None
            },
        },
    }
}

/// `first` is the least position that `sel` holds, with its result.
spec fn first_tracks(
    first: Option<(u32, PrimitiveCompareResult)>,
    sel: Set<int>,
    comparer: &PrimitiveComparer,
    prev_prims: Seq<PrimitiveDescriptor>,
    curr_prims: Seq<PrimitiveDescriptor>,
) -> bool {
    match first {
        Some((f, r)) => {
            &&& sel.contains(f as int)
            &&& r == pair_result(comparer, prev_prims, curr_prims, f as int)
            &&& forall|i: int| sel.contains(i) ==> f <= i
        },
        None => forall|i: int| !sel.contains(i),
    }
}

/// Where no position is held there is no first one.
pub proof fn lemma_first_in_none(sel: Set<int>, n: int)
    requires
        forall|i: int| 0 <= i < n ==> !sel.contains(i),
    ensures
        first_in(sel, n) is None,
    decreases n,
{
    if n > 0 {
        lemma_first_in_none(sel, n - 1);
    }
}

/// A position that is held, and below which none is, is the first.
pub proof fn lemma_first_in_least(sel: Set<int>, n: int, f: int)
    requires
        0 <= f < n,
        sel.contains(f),
        forall|i: int| 0 <= i < f ==> !sel.contains(i),
    ensures
        first_in(sel, n) == Some(f),
    decreases n,
{
    if n - 1 == f {
        lemma_first_in_none(sel, n - 1);
    } else {
        lemma_first_in_least(sel, n - 1, f);
    }
}

proof fn lemma_first_tracks(
    first: Option<(u32, PrimitiveCompareResult)>,
    sel: Set<int>,
    n: int,
    comparer: &PrimitiveComparer,
    prev_prims: Seq<PrimitiveDescriptor>,
    curr_prims: Seq<PrimitiveDescriptor>,
)
    requires
        first_tracks(first, sel, comparer, prev_prims, curr_prims),
        forall|i: int| sel.contains(i) ==> 0 <= i < n,
    ensures
        match first {
            Some(x) => first_in(sel, n) == Some(x.0 as int),
            None => first_in(sel, n) is None,
        },
{
    match first {
        Some((f, r)) => {
            lemma_first_in_least(sel, n, f as int);
        },
        None => {
            lemma_first_in_none(sel, n);
        },
    }
}

/// The union over two selections that hold the same positions below `n` is
/// the same.
pub proof fn lemma_union_of_agree(
    prims: Seq<PrimitiveDescriptor>,
    a: Set<int>,
    b: Set<int>,
    n: int,
    init: Box2D,
)
    requires
        forall|i: int| 0 <= i < n ==> a.contains(i) == b.contains(i),
    ensures
        union_of(prims, a, n, init) == union_of(prims, b, n, init),
    decreases n,
{
    if n > 0 {
        lemma_union_of_agree(prims, a, b, n - 1, init);
    }
}

/// The union over a selection that holds no position is the start value.
pub proof fn lemma_union_of_none(prims: Seq<PrimitiveDescriptor>, sel: Set<int>, n: int, init: Box2D)
    requires
        forall|i: int| 0 <= i < n ==> !sel.contains(i),
    ensures
        union_of(prims, sel, n, init) == init,
    decreases n,
{
    if n > 0 {
        lemma_union_of_none(prims, sel, n - 1, init);
    }
}

/// Selecting one more position joins its bounds to the union, wherever the
/// position stands in the list and whether or not it was selected before.
pub proof fn lemma_union_of_insert(
    prims: Seq<PrimitiveDescriptor>,
    sel: Set<int>,
    n: int,
    init: Box2D,
    k: int,
)
    requires
        0 <= k < n,
    ensures
        union_of(prims, sel.insert(k), n, init) == union_of(prims, sel, n, init).spec_union(
            prims[k].prim_clip_box,
        ),
    decreases n,
{
    if n - 1 == k {
        lemma_union_of_agree(prims, sel.insert(k), sel, n - 1, init);
    } else {
        lemma_union_of_insert(prims, sel, n - 1, init, k);
    }
}

/// The result for the pair at position `index`, from the table where it is
/// remembered there, else from the comparer and then remembered.
fn compare_at(
    index: u32,
    prev_prims: &[PrimitiveDescriptor],
    curr_prims: &[PrimitiveDescriptor],
    comparer: &PrimitiveComparer,
    compare_cache: &mut HashMap<u64, PrimitiveCompareResult>,
) -> (r: PrimitiveCompareResult)
    requires
        index < curr_prims@.len(),
        cache_agrees(old(compare_cache)@, comparer, prev_prims@, curr_prims@),
    ensures
        r == pair_result(comparer, prev_prims@, curr_prims@, index as int),
        cache_agrees(final(compare_cache)@, comparer, prev_prims@, curr_prims@),
        index < prev_prims@.len() ==> final(compare_cache)@ == old(compare_cache)@.insert(
            pair_key(index as int),
            r,
        ),
        index >= prev_prims@.len() ==> final(compare_cache)@ == old(compare_cache)@,
{
    let i = index as usize;
    if i >= prev_prims.len() {
        return PrimitiveCompareResult::Descriptor;
    }
    let key = PrimitiveComparisonKey {
        prev_index: PrimitiveDependencyIndex(index),
        curr_index: PrimitiveDependencyIndex(index),
    }.key();
    assert(key == pair_key(index as int));
    let found = match compare_cache.get(&key) {
        Some(r) => Some(*r),
        None => None,
    };
    match found {
        Some(r) => {
            assert(compare_cache@.insert(key, r) =~= compare_cache@);
            r
        },
        None => {
            let r = comparer.compare_prim(&prev_prims[i], &curr_prims[i]);
            compare_cache.insert(key, r);
            proof {
                assert forall|j: int|
                    0 <= j < curr_prims@.len() && j < prev_prims@.len() && j <= u32::MAX
                        && compare_cache@.contains_key(
                        #[trigger] pair_key(j),
                    ) implies compare_cache@[pair_key(j)] == pair_result(
                    comparer,
                    prev_prims@,
                    curr_prims@,
                    j,
                ) by {
                    if j != index {
                        assert(pair_key(j) != pair_key(index as int));
                    }
                }
            }
            r
        },
    }
}

/// The first position, where there is one, is held and no position below it
/// is; where there is none, no position below `n` is held.
pub proof fn lemma_first_in(sel: Set<int>, n: int)
    ensures
        match first_in(sel, n) {
            Some(f) => 0 <= f < n && sel.contains(f) && forall|i: int|
                0 <= i < f ==> !sel.contains(i),
            None => forall|i: int| 0 <= i < n ==> !sel.contains(i),
        },
    decreases n,
{
    if n > 0 {
        lemma_first_in(sel, n - 1);
    }
}

/// The union contains the start value and the bounds of each position that
/// is selected.
pub proof fn lemma_union_of_contains(
    prims: Seq<PrimitiveDescriptor>,
    sel: Set<int>,
    n: int,
    init: Box2D,
)
    ensures
        union_of(prims, sel, n, init).spec_contains_box(init),
        forall|i: int|
            0 <= i < n && sel.contains(i) ==> union_of(prims, sel, n, init).spec_contains_box(
                #[trigger] prims[i].prim_clip_box,
            ),
    decreases n,
{
    if n > 0 {
        lemma_union_of_contains(prims, sel, n - 1, init);
        let rest = union_of(prims, sel, n - 1, init);
        assert forall|i: int| 0 <= i < n && sel.contains(i) implies union_of(
            prims,
            sel,
            n,
            init,
        ).spec_contains_box(#[trigger] prims[i].prim_clip_box) by {
            if i < n - 1 {
                assert(rest.spec_contains_box(prims[i].prim_clip_box));
            }
        }
    }
}

} // verus!

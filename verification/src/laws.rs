//! The engine's general guarantees, stated and proved over the model.

use vstd::prelude::*;

use crate::api::layout_spec;
use crate::model::GNode;
use crate::model::RNode;
use crate::model::child_geom;
use crate::model::place;
use crate::model::place_kids;
use crate::tree::LayoutNode;
use crate::tree::resolve_kids;
use crate::tree::resolve_tree;
use crate::units::final_size;

verus! {

// ----------------------------------------------------------------------
// Shape preservation
// ----------------------------------------------------------------------

/// The result tree has the input tree's node count, order and nesting, and
/// every output token equals the corresponding input token.
pub open spec fn same_shape(t: LayoutNode, g: GNode) -> bool
    decreases t, 1int,
{
    &&& g.token == t.id
    &&& g.children.len() == t.children@.len()
    &&& same_shape_kids(t, g, t.children@.len() as int)
}

pub open spec fn same_shape_kids(t: LayoutNode, g: GNode, k: int) -> bool
    decreases t, 0int, k,
{
    if k <= 0 || k > t.children@.len() || g.children.len() != t.children@.len() {
        true
    } else {
        same_shape_kids(t, g, k - 1) && same_shape(t.children@[k - 1], g.children[k - 1])
    }
}

/// The model's shape relation between a resolved tree and a geometry tree.
pub open spec fn shape_rg(r: RNode, g: GNode) -> bool
    decreases r, 1int,
{
    &&& g.token == r.token
    &&& g.children.len() == r.children.len()
    &&& shape_rg_kids(r, g, r.children.len() as int)
}

pub open spec fn shape_rg_kids(r: RNode, g: GNode, k: int) -> bool
    decreases r, 0int, k,
{
    if k <= 0 || k > r.children.len() || g.children.len() != r.children.len() {
        true
    } else {
        shape_rg_kids(r, g, k - 1) && shape_rg(r.children[k - 1], g.children[k - 1])
    }
}

proof fn lemma_shape_rg_kid(r: RNode, g: GNode, k: int, i: int)
    requires
        shape_rg_kids(r, g, k),
        0 <= i < k,
        k <= r.children.len(),
        g.children.len() == r.children.len(),
    ensures
        shape_rg(r.children[i], g.children[i]),
    decreases k,
{
    if i < k - 1 {
        lemma_shape_rg_kid(r, g, k - 1, i);
    }
}

proof fn lemma_shape_rg_kids_from_each(r: RNode, g: GNode, k: int)
    requires
        g.children.len() == r.children.len(),
        forall|i: int| 0 <= i < r.children.len() ==> shape_rg(#[trigger] r.children[i], g.children[i]),
        k <= r.children.len(),
    ensures
        shape_rg_kids(r, g, k),
    decreases k,
{
    if k > 0 {
        lemma_shape_rg_kids_from_each(r, g, k - 1);
    }
}

/// Every placed child keeps its token and recursively its subtree's shape.
proof fn lemma_child_geom_shape(n: RNode, w: int, h: int, i: int)
    requires
        0 <= i < n.children.len(),
    ensures
        shape_rg(n.children[i], child_geom(n, w, h, i)),
    decreases n, 14int, i,
{
    let c = n.children[i];
    let g = child_geom(n, w, h, i);
    lemma_place_shape(c, g.w, g.h);
    assert(g.children == place(c, g.w, g.h));
    lemma_shape_rg_kids_from_each(c, g, c.children.len() as int);
}

/// The geometries of a node's children are in the children's order, one
/// per child, with matching shapes.
proof fn lemma_place_kids_shape(n: RNode, w: int, h: int, k: int)
    requires
        0 <= k <= n.children.len(),
    ensures
        place_kids(n, w, h, k).len() == k,
        forall|i: int| 0 <= i < k ==> shape_rg(#[trigger] n.children[i], place_kids(n, w, h, k)[i]),
    decreases n, 15int, k,
{
    if k > 0 {
        lemma_place_kids_shape(n, w, h, k - 1);
        lemma_child_geom_shape(n, w, h, k - 1);
        assert forall|i: int| 0 <= i < k implies shape_rg(#[trigger] n.children[i], place_kids(n, w, h, k)[i]) by {
            if i < k - 1 {
                assert(place_kids(n, w, h, k)[i] == place_kids(n, w, h, k - 1)[i]);
            }
        }
    }
}

proof fn lemma_place_shape(n: RNode, w: int, h: int)
    ensures
        place(n, w, h).len() == n.children.len(),
        forall|i: int| 0 <= i < n.children.len() ==> shape_rg(#[trigger] n.children[i], place(n, w, h)[i]),
    decreases n, 16int, 0int,
{
    lemma_place_kids_shape(n, w, h, n.children.len() as int);
}

proof fn lemma_resolve_kids_len(n: LayoutNode, k: int)
    requires
        k <= n.children@.len(),
    ensures
        resolve_kids(n, k).len() == if k >= 0 {
            k
        } else {
            0
        },
        forall|j: int| 0 <= j < k ==> #[trigger] resolve_kids(n, k)[j] == resolve_tree(n.children@[j]),
    decreases k,
{
    if k > 0 {
        lemma_resolve_kids_len(n, k - 1);
    }
}

/// Shape facts transfer back from the resolved tree to the caller's tree.
proof fn lemma_shape_transfer(t: LayoutNode, g: GNode)
    requires
        shape_rg(resolve_tree(t), g),
    ensures
        same_shape(t, g),
    decreases t, 2int,
{
    let rn = resolve_tree(t);
    lemma_resolve_kids_len(t, t.children@.len() as int);
    lemma_shape_transfer_kids(t, g, t.children@.len() as int);
}

proof fn lemma_shape_transfer_kids(t: LayoutNode, g: GNode, k: int)
    requires
        shape_rg(resolve_tree(t), g),
        k <= t.children@.len(),
    ensures
        same_shape_kids(t, g, k),
    decreases t, 1int, k,
{
    let rn = resolve_tree(t);
    lemma_resolve_kids_len(t, t.children@.len() as int);
    if k > 0 {
        lemma_shape_transfer_kids(t, g, k - 1);
        lemma_shape_rg_kid(rn, g, rn.children.len() as int, k - 1);
        lemma_shape_transfer(t.children@[k - 1], g.children[k - 1]);
    }
}

/// Shape preservation: for any input tree and any available space, the
/// computed layout has the same node count, order and nesting as the input,
/// and every output node carries the token of its input node.
pub proof fn lemma_shape_preservation(t: LayoutNode, aw: i64, ah: i64)
    ensures
        same_shape(t, layout_spec(t, aw, ah)),
{
    let rn = resolve_tree(t);
    let g = layout_spec(t, aw, ah);
    lemma_place_shape(rn, g.w, g.h);
    lemma_shape_rg_kids_from_each(rn, g, rn.children.len() as int);
    lemma_shape_transfer(t, g);
}

// ----------------------------------------------------------------------
// Non-negativity
// ----------------------------------------------------------------------

/// Every width and height in the tree is at least zero.
pub open spec fn all_nonneg(g: GNode) -> bool
    decreases g, 1int,
{
    &&& g.w >= 0
    &&& g.h >= 0
    &&& all_nonneg_kids(g, g.children.len() as int)
}

pub open spec fn all_nonneg_kids(g: GNode, k: int) -> bool
    decreases g, 0int, k,
{
    if k <= 0 || k > g.children.len() {
        true
    } else {
        all_nonneg_kids(g, k - 1) && all_nonneg(g.children[k - 1])
    }
}

proof fn lemma_nonneg_kids_from_each(g: GNode, k: int)
    requires
        forall|i: int| 0 <= i < g.children.len() ==> all_nonneg(#[trigger] g.children[i]),
        k <= g.children.len(),
    ensures
        all_nonneg_kids(g, k),
    decreases k,
{
    if k > 0 {
        lemma_nonneg_kids_from_each(g, k - 1);
    }
}

proof fn lemma_child_geom_nonneg(n: RNode, w: int, h: int, i: int)
    ensures
        all_nonneg(child_geom(n, w, h, i)),
    decreases n, 14int, i,
{
    let g = child_geom(n, w, h, i);
    if 0 <= i < n.children.len() {
        let c = n.children[i];
        lemma_place_nonneg(c, g.w, g.h);
        assert(g.children == place(c, g.w, g.h));
        lemma_nonneg_kids_from_each(g, g.children.len() as int);
    } else {
        assert(all_nonneg_kids(g, 0));
    }
}

proof fn lemma_place_kids_nonneg(n: RNode, w: int, h: int, k: int)
    requires
        0 <= k <= n.children.len(),
    ensures
        forall|i: int| 0 <= i < k ==> all_nonneg(#[trigger] place_kids(n, w, h, k)[i]),
        place_kids(n, w, h, k).len() == k,
    decreases n, 15int, k,
{
    if k > 0 {
        lemma_place_kids_nonneg(n, w, h, k - 1);
        lemma_child_geom_nonneg(n, w, h, k - 1);
        assert forall|i: int| 0 <= i < k implies all_nonneg(#[trigger] place_kids(n, w, h, k)[i]) by {
            if i < k - 1 {
                assert(place_kids(n, w, h, k)[i] == place_kids(n, w, h, k - 1)[i]);
            }
        }
    }
}

proof fn lemma_place_nonneg(n: RNode, w: int, h: int)
    ensures
        forall|i: int| 0 <= i < place(n, w, h).len() ==> all_nonneg(#[trigger] place(n, w, h)[i]),
        place(n, w, h).len() == n.children.len(),
    decreases n, 16int, 0int,
{
    lemma_place_kids_nonneg(n, w, h, n.children.len() as int);
}

/// Non-negativity: every returned width and height is at least zero, for
/// any input whatsoever.
pub proof fn lemma_non_negative(t: LayoutNode, aw: i64, ah: i64)
    ensures
        all_nonneg(layout_spec(t, aw, ah)),
{
    let rn = resolve_tree(t);
    let g = layout_spec(t, aw, ah);
    lemma_place_nonneg(rn, g.w, g.h);
    assert(g.children == place(rn, g.w, g.h));
    lemma_nonneg_kids_from_each(g, g.children.len() as int);
}

// ----------------------------------------------------------------------
// The clamp law
// ----------------------------------------------------------------------

/// Clamping: a resolved size that would fall below a declared minimum comes
/// out exactly at the minimum, one that would exceed the maximum comes out
/// exactly at the maximum, and when the two conflict the minimum wins.
pub proof fn lemma_clamp_law(v: int, mn: i64, mx: i64)
    requires
        0 <= mn,
    ensures
        mn <= mx && v < mn ==> final_size(v, Some(mn), Some(mx)) == mn,
        mn <= mx && v > mx ==> final_size(v, Some(mn), Some(mx)) == mx,
        mn <= v <= mx ==> final_size(v, Some(mn), Some(mx)) == v,
        mn > mx ==> final_size(v, Some(mn), Some(mx)) == mn,
{
}

// ----------------------------------------------------------------------
// Determinism
// ----------------------------------------------------------------------

/// Idempotence: the layout is a function of its input alone. Together with
/// `compute_layout`'s contract — the returned tree views as exactly
/// `layout_spec` of the input — two calls on value-identical input return
/// value-identical output.
pub proof fn lemma_layout_deterministic(t: LayoutNode, aw: i64, ah: i64, r1: GNode, r2: GNode)
    requires
        r1 == layout_spec(t, aw, ah),
        r2 == layout_spec(t, aw, ah),
    ensures
        r1 == r2,
{
}

} // verus!

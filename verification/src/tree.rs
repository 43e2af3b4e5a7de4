//! Input and output trees, and the tree builder.
//!
//! A caller hands in one [`LayoutNode`] — a correlation token, a sparse
//! style, and owned children. The builder walks it depth-first, resolves
//! every style, and produces the internal [`RTree`]; the solver then emits a
//! [`LayoutNodeResult`] of the same shape, every node carrying its token
//! unchanged. The builder is the only place a computation can fail: a tree
//! deeper than [`MAX_DEPTH`] or a node with more than [`MAX_CHILDREN`]
//! children exceeds the implementation's safety bound and is rejected whole.

use vstd::prelude::*;

use crate::model::GNode;
use crate::model::MAX_CHILDREN;
use crate::model::RNode;
use crate::model::arity_wf;
use crate::model::tree_wf;
use crate::style::LayoutStyle;
use crate::style::ResolvedStyle;
use crate::style::lemma_resolve_wf;
use crate::style::resolve;
use crate::style::resolve_style;

verus! {

/// The deepest tree the engine accepts.
pub const MAX_DEPTH: u32 = 32;

/// One node of the caller's style tree.
pub struct LayoutNode {
    /// Correlation token: opaque payload, copied unchanged to the result.
    pub id: u32,
    pub style: LayoutStyle,
    pub children: Vec<LayoutNode>,
}

/// The geometry computed for one node, relative to the parent's content box.
#[derive(Clone, Copy, PartialEq, Eq, Debug)]
pub struct LayoutResult {
    pub x: i64,
    pub y: i64,
    pub width: i64,
    pub height: i64,
}

/// The result tree: same shape as the input, same tokens, plus geometry.
#[derive(PartialEq, Eq, Debug)]
pub struct LayoutNodeResult {
    pub id: u32,
    pub layout: LayoutResult,
    pub children: Vec<LayoutNodeResult>,
}

/// Why a layout call was rejected. The computation never fails on style
/// values; only a structurally oversized tree is refused, atomically.
#[derive(Clone, Copy, PartialEq, Eq, Structural, Debug)]
pub enum LayoutError {
    /// The tree exceeds the safety bound on depth or on children per node.
    InvalidTree,
}

/// Allocate one childless node carrying the given correlation token.
pub fn create_layout_node(style: LayoutStyle, id: u32) -> (r: LayoutNode)
    ensures
        r.id == id,
        r.style == style,
        r.children@.len() == 0,
{
    LayoutNode { id, style, children: Vec::new() }
}

// ----------------------------------------------------------------------
// The safety bound
// ----------------------------------------------------------------------

/// Whether the tree fits within `budget` remaining levels and the per-node
/// arity bound.
pub open spec fn fits(n: LayoutNode, budget: int) -> bool
    decreases n, 1int, 0int,
{
    budget >= 1 && n.children@.len() <= MAX_CHILDREN && fits_kids(n, budget, n.children@.len() as int)
}

pub open spec fn fits_kids(n: LayoutNode, budget: int, k: int) -> bool
    decreases n, 0int, k,
{
    if k <= 0 || k > n.children@.len() {
        true
    } else {
        fits_kids(n, budget, k - 1) && fits(n.children@[k - 1], budget - 1)
    }
}

/// Check the safety bound.
pub fn check_fits(n: &LayoutNode, budget: u32) -> (b: bool)
    ensures
        b == fits(*n, budget as int),
    decreases *n, 1int,
{
    if budget == 0 {
        return false;
    }
    if n.children.len() > MAX_CHILDREN {
        proof {
            assert(!fits(*n, budget as int));
        }
        return false;
    }
    let mut i: usize = 0;
    let mut ok: bool = true;
    while i < n.children.len()
        invariant
            i <= n.children@.len(),
            n.children@.len() <= MAX_CHILDREN,
            budget >= 1,
            ok == fits_kids(*n, budget as int, i as int),
        decreases n.children@.len() - i,
    {
        let ci = check_fits(&n.children[i], budget - 1);
        ok = ok && ci;
        i = i + 1;
    }
    ok && budget >= 1
}

// ----------------------------------------------------------------------
// The resolved internal tree
// ----------------------------------------------------------------------

/// The internal layout tree: resolved styles, same shape and tokens.
pub struct RTree {
    pub token: u32,
    pub style: ResolvedStyle,
    pub children: Vec<RTree>,
}

/// The model view of an internal tree.
pub open spec fn rt_view(t: RTree) -> RNode
    decreases t, 1int, 0int,
{
    RNode { token: t.token, style: t.style, children: rt_kids_view(t, t.children@.len() as int) }
}

pub open spec fn rt_kids_view(t: RTree, k: int) -> Seq<RNode>
    decreases t, 0int, k,
{
    if k <= 0 || k > t.children@.len() {
        Seq::empty()
    } else {
        rt_kids_view(t, k - 1).push(rt_view(t.children@[k - 1]))
    }
}

/// What the tree builder produces: every style resolved, depth-first.
pub open spec fn resolve_tree(n: LayoutNode) -> RNode
    decreases n, 1int, 0int,
{
    RNode {
        token: n.id,
        style: resolve_style(n.style),
        children: resolve_kids(n, n.children@.len() as int),
    }
}

pub open spec fn resolve_kids(n: LayoutNode, k: int) -> Seq<RNode>
    decreases n, 0int, k,
{
    if k <= 0 || k > n.children@.len() {
        Seq::empty()
    } else {
        resolve_kids(n, k - 1).push(resolve_tree(n.children@[k - 1]))
    }
}

/// Build the internal tree: resolve every node's style, keep shape and
/// tokens.
pub fn build_rtree(n: &LayoutNode) -> (t: RTree)
    ensures
        rt_view(t) == resolve_tree(*n),
    decreases *n, 2int,
{
    let style = resolve(&n.style);
    let mut children: Vec<RTree> = Vec::new();
    let mut i: usize = 0;
    while i < n.children.len()
        invariant
            i <= n.children@.len(),
            children@.len() == i,
            style == resolve_style(n.style),
            forall|j: int| 0 <= j < i ==> rt_view(#[trigger] children@[j]) == resolve_tree(n.children@[j]),
        decreases n.children@.len() - i,
    {
        let c = build_rtree(&n.children[i]);
        children.push(c);
        i = i + 1;
    }
    let t = RTree { token: n.id, style, children };
    proof {
        lemma_rt_kids_view_eq(t, *n, t.children@.len() as int);
    }
    t
}

proof fn lemma_rt_kids_view_eq(t: RTree, n: LayoutNode, k: int)
    requires
        t.children@.len() == n.children@.len(),
        forall|j: int| 0 <= j < t.children@.len() ==> rt_view(#[trigger] t.children@[j]) == resolve_tree(n.children@[j]),
        k <= t.children@.len(),
    ensures
        rt_kids_view(t, k) == resolve_kids(n, k),
    decreases k,
{
    if k > 0 {
        lemma_rt_kids_view_eq(t, n, k - 1);
    }
}

/// The model view of a result tree.
pub open spec fn res_view(r: LayoutNodeResult) -> GNode
    decreases r, 1int, 0int,
{
    GNode {
        token: r.id,
        x: r.layout.x as int,
        y: r.layout.y as int,
        w: r.layout.width as int,
        h: r.layout.height as int,
        children: res_kids_view(r, r.children@.len() as int),
    }
}

pub open spec fn res_kids_view(r: LayoutNodeResult, k: int) -> Seq<GNode>
    decreases r, 0int, k,
{
    if k <= 0 || k > r.children@.len() {
        Seq::empty()
    } else {
        res_kids_view(r, k - 1).push(res_view(r.children@[k - 1]))
    }
}

/// A tree within the safety bound resolves to one within the arity bound.
pub proof fn lemma_fits_arity(n: LayoutNode, budget: int)
    requires
        fits(n, budget),
    ensures
        arity_wf(resolve_tree(n)),
    decreases n, 2int, 0int,
{
    lemma_fits_arity_kids(n, budget, n.children@.len() as int);
    lemma_resolve_kids_len(n, n.children@.len() as int);
    lemma_arity_kids_from_each(resolve_tree(n), n.children@.len() as int);
}

proof fn lemma_resolve_kids_len(n: LayoutNode, k: int)
    requires
        k <= n.children@.len(),
    ensures
        resolve_kids(n, k).len() == if k >= 0 {
            k
        } else {
            0
        },
        forall|j: int| 0 <= j < k ==> #[trigger] resolve_kids(n, k)[j] == resolve_tree(n.children@[j]),
    decreases k,
{
    if k > 0 {
        lemma_resolve_kids_len(n, k - 1);
    }
}

proof fn lemma_fits_arity_kids(n: LayoutNode, budget: int, k: int)
    requires
        k <= n.children@.len(),
        fits_kids(n, budget, k),
    ensures
        forall|j: int| 0 <= j < k ==> arity_wf(#[trigger] resolve_kids(n, k)[j]),
    decreases n, 1int, k,
{
    if k > 0 {
        lemma_fits_arity_kids(n, budget, k - 1);
        lemma_fits_arity(n.children@[k - 1], budget - 1);
        lemma_resolve_kids_len(n, k);
        assert forall|j: int| 0 <= j < k implies arity_wf(#[trigger] resolve_kids(n, k)[j]) by {
            if j < k - 1 {
                lemma_resolve_kids_len(n, k - 1);
                assert(resolve_kids(n, k)[j] == resolve_kids(n, k - 1)[j]);
            }
        }
    }
}

proof fn lemma_arity_kids_from_each(r: RNode, k: int)
    requires
        k <= r.children.len(),
        forall|j: int| 0 <= j < r.children.len() ==> arity_wf(#[trigger] r.children[j]),
    ensures
        crate::model::arity_wf_kids(r, k),
    decreases k,
{
    if k > 0 {
        lemma_arity_kids_from_each(r, k - 1);
    }
}

/// The builder's output is well formed: every style in it came out of the
/// resolver.
pub proof fn lemma_resolve_tree_wf(n: LayoutNode)
    ensures
        tree_wf(resolve_tree(n)),
    decreases n, 2int, 0int,
{
    lemma_resolve_wf(n.style);
    lemma_resolve_tree_wf_kids(n, n.children@.len() as int);
    assert(resolve_tree(n).children =~= resolve_kids(n, n.children@.len() as int));
    lemma_wf_kids_from_each(resolve_tree(n), n.children@.len() as int);
}

proof fn lemma_resolve_tree_wf_kids(n: LayoutNode, k: int)
    requires
        k <= n.children@.len(),
    ensures
        forall|j: int| 0 <= j < k ==> tree_wf(#[trigger] resolve_kids(n, k)[j]),
        resolve_kids(n, k).len() == if k >= 0 {
            k
        } else {
            0
        },
    decreases n, 1int, k,
{
    if k > 0 {
        lemma_resolve_tree_wf_kids(n, k - 1);
        lemma_resolve_tree_wf(n.children@[k - 1]);
        assert forall|j: int| 0 <= j < k implies tree_wf(#[trigger] resolve_kids(n, k)[j]) by {
            if j < k - 1 {
                assert(resolve_kids(n, k)[j] == resolve_kids(n, k - 1)[j]);
            }
        }
    }
}

proof fn lemma_wf_kids_from_each(r: RNode, k: int)
    requires
        k <= r.children.len(),
        forall|j: int| 0 <= j < r.children.len() ==> tree_wf(#[trigger] r.children[j]),
    ensures
        crate::model::tree_wf_kids(r, k),
    decreases k,
{
    if k > 0 {
        lemma_wf_kids_from_each(r, k - 1);
    }
}

} // verus!

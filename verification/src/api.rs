//! The engine's entry point.
//!
//! One call builds the internal tree, measures the root under the available
//! space, and places every descendant. The result is pinned down exactly by
//! the specification-level [`layout_spec`], so two calls on equal input
//! return equal output.

use vstd::prelude::*;

use crate::engine::measure_x;
use crate::model::GNode;
use crate::model::layout_root;
use crate::model::place;
use crate::place::lemma_res_kids_eq;
use crate::place::place_x;
use crate::tree::LayoutError;
use crate::tree::LayoutNode;
use crate::tree::LayoutNodeResult;
use crate::tree::LayoutResult;
use crate::tree::MAX_DEPTH;
use crate::tree::build_rtree;
use crate::tree::check_fits;
use crate::tree::fits;
use crate::tree::lemma_fits_arity;
use crate::tree::lemma_resolve_tree_wf;
use crate::tree::res_view;
use crate::tree::resolve_tree;
use crate::tree::rt_view;
use crate::units::max0_u;

verus! {

/// What one layout call returns: the geometry of the resolved tree under
/// the clamped available space, with the root at the origin.
pub open spec fn layout_spec(root: LayoutNode, aw: i64, ah: i64) -> GNode {
    layout_root(resolve_tree(root), aw, ah)
}

/// Compute the geometry of a whole style tree.
///
/// Total but for the structural safety bound: a tree deeper than
/// [`MAX_DEPTH`] levels or wider than [`crate::model::MAX_CHILDREN`]
/// children per node is rejected whole, and nothing else ever fails.
pub fn compute_layout(root: &LayoutNode, available_width: i64, available_height: i64) -> (r: Result<
    LayoutNodeResult,
    LayoutError,
>)
    ensures
        r is Ok <==> fits(*root, MAX_DEPTH as int),
        r is Err ==> r->Err_0 == LayoutError::InvalidTree,
        r is Ok ==> res_view(r->Ok_0) == layout_spec(*root, available_width, available_height),
{
    if !check_fits(root, MAX_DEPTH) {
        return Err(LayoutError::InvalidTree);
    }
    let rt = build_rtree(root);
    proof {
        lemma_resolve_tree_wf(*root);
        lemma_fits_arity(*root, MAX_DEPTH as int);
        assert(rt_view(rt) == resolve_tree(*root));
    }
    let aw: i64 = max0_u(available_width);
    let ah: i64 = max0_u(available_height);
    let m = measure_x(&rt, Some(aw), Some(ah));
    let kids = place_x(&rt, m.0, m.1);
    let res = LayoutNodeResult {
        id: root.id,
        layout: LayoutResult { x: 0, y: 0, width: m.0, height: m.1 },
        children: kids,
    };
    proof {
        let rn = resolve_tree(*root);
        crate::engine::lemma_rt_kids_len(rt, rt.children@.len() as int);
        assert(rn.children.len() == rt.children@.len());
        lemma_res_kids_eq(res, rn, m.0 as int, m.1 as int, res.children@.len() as int);
        assert(crate::tree::res_kids_view(res, res.children@.len() as int) == place(rn, m.0 as int, m.1 as int));
        assert(res_view(res) == layout_spec(*root, available_width, available_height));
    }
    Ok(res)
}

} // verus!

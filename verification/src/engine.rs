//! The executable measurement pass.
//!
//! Every function here mirrors one specification function of the model and
//! is proved to return exactly its value: hypothetical child sizes, greedy
//! line formation, and the content-based measurement of a node under given
//! available space.

use vstd::prelude::*;

use crate::model::ChildHyp;
use crate::model::RNode;
use crate::model::badd;
use crate::model::child_hyp;
use crate::model::content_sizes;
use crate::model::cum_with_gap;
use crate::model::hyp_seq;
use crate::model::inflow_idxs;
use crate::model::inner_avail;
use crate::model::is_abs;
use crate::model::is_row;
use crate::model::line_breaks;
use crate::model::line_end;
use crate::model::line_of;
use crate::model::line_start;
use crate::model::lines_main_max;
use crate::model::margin_cross_total;
use crate::model::margin_main_total;
use crate::model::measure;
use crate::model::pb_cross_total;
use crate::model::pb_main_total;
use crate::model::seg_max;
use crate::model::seg_used;
use crate::model::tree_wf;
use crate::model::lemma_tree_wf_kid;
use crate::style::Position;
use crate::style::ResolvedStyle;
use crate::style::style_wf;
use crate::tree::RTree;
use crate::tree::rt_kids_view;
use crate::tree::rt_view;
use crate::units::MAX_UNIT;
use crate::units::add_u;
use crate::units::final_size_u;
use crate::units::max0_u;
use crate::units::sub_u;

verus! {

/// Optional exec lengths, as the model sees them.
pub open spec fn o2i(o: Option<i64>) -> Option<int> {
    match o {
        Some(v) => Some(v as int),
        None => None,
    }
}

/// An exec sequence of lengths, as the model sees it.
pub open spec fn s2i(s: Seq<i64>) -> Seq<int> {
    Seq::new(s.len(), |j: int| s[j] as int)
}

/// The executable form of a child's hypothetical sizes.
#[derive(Clone, Copy)]
pub struct HypE {
    pub idx: usize,
    pub main: i64,
    pub cross: i64,
    pub outer_main: i64,
    pub outer_cross: i64,
    pub cross_explicit: bool,
}

pub open spec fn hyp_abs(h: HypE) -> ChildHyp {
    ChildHyp {
        idx: h.idx as int,
        main: h.main as int,
        cross: h.cross as int,
        outer_main: h.outer_main as int,
        outer_cross: h.outer_cross as int,
        cross_explicit: h.cross_explicit,
    }
}

pub open spec fn hyps_abs(s: Seq<HypE>) -> Seq<ChildHyp> {
    Seq::new(s.len(), |j: int| hyp_abs(s[j]))
}

/// Every hypothetical size an executable pass produces is representable.
pub open spec fn hyp_ranges(s: Seq<HypE>) -> bool {
    forall|j: int|
        0 <= j < s.len() ==> {
            &&& 0 <= (#[trigger] s[j]).main <= MAX_UNIT
            &&& 0 <= s[j].cross <= MAX_UNIT
            &&& -MAX_UNIT <= s[j].outer_main <= MAX_UNIT
            &&& -MAX_UNIT <= s[j].outer_cross <= MAX_UNIT
        }
}

// ----------------------------------------------------------------------
// The view of an internal tree, indexed
// ----------------------------------------------------------------------

pub proof fn lemma_rt_kids_len(t: RTree, k: int)
    requires
        0 <= k <= t.children@.len(),
    ensures
        rt_kids_view(t, k).len() == k,
    decreases k,
{
    if k > 0 {
        lemma_rt_kids_len(t, k - 1);
    }
}

pub proof fn lemma_rt_index(t: RTree, i: int)
    requires
        0 <= i < t.children@.len(),
    ensures
        rt_view(t).children.len() == t.children@.len(),
        rt_view(t).children[i] == rt_view(t.children@[i]),
    decreases t.children@.len() - i,
{
    lemma_rt_kids_len(t, t.children@.len() as int);
    lemma_rt_kids_index(t, t.children@.len() as int, i);
}

proof fn lemma_rt_kids_index(t: RTree, k: int, i: int)
    requires
        0 <= i < k <= t.children@.len(),
    ensures
        rt_kids_view(t, k)[i] == rt_view(t.children@[i]),
    decreases k,
{
    lemma_rt_kids_len(t, k);
    if i < k - 1 {
        lemma_rt_kids_index(t, k - 1, i);
        lemma_rt_kids_len(t, k - 1);
    } else {
        lemma_rt_kids_len(t, k - 1);
    }
}

/// A well-formed tree has well-formed children.
pub proof fn lemma_rt_child_wf(t: RTree, i: int)
    requires
        tree_wf(rt_view(t)),
        0 <= i < t.children@.len(),
    ensures
        tree_wf(rt_view(t.children@[i])),
{
    lemma_rt_index(t, i);
    lemma_tree_wf_kid(rt_view(t), rt_view(t).children.len() as int, i);
}

// ----------------------------------------------------------------------
// Box-model helpers
// ----------------------------------------------------------------------

pub fn pb_main_total_u(st: &ResolvedStyle, row: bool) -> (r: i64)
    requires
        style_wf(*st),
    ensures
        r as int == pb_main_total(*st, row),
        0 <= r <= 4 * MAX_UNIT,
{
    if row {
        st.padding_left + st.border_left + st.padding_right + st.border_right
    } else {
        st.padding_top + st.border_top + st.padding_bottom + st.border_bottom
    }
}

pub fn pb_cross_total_u(st: &ResolvedStyle, row: bool) -> (r: i64)
    requires
        style_wf(*st),
    ensures
        r as int == pb_cross_total(*st, row),
        0 <= r <= 4 * MAX_UNIT,
{
    if row {
        st.padding_top + st.border_top + st.padding_bottom + st.border_bottom
    } else {
        st.padding_left + st.border_left + st.padding_right + st.border_right
    }
}

pub fn margin_main_total_u(st: &ResolvedStyle, row: bool) -> (r: i64)
    requires
        style_wf(*st),
    ensures
        r as int == margin_main_total(*st, row),
        -2 * MAX_UNIT <= r <= 2 * MAX_UNIT,
{
    if row {
        st.margin_left + st.margin_right
    } else {
        st.margin_top + st.margin_bottom
    }
}

pub fn margin_cross_total_u(st: &ResolvedStyle, row: bool) -> (r: i64)
    requires
        style_wf(*st),
    ensures
        r as int == margin_cross_total(*st, row),
        -2 * MAX_UNIT <= r <= 2 * MAX_UNIT,
{
    if row {
        st.margin_top + st.margin_bottom
    } else {
        st.margin_left + st.margin_right
    }
}

pub fn inner_avail_u(v: Option<i64>, pb: i64) -> (r: Option<i64>)
    ensures
        o2i(r) == inner_avail(o2i(v), pb as int),
        r matches Some(x) ==> 0 <= x <= MAX_UNIT,
{
    match v {
        Some(x) => Some(max0_u(sub_u(x, pb))),
        None => None,
    }
}

// ----------------------------------------------------------------------
// Segment folds
// ----------------------------------------------------------------------

/// Outer sizes of `[s, e)` with the gaps between them.
pub fn seg_used_u(outs: &Vec<i64>, s: usize, e: usize, gap: i64) -> (r: i64)
    requires
        e <= outs@.len(),
        forall|j: int| 0 <= j < outs@.len() ==> -MAX_UNIT <= #[trigger] outs@[j] <= MAX_UNIT,
    ensures
        r as int == seg_used(s2i(outs@), s as int, e as int, gap),
        -MAX_UNIT <= r <= MAX_UNIT,
{
    if e <= s {
        return 0;
    }
    let mut acc: i64 = outs[s];
    let mut j: usize = s + 1;
    while j < e
        invariant
            s < e <= outs@.len(),
            s + 1 <= j <= e,
            acc as int == seg_used(s2i(outs@), s as int, j as int, gap),
            -MAX_UNIT <= acc <= MAX_UNIT,
        decreases e - j,
    {
        acc = add_u(add_u(acc, gap), outs[j]);
        j = j + 1;
    }
    acc
}

/// Largest value of `[s, e)`, never below zero.
pub fn seg_max_u(vals: &Vec<i64>, s: usize, e: usize) -> (r: i64)
    requires
        e <= vals@.len(),
    ensures
        r as int == seg_max(s2i(vals@), s as int, e as int),
        0 <= r,
{
    if e <= s {
        return 0;
    }
    let mut acc: i64 = 0;
    let mut j: usize = s;
    while j < e
        invariant
            s <= j <= e <= vals@.len(),
            acc as int == seg_max(s2i(vals@), s as int, j as int),
            0 <= acc,
        decreases e - j,
    {
        if vals[j] > acc {
            acc = vals[j];
        }
        j = j + 1;
    }
    acc
}

/// Cumulative extent of the first `i` placed items with their gaps.
pub fn cum_x(vals: &Vec<i64>, gap: i64, i: usize) -> (r: i64)
    requires
        i <= vals@.len(),
    ensures
        r as int == cum_with_gap(s2i(vals@), gap, i as int),
        -MAX_UNIT <= r <= MAX_UNIT,
{
    let mut acc: i64 = 0;
    let mut j: usize = 0;
    while j < i
        invariant
            j <= i <= vals@.len(),
            acc as int == cum_with_gap(s2i(vals@), gap, j as int),
            -MAX_UNIT <= acc <= MAX_UNIT,
        decreases i - j,
    {
        let trail: i64 = if j + 1 == vals.len() {
            0
        } else {
            gap
        };
        acc = add_u(add_u(acc, vals[j]), trail);
        j = j + 1;
    }
    acc
}

// ----------------------------------------------------------------------
// Line formation
// ----------------------------------------------------------------------

/// What greedy wrapping guarantees of its break indices.
pub proof fn lemma_breaks_props(outs: Seq<int>, avail: Option<int>, gap: i64, wrapping: bool, k: int)
    requires
        k <= outs.len(),
    ensures
        k <= 0 ==> line_breaks(outs, avail, gap, wrapping, k).len() == 0,
        k > 0 ==> line_breaks(outs, avail, gap, wrapping, k).len() >= 1,
        line_breaks(outs, avail, gap, wrapping, k).len() <= (if k >= 0 {
            k
        } else {
            0
        }),
        k > 0 ==> line_breaks(outs, avail, gap, wrapping, k)[0] == 0,
        forall|l: int|
            0 <= l < line_breaks(outs, avail, gap, wrapping, k).len() ==> 0 <= #[trigger] line_breaks(
                outs,
                avail,
                gap,
                wrapping,
                k,
            )[l] < k,
        forall|l1: int, l2: int|
            0 <= l1 < l2 < line_breaks(outs, avail, gap, wrapping, k).len() ==> #[trigger] line_breaks(
                outs,
                avail,
                gap,
                wrapping,
                k,
            )[l1] < #[trigger] line_breaks(outs, avail, gap, wrapping, k)[l2],
    decreases k,
{
    if k > 1 {
        lemma_breaks_props(outs, avail, gap, wrapping, k - 1);
    }
}

/// Greedy line formation over the outer main sizes.
pub fn breaks_x(outs: &Vec<i64>, avail: Option<i64>, gap: i64, wrapping: bool) -> (bks: Vec<usize>)
    requires
        forall|j: int| 0 <= j < outs@.len() ==> -MAX_UNIT <= #[trigger] outs@[j] <= MAX_UNIT,
    ensures
        bks@.len() == line_breaks(s2i(outs@), o2i(avail), gap, wrapping, outs@.len() as int).len(),
        forall|l: int|
            0 <= l < bks@.len() ==> #[trigger] bks@[l] as int == line_breaks(
                s2i(outs@),
                o2i(avail),
                gap,
                wrapping,
                outs@.len() as int,
            )[l],
        forall|l: int| 0 <= l < bks@.len() ==> #[trigger] bks@[l] < outs@.len(),
{
    let ghost outsv = s2i(outs@);
    let ghost av = o2i(avail);
    let mut bks: Vec<usize> = Vec::new();
    let mut k: usize = 0;
    while k < outs.len()
        invariant
            k <= outs@.len(),
            bks@.len() == line_breaks(outsv, av, gap, wrapping, k as int).len(),
            forall|l: int|
                0 <= l < bks@.len() ==> #[trigger] bks@[l] as int == line_breaks(outsv, av, gap, wrapping, k as int)[l],
            forall|l: int| 0 <= l < bks@.len() ==> #[trigger] bks@[l] < outs@.len(),
            outsv == s2i(outs@),
            av == o2i(avail),
            forall|j: int| 0 <= j < outs@.len() ==> -MAX_UNIT <= #[trigger] outs@[j] <= MAX_UNIT,
        decreases outs@.len() - k,
    {
        proof {
            lemma_breaks_props(outsv, av, gap, wrapping, k as int);
        }
        if k == 0 {
            bks.push(0);
            proof {
                assert(line_breaks(outsv, av, gap, wrapping, 1int) =~= seq![0int]);
            }
        } else {
            let start: usize = bks[bks.len() - 1];
            let used: i64 = seg_used_u(outs, start, k, gap);
            let would: i64 = add_u(add_u(used, gap), outs[k]);
            let over: bool = match avail {
                Some(a) => wrapping && would > a,
                None => false,
            };
            if over {
                bks.push(k);
            }
            proof {
                let prev = line_breaks(outsv, av, gap, wrapping, k as int);
                let cur = line_breaks(outsv, av, gap, wrapping, (k + 1) as int);
                assert(prev.last() == start as int);
                if over {
                    assert(cur =~= prev.push(k as int));
                } else {
                    assert(cur =~= prev);
                }
            }
        }
        k = k + 1;
    }
    bks
}

// ----------------------------------------------------------------------
// The measurement pass
// ----------------------------------------------------------------------

/// The hypothetical sizes of one in-flow child.
pub fn hyp_x(c: &RTree, idx: usize, row: bool, cavail: Option<i64>) -> (h: HypE)
    requires
        tree_wf(rt_view(*c)),
    ensures
        hyp_abs(h) == child_hyp(rt_view(*c), idx as int, row, o2i(cavail)),
        0 <= h.main <= MAX_UNIT,
        0 <= h.cross <= MAX_UNIT,
        -MAX_UNIT <= h.outer_main <= MAX_UNIT,
        -MAX_UNIT <= h.outer_cross <= MAX_UNIT,
    decreases *c, 10int, 0int,
{
    let ghost v = rt_view(*c);
    proof {
        assert(v.style == c.style);
        assert(style_wf(c.style));
    }
    let mm: Option<i64> = if row {
        c.style.min_width
    } else {
        c.style.min_height
    };
    let mx: Option<i64> = if row {
        c.style.max_width
    } else {
        c.style.max_height
    };
    let explicit_main: Option<i64> = if row {
        c.style.width
    } else {
        c.style.height
    };
    let basis_raw: i64 = match c.style.flex_basis {
        Some(b) => b,
        None => match explicit_main {
            Some(m) => m,
            None => {
                let m = measure_x(
                    c,
                    if row {
                        None
                    } else {
                        cavail
                    },
                    if row {
                        cavail
                    } else {
                        None
                    },
                );
                if row {
                    m.0
                } else {
                    m.1
                }
            },
        },
    };
    let main: i64 = final_size_u(basis_raw, mm, mx);
    proof {
        crate::units::lemma_final_size_range(basis_raw as int, mm, mx);
    }
    let cmn: Option<i64> = if row {
        c.style.min_height
    } else {
        c.style.min_width
    };
    let cmx: Option<i64> = if row {
        c.style.max_height
    } else {
        c.style.max_width
    };
    let explicit_cross: Option<i64> = if row {
        c.style.height
    } else {
        c.style.width
    };
    let cross: i64 = match explicit_cross {
        Some(cv) => {
            proof {
                crate::units::lemma_final_size_range(cv as int, cmn, cmx);
            }
            final_size_u(cv, cmn, cmx)
        },
        None => {
            let m = measure_x(
                c,
                if row {
                    Some(main)
                } else {
                    cavail
                },
                if row {
                    cavail
                } else {
                    Some(main)
                },
            );
            if row {
                m.1
            } else {
                m.0
            }
        },
    };
    let outer_main: i64 = add_u(main, margin_main_total_u(&c.style, row));
    let outer_cross: i64 = add_u(cross, margin_cross_total_u(&c.style, row));
    let cross_explicit: bool = match explicit_cross {
        Some(_) => true,
        None => false,
    };
    HypE { idx, main, cross, outer_main, outer_cross, cross_explicit }
}

/// The in-flow children of a node, in order.
pub fn flow_x(t: &RTree) -> (flow: Vec<usize>)
    ensures
        flow@.len() == inflow_idxs(rt_view(*t), t.children@.len() as int).len(),
        forall|j: int|
            0 <= j < flow@.len() ==> #[trigger] flow@[j] as int == inflow_idxs(
                rt_view(*t),
                t.children@.len() as int,
            )[j],
        forall|j: int| 0 <= j < flow@.len() ==> #[trigger] flow@[j] < t.children@.len(),
        flow@.len() <= t.children@.len(),
{
    let ghost v = rt_view(*t);
    let mut flow: Vec<usize> = Vec::new();
    let mut i: usize = 0;
    while i < t.children.len()
        invariant
            i <= t.children@.len(),
            flow@.len() <= i,
            v == rt_view(*t),
            flow@.len() == inflow_idxs(v, i as int).len(),
            forall|j: int| 0 <= j < flow@.len() ==> #[trigger] flow@[j] as int == inflow_idxs(v, i as int)[j],
            forall|j: int| 0 <= j < flow@.len() ==> #[trigger] flow@[j] < t.children@.len(),
        decreases t.children@.len() - i,
    {
        proof {
            lemma_rt_index(*t, i as int);
        }
        let absolute: bool = t.children[i].style.position == Position::Absolute;
        proof {
            assert(absolute == is_abs(v.children[i as int].style));
        }
        if !absolute {
            flow.push(i);
        }
        i = i + 1;
    }
    flow
}

/// The hypothetical sizes of a node's in-flow children.
pub fn hyps_x(t: &RTree, flow: &Vec<usize>, row: bool, cavail: Option<i64>) -> (hyps: Vec<HypE>)
    requires
        tree_wf(rt_view(*t)),
        row == is_row(rt_view(*t).style.direction),
        flow@.len() == inflow_idxs(rt_view(*t), t.children@.len() as int).len(),
        forall|j: int|
            0 <= j < flow@.len() ==> #[trigger] flow@[j] as int == inflow_idxs(
                rt_view(*t),
                t.children@.len() as int,
            )[j],
        forall|j: int| 0 <= j < flow@.len() ==> #[trigger] flow@[j] < t.children@.len(),
    ensures
        hyps@.len() == flow@.len(),
        hyps_abs(hyps@) == hyp_seq(
            rt_view(*t),
            inflow_idxs(rt_view(*t), t.children@.len() as int),
            o2i(cavail),
            flow@.len() as int,
        ),
        hyp_ranges(hyps@),
    decreases *t, 7int, 0int,
{
    let ghost v = rt_view(*t);
    let ghost flowv = inflow_idxs(v, t.children@.len() as int);
    let ghost cav = o2i(cavail);
    proof {
        if t.children@.len() > 0 {
            lemma_rt_index(*t, 0);
        }
    }
    let mut hyps: Vec<HypE> = Vec::new();
    let mut j: usize = 0;
    while j < flow.len()
        invariant
            j <= flow@.len(),
            v == rt_view(*t),
            tree_wf(v),
            hyps@.len() == j,
            flow@.len() == flowv.len(),
            forall|jj: int| 0 <= jj < flow@.len() ==> #[trigger] flow@[jj] as int == flowv[jj],
            forall|jj: int| 0 <= jj < flow@.len() ==> #[trigger] flow@[jj] < t.children@.len(),
            hyps_abs(hyps@) == hyp_seq(v, flowv, cav, j as int),
            hyp_ranges(hyps@),
            o2i(cavail) == cav,
            v.children.len() == t.children@.len(),
            flowv == inflow_idxs(v, t.children@.len() as int),
            row == is_row(v.style.direction),
        decreases flow@.len() - j,
    {
        let fi: usize = flow[j];
        proof {
            lemma_rt_index(*t, fi as int);
            lemma_rt_child_wf(*t, fi as int);
        }
        let h = hyp_x(&t.children[fi], fi, row, cavail);
        hyps.push(h);
        proof {
            assert(hyps_abs(hyps@) =~= hyp_seq(v, flowv, cav, (j + 1) as int));
        }
        j = j + 1;
    }
    hyps
}

/// Padding plus border on the horizontal edges.
pub fn pb_w_total_u(st: &ResolvedStyle) -> (r: i64)
    requires
        style_wf(*st),
    ensures
        r as int == crate::model::pb_w_total(*st),
        0 <= r <= 4 * MAX_UNIT,
{
    st.padding_left + st.border_left + st.padding_right + st.border_right
}

/// Padding plus border on the vertical edges.
pub fn pb_h_total_u(st: &ResolvedStyle) -> (r: i64)
    requires
        style_wf(*st),
    ensures
        r as int == crate::model::pb_h_total(*st),
        0 <= r <= 4 * MAX_UNIT,
{
    st.padding_top + st.border_top + st.padding_bottom + st.border_bottom
}

/// The content-box extents (main, cross) of a node's children under the
/// given available space.
pub fn content_x(t: &RTree, aw: Option<i64>, ah: Option<i64>) -> (r: (i64, i64))
    requires
        tree_wf(rt_view(*t)),
    ensures
        r.0 as int == content_sizes(rt_view(*t), o2i(aw), o2i(ah)).0,
        r.1 as int == content_sizes(rt_view(*t), o2i(aw), o2i(ah)).1,
        0 <= r.0 <= MAX_UNIT,
        -MAX_UNIT <= r.1 <= MAX_UNIT,
    decreases *t, 8int, 0int,
{
    let ghost v = rt_view(*t);
    proof {
        assert(v.style == t.style);
        assert(style_wf(t.style));
        if t.children@.len() > 0 {
            lemma_rt_index(*t, 0);
        } else {
            assert(rt_kids_view(*t, 0int) =~= Seq::<RNode>::empty());
        }
        lemma_rt_kids_len(*t, t.children@.len() as int);
    }
    let row: bool = match t.style.direction {
        crate::style::FlexDirection::Row => true,
        crate::style::FlexDirection::RowReverse => true,
        _ => false,
    };
    proof {
        assert(row == is_row(v.style.direction));
    }
    let wrapping: bool = t.style.wrap != crate::style::FlexWrap::NoWrap;
    let flow: Vec<usize> = flow_x(t);
    let ghost flowv = inflow_idxs(v, t.children@.len() as int);
    let cavail: Option<i64> = inner_avail_u(
        if row {
            ah
        } else {
            aw
        },
        pb_cross_total_u(&t.style, row),
    );
    let mavail: Option<i64> = inner_avail_u(
        if row {
            aw
        } else {
            ah
        },
        pb_main_total_u(&t.style, row),
    );
    let ghost cav = inner_avail(
        if row {
            o2i(ah)
        } else {
            o2i(aw)
        },
        pb_cross_total(v.style, row),
    );
    let mgap: i64 = if row {
        t.style.column_gap
    } else {
        t.style.row_gap
    };
    let cgap: i64 = if row {
        t.style.row_gap
    } else {
        t.style.column_gap
    };
    // Hypothetical sizes of the in-flow children.
    let hyps: Vec<HypE> = hyps_x(t, &flow, row, cavail);
    let ghost hypsv = hyp_seq(v, flowv, cav, flowv.len() as int);
    proof {
        assert(hyps_abs(hyps@) == hypsv);
        assert(hypsv.len() == hyps@.len());
    }
    // Outer main and cross sizes.
    let mut outs: Vec<i64> = Vec::new();
    let mut crossouts: Vec<i64> = Vec::new();
    let mut j2: usize = 0;
    while j2 < hyps.len()
        invariant
            j2 <= hyps@.len(),
            outs@.len() == j2,
            crossouts@.len() == j2,
            hyp_ranges(hyps@),
            forall|jj: int| 0 <= jj < j2 ==> #[trigger] outs@[jj] == hyps@[jj].outer_main,
            forall|jj: int| 0 <= jj < j2 ==> #[trigger] crossouts@[jj] == hyps@[jj].outer_cross,
        decreases hyps@.len() - j2,
    {
        outs.push(hyps[j2].outer_main);
        crossouts.push(hyps[j2].outer_cross);
        j2 = j2 + 1;
    }
    let ghost outsv = Seq::new(hypsv.len(), |jj: int| hypsv[jj].outer_main);
    let ghost crossoutsv = Seq::new(hypsv.len(), |jj: int| hypsv[jj].outer_cross);
    proof {
        assert(s2i(outs@) =~= outsv);
        assert(s2i(crossouts@) =~= crossoutsv);
    }
    // Lines.
    let bks: Vec<usize> = breaks_x(&outs, mavail, mgap, wrapping);
    let ghost bksv = line_breaks(outsv, o2i(mavail), mgap, wrapping, outsv.len() as int);
    proof {
        lemma_breaks_props(outsv, o2i(mavail), mgap, wrapping, outsv.len() as int);
    }
    // Main content: the widest line.
    let mut cm: i64 = 0;
    let mut l: usize = 0;
    while l < bks.len()
        invariant
            l <= bks@.len(),
            bks@.len() == bksv.len(),
            forall|ll: int| 0 <= ll < bks@.len() ==> #[trigger] bks@[ll] as int == bksv[ll],
            forall|ll: int| 0 <= ll < bks@.len() ==> #[trigger] bks@[ll] < outs@.len(),
            forall|ll: int| 0 <= ll < bksv.len() ==> 0 <= #[trigger] bksv[ll] < outsv.len(),
            forall|l1: int, l2: int| 0 <= l1 < l2 < bksv.len() ==> #[trigger] bksv[l1] < #[trigger] bksv[l2],
            outs@.len() == flow@.len(),
            forall|jj: int| 0 <= jj < outs@.len() ==> -MAX_UNIT <= #[trigger] outs@[jj] <= MAX_UNIT,
            cm as int == lines_main_max(outsv, bksv, outsv.len() as int, mgap, l as int),
            0 <= cm <= MAX_UNIT,
            s2i(outs@) == outsv,
        decreases bks@.len() - l,
    {
        let s: usize = bks[l];
        let e: usize = if l + 1 < bks.len() {
            bks[l + 1]
        } else {
            outs.len()
        };
        let u: i64 = seg_used_u(&outs, s, e, mgap);
        if u > cm {
            cm = u;
        }
        l = l + 1;
    }
    // Cross content: the stacked line extents.
    let mut exts: Vec<i64> = Vec::new();
    let ghost extsv = Seq::new(
        bksv.len(),
        |ll: int| seg_max(crossoutsv, line_start(bksv, ll), line_end(bksv, flowv.len() as int, ll)),
    );
    let mut l2: usize = 0;
    while l2 < bks.len()
        invariant
            l2 <= bks@.len(),
            bks@.len() == bksv.len(),
            forall|ll: int| 0 <= ll < bks@.len() ==> #[trigger] bks@[ll] as int == bksv[ll],
            forall|ll: int| 0 <= ll < bks@.len() ==> #[trigger] bks@[ll] < crossouts@.len(),
            forall|l1: int, l2x: int| 0 <= l1 < l2x < bksv.len() ==> #[trigger] bksv[l1] < #[trigger] bksv[l2x],
            crossouts@.len() == flow@.len(),
            exts@.len() == l2,
            forall|ll: int| 0 <= ll < l2 ==> #[trigger] exts@[ll] as int == extsv[ll],
            forall|ll: int| 0 <= ll < l2 ==> 0 <= #[trigger] exts@[ll],
            s2i(crossouts@) == crossoutsv,
            flow@.len() == flowv.len(),
            crossoutsv.len() == flowv.len(),
            extsv == Seq::new(
                bksv.len(),
                |ll: int| seg_max(crossoutsv, line_start(bksv, ll), line_end(bksv, flowv.len() as int, ll)),
            ),
        decreases bks@.len() - l2,
    {
        let s: usize = bks[l2];
        let e: usize = if l2 + 1 < bks.len() {
            bks[l2 + 1]
        } else {
            crossouts.len()
        };
        let m: i64 = seg_max_u(&crossouts, s, e);
        exts.push(m);
        l2 = l2 + 1;
    }
    let cc: i64 = cum_x(&exts, cgap, exts.len());
    proof {
        assert(s2i(exts@) =~= extsv);
        assert(content_sizes(v, o2i(aw), o2i(ah)).0 == cm as int);
        assert(content_sizes(v, o2i(aw), o2i(ah)).1 == cc as int);
    }
    (cm, cc)
}

/// The border-box size of a node under the given available space.
pub fn measure_x(t: &RTree, aw: Option<i64>, ah: Option<i64>) -> (r: (i64, i64))
    requires
        tree_wf(rt_view(*t)),
    ensures
        r.0 as int == measure(rt_view(*t), o2i(aw), o2i(ah)).0,
        r.1 as int == measure(rt_view(*t), o2i(aw), o2i(ah)).1,
        0 <= r.0 <= MAX_UNIT,
        0 <= r.1 <= MAX_UNIT,
    decreases *t, 9int, 0int,
{
    let ghost v = rt_view(*t);
    proof {
        assert(v.style == t.style);
        assert(style_wf(t.style));
    }
    let row: bool = match t.style.direction {
        crate::style::FlexDirection::Row => true,
        crate::style::FlexDirection::RowReverse => true,
        _ => false,
    };
    let mopt: Option<i64> = if row {
        t.style.width
    } else {
        t.style.height
    };
    let copt: Option<i64> = if row {
        t.style.height
    } else {
        t.style.width
    };
    let mmn: Option<i64> = if row {
        t.style.min_width
    } else {
        t.style.min_height
    };
    let mmx: Option<i64> = if row {
        t.style.max_width
    } else {
        t.style.max_height
    };
    let cmn: Option<i64> = if row {
        t.style.min_height
    } else {
        t.style.min_width
    };
    let cmx: Option<i64> = if row {
        t.style.max_height
    } else {
        t.style.max_width
    };
    let main_bb: i64;
    let cross_bb: i64;
    match (mopt, copt) {
        (Some(mv), Some(cv)) => {
            // Both sizes explicit: the content does not matter.
            main_bb = final_size_u(mv, mmn, mmx);
            cross_bb = final_size_u(cv, cmn, cmx);
        },
        _ => {
            let c = content_x(t, aw, ah);
            main_bb = match mopt {
                Some(mv) => final_size_u(mv, mmn, mmx),
                None => final_size_u(add_u(c.0, pb_main_total_u(&t.style, row)), mmn, mmx),
            };
            cross_bb = match copt {
                Some(cv) => final_size_u(cv, cmn, cmx),
                None => final_size_u(add_u(c.1, pb_cross_total_u(&t.style, row)), cmn, cmx),
            };
        },
    }
    proof {
        crate::units::lemma_final_size_range(MAX_UNIT as int, None, None);
        assert(0 <= main_bb <= MAX_UNIT) by {
            crate::units::lemma_final_size_range(
                match mopt {
                    Some(mv) => mv as int,
                    None => badd(content_sizes(v, o2i(aw), o2i(ah)).0, pb_main_total(v.style, row)),
                },
                mmn,
                mmx,
            );
        }
        assert(0 <= cross_bb <= MAX_UNIT) by {
            crate::units::lemma_final_size_range(
                match copt {
                    Some(cv) => cv as int,
                    None => badd(content_sizes(v, o2i(aw), o2i(ah)).1, pb_cross_total(v.style, row)),
                },
                cmn,
                cmx,
            );
        }
    }
    if row {
        (main_bb, cross_bb)
    } else {
        (cross_bb, main_bb)
    }
}

/// A bracketing line index is the line index.
pub proof fn lemma_line_of_bracket(bks: Seq<int>, fi: int, l: int)
    requires
        bks.len() >= 1,
        forall|l1: int, l2: int| 0 <= l1 < l2 < bks.len() ==> #[trigger] bks[l1] < #[trigger] bks[l2],
        0 <= l < bks.len(),
        bks[l] <= fi,
        l + 1 < bks.len() ==> fi < bks[l + 1],
    ensures
        line_of(bks, fi) == l,
    decreases bks.len(),
{
    if bks.len() > 1 {
        if bks.last() <= fi {
            assert(l == bks.len() - 1) by {
                if l < bks.len() - 1 {
                    assert(bks[l + 1] <= bks[bks.len() - 1]);
                }
            }
        } else {
            assert(l < bks.len() - 1);
            let d = bks.drop_last();
            assert(d.len() == bks.len() - 1);
            assert(forall|j: int| 0 <= j < d.len() ==> #[trigger] d[j] == bks[j]);
            lemma_line_of_bracket(d, fi, l);
        }
    }
}

} // verus!

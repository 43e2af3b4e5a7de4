//! The executable commit pass: placing every child of a node whose final
//! border-box size is known, and recursing into the children.

use vstd::prelude::*;

use crate::engine::HypE;
use crate::engine::breaks_x;
use crate::engine::cum_x;
use crate::engine::flow_x;
use crate::engine::hyp_ranges;
use crate::engine::hyps_abs;
use crate::engine::lemma_breaks_props;
use crate::engine::lemma_line_of_bracket;
use crate::engine::lemma_rt_child_wf;
use crate::engine::lemma_rt_index;
use crate::engine::margin_cross_total_u;
use crate::engine::measure_x;
use crate::engine::o2i;
use crate::engine::pb_h_total_u;
use crate::engine::pb_w_total_u;
use crate::engine::s2i;
use crate::engine::seg_max_u;
use crate::model::MAX_CHILDREN;
use crate::model::arity_wf;
use crate::model::badd;
use crate::model::bsub;
use crate::model::child_geom;
use crate::model::ctx_bks;
use crate::model::ctx_ch;
use crate::model::ctx_crossouts;
use crate::model::ctx_cw;
use crate::model::ctx_exts;
use crate::model::ctx_flow;
use crate::model::ctx_free_c;
use crate::model::ctx_hyps;
use crate::model::ctx_inner_cross;
use crate::model::ctx_inner_main;
use crate::model::ctx_liney;
use crate::model::ctx_msizes;
use crate::model::ctx_outs;
use crate::model::ctx_placed_exts;
use crate::model::ctx_raw_exts;
use crate::model::ctx_wrapping;
use crate::model::ctx_wrev;
use crate::model::align_content_extra;
use crate::model::cum_with_gap;
use crate::model::flow_pos;
use crate::model::inflow_idxs;
use crate::model::is_abs;
use crate::model::is_reverse;
use crate::model::is_row;
use crate::model::justify_extra;
use crate::model::lemma_arity_wf_kid;
use crate::model::line_end;
use crate::model::line_of;
use crate::model::line_start;
use crate::model::place_kids;
use crate::model::slot_of;
use crate::model::styles_of_flow;
use crate::model::tree_wf;
use crate::style::AlignContent;
use crate::style::AlignSelf;
use crate::style::JustifyContent;
use crate::style::Position;
use crate::style::ResolvedStyle;
use crate::style::style_wf;
use crate::solver::dist_x;
use crate::tree::LayoutNodeResult;
use crate::tree::LayoutResult;
use crate::tree::RTree;
use crate::tree::res_kids_view;
use crate::tree::res_view;
use crate::tree::rt_view;
use crate::units::MAX_UNIT;
use crate::units::add_u;
use crate::units::final_size_u;
use crate::units::max0_u;
use crate::units::mul_div_u;
use crate::units::sub_u;

verus! {

/// Division by two of a non-negative value.
fn half_u(v: i64) -> (r: i64)
    requires
        0 <= v,
    ensures
        r as int == v as int / 2,
{
    ((v as u64) / 2u64) as i64
}

/// The extra leading space before the item in slot `i` of `k` under the
/// given justification.
pub fn justify_x(j: JustifyContent, free: i64, i: usize, k: usize) -> (r: i64)
    requires
        -MAX_UNIT <= free <= MAX_UNIT,
        i < k,
        k <= MAX_CHILDREN,
    ensures
        r as int == justify_extra(j, free as int, i as int, k as int),
{
    if free <= 0 {
        return 0;
    }
    match j {
        JustifyContent::Start => 0,
        JustifyContent::End => free,
        JustifyContent::Center => half_u(free),
        JustifyContent::SpaceBetween => if k <= 1 {
            0
        } else {
            mul_div_u(free, i as i64, (k - 1) as i64)
        },
        JustifyContent::SpaceAround => mul_div_u(free, (2 * i + 1) as i64, (2 * k) as i64),
        JustifyContent::SpaceEvenly => mul_div_u(free, (i + 1) as i64, (k + 1) as i64),
    }
}

/// The extra leading space before the line in slot `i` of `k` under the
/// given content alignment.
pub fn align_content_x(a: AlignContent, free: i64, i: usize, k: usize) -> (r: i64)
    requires
        -MAX_UNIT <= free <= MAX_UNIT,
        i < k,
        k <= MAX_CHILDREN,
    ensures
        r as int == align_content_extra(a, free as int, i as int, k as int),
{
    if free <= 0 {
        return 0;
    }
    match a {
        AlignContent::Start => 0,
        AlignContent::End => free,
        AlignContent::Center => half_u(free),
        AlignContent::SpaceBetween => if k <= 1 {
            0
        } else {
            mul_div_u(free, i as i64, (k - 1) as i64)
        },
        AlignContent::SpaceAround => mul_div_u(free, (2 * i + 1) as i64, (2 * k) as i64),
        AlignContent::Stretch => 0,
    }
}

/// A result node whose children match the model's geometries views as the
/// model's subtree.
pub proof fn lemma_res_kids_eq(r: LayoutNodeResult, cv: crate::model::RNode, wc: int, hc: int, k: int)
    requires
        r.children@.len() == cv.children.len(),
        forall|j: int|
            0 <= j < r.children@.len() ==> res_view(#[trigger] r.children@[j]) == child_geom(cv, wc, hc, j),
        k <= r.children@.len(),
    ensures
        res_kids_view(r, k) == place_kids(cv, wc, hc, k),
    decreases k,
{
    if k > 0 {
        lemma_res_kids_eq(r, cv, wc, hc, k - 1);
    }
}

/// Place every child of a node whose final border box is `w` by `h`.
#[verifier::rlimit(100)]
pub fn place_x(t: &RTree, w: i64, h: i64) -> (res: Vec<LayoutNodeResult>)
    requires
        tree_wf(rt_view(*t)),
        arity_wf(rt_view(*t)),
    ensures
        res@.len() == t.children@.len(),
        forall|i: int|
            0 <= i < res@.len() ==> res_view(#[trigger] res@[i]) == child_geom(
                rt_view(*t),
                w as int,
                h as int,
                i,
            ),
    decreases *t, 13int, 0int,
{
    let ghost v = rt_view(*t);
    let ghost wi = w as int;
    let ghost hi = h as int;
    proof {
        assert(v.style == t.style);
        assert(style_wf(t.style));
        if t.children@.len() > 0 {
            lemma_rt_index(*t, 0);
        } else {
            assert(crate::tree::rt_kids_view(*t, 0int) =~= Seq::<crate::model::RNode>::empty());
        }
        crate::engine::lemma_rt_kids_len(*t, t.children@.len() as int);
    }
    let row: bool = match t.style.direction {
        crate::style::FlexDirection::Row => true,
        crate::style::FlexDirection::RowReverse => true,
        _ => false,
    };
    let rev: bool = match t.style.direction {
        crate::style::FlexDirection::RowReverse => true,
        crate::style::FlexDirection::ColumnReverse => true,
        _ => false,
    };
    let wrapping: bool = t.style.wrap != crate::style::FlexWrap::NoWrap;
    let wrev: bool = t.style.wrap == crate::style::FlexWrap::WrapReverse;
    let cw: i64 = max0_u(sub_u(w, pb_w_total_u(&t.style)));
    let ch: i64 = max0_u(sub_u(h, pb_h_total_u(&t.style)));
    let inner_main: i64 = if row {
        cw
    } else {
        ch
    };
    let inner_cross: i64 = if row {
        ch
    } else {
        cw
    };
    proof {
        assert(cw as int == ctx_cw(v, wi));
        assert(ch as int == ctx_ch(v, hi));
        assert(inner_main as int == ctx_inner_main(v, wi, hi));
        assert(inner_cross as int == ctx_inner_cross(v, wi, hi));
    }
    let mgap: i64 = if row {
        t.style.column_gap
    } else {
        t.style.row_gap
    };
    let cgap: i64 = if row {
        t.style.row_gap
    } else {
        t.style.column_gap
    };
    // The in-flow children and their hypothetical sizes.
    let flow: Vec<usize> = flow_x(t);
    let ghost flowv = ctx_flow(v);
    let hyps: Vec<HypE> = crate::engine::hyps_x(t, &flow, row, Some(inner_cross));
    let ghost hypsv = ctx_hyps(v, wi, hi);
    proof {
        assert(o2i(Some(inner_cross)) == Some(ctx_inner_cross(v, wi, hi)));
        assert(hyps_abs(hyps@) == hypsv);
        assert(hypsv.len() == hyps@.len());
        assert(flow@.len() <= t.children@.len());
        assert(flow@.len() <= MAX_CHILDREN);
    }
    // Styles of the in-flow children.
    let mut styles: Vec<ResolvedStyle> = Vec::new();
    let mut j0: usize = 0;
    while j0 < flow.len()
        invariant
            j0 <= flow@.len(),
            v == rt_view(*t),
            tree_wf(v),
            v.children.len() == t.children@.len(),
            flowv == ctx_flow(v),
            flow@.len() == flowv.len(),
            forall|jj: int| 0 <= jj < flow@.len() ==> #[trigger] flow@[jj] as int == flowv[jj],
            forall|jj: int| 0 <= jj < flow@.len() ==> #[trigger] flow@[jj] < t.children@.len(),
            styles@.len() == j0,
            forall|jj: int| 0 <= jj < j0 ==> #[trigger] styles@[jj] == styles_of_flow(v, flowv)[jj],
            forall|jj: int| 0 <= jj < j0 ==> style_wf(#[trigger] styles@[jj]),
        decreases flow@.len() - j0,
    {
        let fi: usize = flow[j0];
        proof {
            lemma_rt_index(*t, fi as int);
            lemma_rt_child_wf(*t, fi as int);
        }
        styles.push(t.children[fi].style);
        j0 = j0 + 1;
    }
    // Outer sizes.
    let mut outs: Vec<i64> = Vec::new();
    let mut crossouts: Vec<i64> = Vec::new();
    let mut j1: usize = 0;
    while j1 < hyps.len()
        invariant
            j1 <= hyps@.len(),
            outs@.len() == j1,
            crossouts@.len() == j1,
            hyp_ranges(hyps@),
            forall|jj: int| 0 <= jj < j1 ==> #[trigger] outs@[jj] == hyps@[jj].outer_main,
            forall|jj: int| 0 <= jj < j1 ==> #[trigger] crossouts@[jj] == hyps@[jj].outer_cross,
            forall|jj: int| 0 <= jj < j1 ==> -MAX_UNIT <= #[trigger] crossouts@[jj] <= MAX_UNIT,
        decreases hyps@.len() - j1,
    {
        outs.push(hyps[j1].outer_main);
        crossouts.push(hyps[j1].outer_cross);
        j1 = j1 + 1;
    }
    proof {
        assert(s2i(outs@) =~= ctx_outs(v, wi, hi));
        assert(s2i(crossouts@) =~= ctx_crossouts(v, wi, hi));
    }
    // Lines.
    let bks: Vec<usize> = breaks_x(&outs, Some(inner_main), mgap, wrapping);
    let ghost bksv = ctx_bks(v, wi, hi);
    proof {
        lemma_breaks_props(ctx_outs(v, wi, hi), Some(inner_main as int), mgap, wrapping, flowv.len() as int);
        assert(bks@.len() == bksv.len());
        assert(forall|l: int| 0 <= l < bks@.len() ==> #[trigger] bks@[l] as int == bksv[l]);
    }
    // Resolved main sizes, line by line.
    let mut msizes: Vec<i64> = Vec::new();
    let ghost msizesv = ctx_msizes(v, wi, hi);
    let mut l0: usize = 0;
    while l0 < bks.len()
        invariant
            l0 <= bks@.len(),
            v == rt_view(*t),
            wi == w as int,
            hi == h as int,
            bksv == ctx_bks(v, wi, hi),
            flowv == ctx_flow(v),
            hypsv == ctx_hyps(v, wi, hi),
            msizesv == ctx_msizes(v, wi, hi),
            bks@.len() == bksv.len(),
            forall|ll: int| 0 <= ll < bks@.len() ==> #[trigger] bks@[ll] as int == bksv[ll],
            forall|ll: int| 0 <= ll < bksv.len() ==> 0 <= #[trigger] bksv[ll] < flowv.len(),
            forall|l1: int, l2: int| 0 <= l1 < l2 < bksv.len() ==> #[trigger] bksv[l1] < #[trigger] bksv[l2],
            bksv.len() >= 1 ==> bksv[0] == 0,
            hyps@.len() == flowv.len(),
            styles@.len() == flowv.len(),
            outs@.len() == flowv.len(),
            hyp_ranges(hyps@),
            hyps_abs(hyps@) == hypsv,
            forall|jj: int| 0 <= jj < outs@.len() ==> #[trigger] outs@[jj] == hyps@[jj].outer_main,
            forall|jj: int| 0 <= jj < styles@.len() ==> #[trigger] styles@[jj] == styles_of_flow(v, flowv)[jj],
            forall|jj: int| 0 <= jj < styles@.len() ==> style_wf(#[trigger] styles@[jj]),
            flowv.len() <= MAX_CHILDREN,
            -MAX_UNIT <= inner_main <= MAX_UNIT,
            inner_main as int == ctx_inner_main(v, wi, hi),
            0 <= mgap <= MAX_UNIT,
            mgap == crate::model::main_gap(v.style, is_row(v.style.direction)),
            row == is_row(v.style.direction),
            flow@.len() == flowv.len(),
            msizes@.len() == (if l0 < bks@.len() {
                bksv[l0 as int]
            } else {
                flowv.len() as int
            }),
            forall|fi: int| 0 <= fi < msizes@.len() ==> #[trigger] msizes@[fi] as int == msizesv[fi],
            forall|fi: int| 0 <= fi < msizes@.len() ==> 0 <= #[trigger] msizes@[fi] <= MAX_UNIT,
        decreases bks@.len() - l0,
    {
        let s: usize = bks[l0];
        let e: usize = if l0 + 1 < bks.len() {
            bks[l0 + 1]
        } else {
            flow.len()
        };
        let line: Vec<i64> = dist_x(&hyps, &styles, &outs, s, e, inner_main, mgap, row);
        proof {
            assert(styles@ =~= styles_of_flow(v, flowv));
        }
        let mut j2: usize = 0;
        while j2 < line.len()
            invariant
                j2 <= line@.len(),
                s as int == bksv[l0 as int],
                e as int == line_end(bksv, flowv.len() as int, l0 as int),
                s < e <= flowv.len(),
                l0 < bksv.len(),
                bksv == ctx_bks(v, wi, hi),
                msizesv == ctx_msizes(v, wi, hi),
                flowv == ctx_flow(v),
                hypsv == ctx_hyps(v, wi, hi),
                forall|ll: int| 0 <= ll < bksv.len() ==> 0 <= #[trigger] bksv[ll] < flowv.len(),
                forall|l1: int, l2: int| 0 <= l1 < l2 < bksv.len() ==> #[trigger] bksv[l1] < #[trigger] bksv[l2],
                bksv[0] == 0,
                line@.len() == e - s,
                forall|jj: int|
                    0 <= jj < line@.len() ==> #[trigger] line@[jj] as int == crate::model::line_sizes(
                        hypsv,
                        styles_of_flow(v, flowv),
                        s as int,
                        e as int,
                        inner_main as int,
                        mgap,
                        is_row(v.style.direction),
                    )[jj].size,
                forall|jj: int| 0 <= jj < line@.len() ==> 0 <= #[trigger] line@[jj] <= MAX_UNIT,
                inner_main as int == ctx_inner_main(v, wi, hi),
                mgap == crate::model::main_gap(v.style, is_row(v.style.direction)),
                msizes@.len() == s + j2,
                forall|fi: int| 0 <= fi < msizes@.len() ==> #[trigger] msizes@[fi] as int == msizesv[fi],
                forall|fi: int| 0 <= fi < msizes@.len() ==> 0 <= #[trigger] msizes@[fi] <= MAX_UNIT,
            decreases line@.len() - j2,
        {
            msizes.push(line[j2]);
            proof {
                let fi = (s + j2) as int;
                lemma_line_of_bracket(bksv, fi, l0 as int);
                crate::model::lemma_ctx_msizes_at(v, wi, hi, fi);
                assert(msizesv[fi] == crate::model::line_sizes(
                    hypsv,
                    styles_of_flow(v, flowv),
                    s as int,
                    e as int,
                    inner_main as int,
                    mgap,
                    is_row(v.style.direction),
                )[fi - s].size);
            }
            j2 = j2 + 1;
        }
        l0 = l0 + 1;
    }
    // Line cross extents, raw then stretched.
    let lcount: usize = bks.len();
    let mut raw: Vec<i64> = Vec::new();
    let ghost rawv = ctx_raw_exts(v, wi, hi);
    let mut l1: usize = 0;
    while l1 < lcount
        invariant
            l1 <= lcount,
            lcount == bks@.len(),
            bks@.len() == bksv.len(),
            bksv == ctx_bks(v, wi, hi),
            rawv == ctx_raw_exts(v, wi, hi),
            flowv == ctx_flow(v),
            forall|ll: int| 0 <= ll < bks@.len() ==> #[trigger] bks@[ll] as int == bksv[ll],
            forall|ll: int| 0 <= ll < bksv.len() ==> 0 <= #[trigger] bksv[ll] < flowv.len(),
            forall|l1x: int, l2x: int| 0 <= l1x < l2x < bksv.len() ==> #[trigger] bksv[l1x] < #[trigger] bksv[l2x],
            crossouts@.len() == flowv.len(),
            s2i(crossouts@) == ctx_crossouts(v, wi, hi),
            forall|jj: int| 0 <= jj < crossouts@.len() ==> -MAX_UNIT <= #[trigger] crossouts@[jj] <= MAX_UNIT,
            wrapping == ctx_wrapping(v),
            inner_cross as int == ctx_inner_cross(v, wi, hi),
            0 <= inner_cross <= MAX_UNIT,
            raw@.len() == l1,
            forall|ll: int| 0 <= ll < l1 ==> #[trigger] raw@[ll] as int == rawv[ll],
            forall|ll: int| 0 <= ll < l1 ==> 0 <= #[trigger] raw@[ll] <= MAX_UNIT,
        decreases lcount - l1,
    {
        let x: i64 = if !wrapping {
            inner_cross
        } else {
            let s: usize = bks[l1];
            let e: usize = if l1 + 1 < bks.len() {
                bks[l1 + 1]
            } else {
                crossouts.len()
            };
            seg_max_u(&crossouts, s, e)
        };
        proof {
            if wrapping {
                assert forall|jj: int| 0 <= jj < ctx_crossouts(v, wi, hi).len() implies -MAX_UNIT <= #[trigger] ctx_crossouts(v, wi, hi)[jj] <= MAX_UNIT by {
                    assert(ctx_crossouts(v, wi, hi)[jj] == s2i(crossouts@)[jj]);
                }
                lemma_seg_max_range(ctx_crossouts(v, wi, hi), line_start(bksv, l1 as int), line_end(bksv, flowv.len() as int, l1 as int));
            }
        }
        raw.push(x);
        l1 = l1 + 1;
    }
    let total_raw: i64 = cum_x(&raw, cgap, raw.len());
    let extra: i64 = sub_u(inner_cross, total_raw);
    let stretch: bool = t.style.align_content == AlignContent::Stretch && extra > 0 && wrapping;
    let mut exts: Vec<i64> = Vec::new();
    let ghost extsv = ctx_exts(v, wi, hi);
    proof {
        assert(s2i(raw@) =~= rawv);
        assert(extra as int == bsub(
            ctx_inner_cross(v, wi, hi),
            cum_with_gap(rawv, crate::model::cross_gap(v.style, is_row(v.style.direction)), rawv.len() as int),
        ));
    }
    let mut l2: usize = 0;
    while l2 < lcount
        invariant
            l2 <= lcount,
            lcount == raw@.len(),
            lcount == bksv.len(),
            lcount <= MAX_CHILDREN,
            rawv == ctx_raw_exts(v, wi, hi),
            extsv == ctx_exts(v, wi, hi),
            forall|ll: int| 0 <= ll < raw@.len() ==> #[trigger] raw@[ll] as int == rawv[ll],
            forall|ll: int| 0 <= ll < raw@.len() ==> 0 <= #[trigger] raw@[ll] <= MAX_UNIT,
            rawv.len() == lcount,
            stretch == (v.style.align_content == AlignContent::Stretch && extra > 0 && ctx_wrapping(v)),
            extra as int == bsub(
                ctx_inner_cross(v, wi, hi),
                cum_with_gap(rawv, crate::model::cross_gap(v.style, is_row(v.style.direction)), rawv.len() as int),
            ),
            -MAX_UNIT <= extra <= MAX_UNIT,
            exts@.len() == l2,
            forall|ll: int| 0 <= ll < l2 ==> #[trigger] exts@[ll] as int == extsv[ll],
            forall|ll: int| 0 <= ll < l2 ==> -MAX_UNIT <= #[trigger] exts@[ll] <= MAX_UNIT,
        decreases lcount - l2,
    {
        let x: i64 = if stretch {
            add_u(raw[l2], sub_u(mul_div_u(extra, (l2 + 1) as i64, lcount as i64), mul_div_u(extra, l2 as i64, lcount as i64)))
        } else {
            raw[l2]
        };
        exts.push(x);
        l2 = l2 + 1;
    }
    // Line origins on the cross axis.
    let mut placed_exts: Vec<i64> = Vec::new();
    let ghost placedv = ctx_placed_exts(v, wi, hi);
    let mut l3: usize = 0;
    while l3 < lcount
        invariant
            l3 <= lcount,
            lcount == exts@.len(),
            extsv == ctx_exts(v, wi, hi),
            placedv == ctx_placed_exts(v, wi, hi),
            extsv.len() == lcount,
            wrev == ctx_wrev(v),
            forall|ll: int| 0 <= ll < exts@.len() ==> #[trigger] exts@[ll] as int == extsv[ll],
            forall|ll: int| 0 <= ll < exts@.len() ==> -MAX_UNIT <= #[trigger] exts@[ll] <= MAX_UNIT,
            placed_exts@.len() == l3,
            forall|ll: int| 0 <= ll < l3 ==> #[trigger] placed_exts@[ll] as int == placedv[ll],
            forall|ll: int| 0 <= ll < l3 ==> -MAX_UNIT <= #[trigger] placed_exts@[ll] <= MAX_UNIT,
        decreases lcount - l3,
    {
        let idx: usize = if wrev {
            lcount - 1 - l3
        } else {
            l3
        };
        placed_exts.push(exts[idx]);
        l3 = l3 + 1;
    }
    let free_c: i64 = sub_u(inner_cross, cum_x(&placed_exts, cgap, placed_exts.len()));
    proof {
        assert(s2i(placed_exts@) =~= placedv);
        assert(free_c as int == ctx_free_c(v, wi, hi));
    }
    let mut liney: Vec<i64> = Vec::new();
    let ghost lineyv = ctx_liney(v, wi, hi);
    let mut l4: usize = 0;
    while l4 < lcount
        invariant
            l4 <= lcount,
            lcount == placed_exts@.len(),
            lcount <= MAX_CHILDREN,
            placedv == ctx_placed_exts(v, wi, hi),
            lineyv == ctx_liney(v, wi, hi),
            placedv.len() == lcount,
            wrev == ctx_wrev(v),
            cgap == crate::model::cross_gap(v.style, is_row(v.style.direction)),
            forall|ll: int| 0 <= ll < placed_exts@.len() ==> #[trigger] placed_exts@[ll] as int == placedv[ll],
            s2i(placed_exts@) == placedv,
            free_c as int == ctx_free_c(v, wi, hi),
            -MAX_UNIT <= free_c <= MAX_UNIT,
            liney@.len() == l4,
            forall|ll: int| 0 <= ll < l4 ==> #[trigger] liney@[ll] as int == lineyv[ll],
            v == rt_view(*t),
        decreases lcount - l4,
    {
        let sl: usize = if wrev {
            lcount - 1 - l4
        } else {
            l4
        };
        let y: i64 = add_u(align_content_x(t.style.align_content, free_c, sl, lcount), cum_x(&placed_exts, cgap, sl));
        liney.push(y);
        l4 = l4 + 1;
    }
    // Place each child, in the caller's order.
    let mut res: Vec<LayoutNodeResult> = Vec::new();
    let mut fi: usize = 0;
    let mut i: usize = 0;
    while i < t.children.len()
        invariant
            i <= t.children@.len(),
            v == rt_view(*t),
            wi == w as int,
            hi == h as int,
            tree_wf(v),
            arity_wf(v),
            v.children.len() == t.children@.len(),
            flowv == ctx_flow(v),
            fi as int == flow_pos(v, i as int),
            fi <= flowv.len(),
            flowv.len() <= MAX_CHILDREN,
            bksv == ctx_bks(v, wi, hi),
            hypsv == ctx_hyps(v, wi, hi),
            msizesv == ctx_msizes(v, wi, hi),
            extsv == ctx_exts(v, wi, hi),
            lineyv == ctx_liney(v, wi, hi),
            bks@.len() == bksv.len(),
            forall|ll: int| 0 <= ll < bks@.len() ==> #[trigger] bks@[ll] as int == bksv[ll],
            forall|ll: int| 0 <= ll < bksv.len() ==> 0 <= #[trigger] bksv[ll] < flowv.len(),
            forall|l1x: int, l2x: int| 0 <= l1x < l2x < bksv.len() ==> #[trigger] bksv[l1x] < #[trigger] bksv[l2x],
            bksv.len() >= 1 ==> bksv[0] == 0,
            bksv.len() <= flowv.len(),
            flowv.len() > 0 ==> bksv.len() >= 1,
            hyps@.len() == flowv.len(),
            hyp_ranges(hyps@),
            hyps_abs(hyps@) == hypsv,
            msizes@.len() == flowv.len(),
            forall|ff: int| 0 <= ff < msizes@.len() ==> #[trigger] msizes@[ff] as int == msizesv[ff],
            forall|ff: int| 0 <= ff < msizes@.len() ==> 0 <= #[trigger] msizes@[ff] <= MAX_UNIT,
            exts@.len() == bksv.len(),
            forall|ll: int| 0 <= ll < exts@.len() ==> #[trigger] exts@[ll] as int == extsv[ll],
            liney@.len() == bksv.len(),
            forall|ll: int| 0 <= ll < liney@.len() ==> #[trigger] liney@[ll] as int == lineyv[ll],
            row == is_row(v.style.direction),
            rev == is_reverse(v.style.direction),
            cw as int == ctx_cw(v, wi),
            ch as int == ctx_ch(v, hi),
            0 <= cw <= MAX_UNIT,
            0 <= ch <= MAX_UNIT,
            inner_main as int == ctx_inner_main(v, wi, hi),
            -MAX_UNIT <= inner_main <= MAX_UNIT,
            mgap == crate::model::main_gap(v.style, is_row(v.style.direction)),
            0 <= mgap <= MAX_UNIT,
            res@.len() == i,
            forall|ii: int| 0 <= ii < i ==> res_view(#[trigger] res@[ii]) == child_geom(v, wi, hi, ii),
        decreases t.children@.len() - i,
    {
        proof {
            lemma_rt_index(*t, i as int);
            lemma_rt_child_wf(*t, i as int);
            lemma_arity_wf_kid(v, v.children.len() as int, i as int);
        }
        let absolute: bool = t.children[i].style.position == Position::Absolute;
        let node: LayoutNodeResult;
        if absolute {
            proof {
                assert(inflow_idxs(v, (i + 1) as int) =~= inflow_idxs(v, i as int));
                lemma_inflow_mono(v, (i + 1) as int, v.children.len() as int);
            }
            node = abs_child_x(t, i, w, h, cw, ch);
        } else {
            proof {
                assert(inflow_idxs(v, (i + 1) as int) =~= inflow_idxs(v, i as int).push(i as int));
                lemma_inflow_mono(v, (i + 1) as int, v.children.len() as int);
            }
            node = flow_child_x(t, i, fi, w, h, &hyps, &msizes, &exts, &liney, &bks, row, rev, inner_main, mgap);
            fi = fi + 1;
        }
        res.push(node);
        i = i + 1;
    }
    res
}

/// In-flow prefixes only grow.
proof fn lemma_inflow_mono(n: crate::model::RNode, k1: int, k2: int)
    requires
        0 <= k1 <= k2,
        k2 <= n.children.len(),
    ensures
        inflow_idxs(n, k1).len() <= inflow_idxs(n, k2).len(),
    decreases k2,
{
    if k2 > k1 {
        lemma_inflow_mono(n, k1, k2 - 1);
    }
}

/// The extent of a segment is bounded by the values' bound.
proof fn lemma_seg_max_range(vals: Seq<int>, s: int, e: int)
    requires
        forall|j: int| 0 <= j < vals.len() ==> -MAX_UNIT <= #[trigger] vals[j] <= MAX_UNIT,
    ensures
        0 <= crate::model::seg_max(vals, s, e) <= MAX_UNIT,
    decreases e - s,
{
    if e > s && s >= 0 && e <= vals.len() {
        lemma_seg_max_range(vals, s, e - 1);
    }
}

/// The geometry of one absolutely positioned child.
#[verifier::rlimit(80)]
fn abs_child_x(t: &RTree, i: usize, w: i64, h: i64, cw: i64, ch: i64) -> (r: LayoutNodeResult)
    requires
        tree_wf(rt_view(*t)),
        arity_wf(rt_view(*t)),
        i < t.children@.len(),
        is_abs(rt_view(*t).children[i as int].style),
        cw as int == ctx_cw(rt_view(*t), w as int),
        ch as int == ctx_ch(rt_view(*t), h as int),
        0 <= cw <= MAX_UNIT,
        0 <= ch <= MAX_UNIT,
    ensures
        res_view(r) == child_geom(rt_view(*t), w as int, h as int, i as int),
    decreases *t, 12int, 0int,
{
    let ghost v = rt_view(*t);
    proof {
        lemma_rt_index(*t, i as int);
        lemma_rt_child_wf(*t, i as int);
        lemma_arity_wf_kid(v, v.children.len() as int, i as int);
    }
    let c = &t.children[i];
    let ghost cv = v.children[i as int];
    proof {
        assert(cv.style == c.style);
        assert(style_wf(c.style));
    }
    let wc: i64 = match c.style.width {
        Some(vv) => {
            proof {
                crate::units::lemma_final_size_range(vv as int, c.style.min_width, c.style.max_width);
            }
            final_size_u(vv, c.style.min_width, c.style.max_width)
        },
        None => {
            match (c.style.inset_left, c.style.inset_right) {
                (Some(il), Some(ir)) => {
                    proof {
                        crate::units::lemma_final_size_range(
                            bsub(bsub(cw as int, il as int), ir as int),
                            c.style.min_width,
                            c.style.max_width,
                        );
                    }
                    final_size_u(sub_u(sub_u(cw, il), ir), c.style.min_width, c.style.max_width)
                },
                _ => {
                    let m = measure_x(c, Some(cw), Some(ch));
                    m.0
                },
            }
        },
    };
    let hc: i64 = match c.style.height {
        Some(vv) => {
            proof {
                crate::units::lemma_final_size_range(vv as int, c.style.min_height, c.style.max_height);
            }
            final_size_u(vv, c.style.min_height, c.style.max_height)
        },
        None => {
            match (c.style.inset_top, c.style.inset_bottom) {
                (Some(it), Some(ib)) => {
                    proof {
                        crate::units::lemma_final_size_range(
                            bsub(bsub(ch as int, it as int), ib as int),
                            c.style.min_height,
                            c.style.max_height,
                        );
                    }
                    final_size_u(sub_u(sub_u(ch, it), ib), c.style.min_height, c.style.max_height)
                },
                _ => {
                    let m = measure_x(c, Some(cw), Some(ch));
                    m.1
                },
            }
        },
    };
    let xc: i64 = match c.style.inset_left {
        Some(l) => l,
        None => match c.style.inset_right {
            Some(rr) => sub_u(sub_u(cw, rr), wc),
            None => 0,
        },
    };
    let yc: i64 = match c.style.inset_top {
        Some(tt) => tt,
        None => match c.style.inset_bottom {
            Some(b) => sub_u(sub_u(ch, b), hc),
            None => 0,
        },
    };
    let kids: Vec<LayoutNodeResult> = place_x(c, wc, hc);
    let r = LayoutNodeResult {
        id: c.token,
        layout: LayoutResult { x: xc, y: yc, width: wc, height: hc },
        children: kids,
    };
    proof {
        crate::engine::lemma_rt_kids_len(t.children@[i as int], t.children@[i as int].children@.len() as int);
        assert(cv.children.len() == t.children@[i as int].children@.len());
        lemma_res_kids_eq(r, cv, wc as int, hc as int, r.children@.len() as int);
        assert(res_view(r) == child_geom(v, w as int, h as int, i as int));
    }
    r
}

/// The geometry of one in-flow child.
#[verifier::rlimit(100)]
fn flow_child_x(
    t: &RTree,
    i: usize,
    fi: usize,
    w: i64,
    h: i64,
    hyps: &Vec<HypE>,
    msizes: &Vec<i64>,
    exts: &Vec<i64>,
    liney: &Vec<i64>,
    bks: &Vec<usize>,
    row: bool,
    rev: bool,
    inner_main: i64,
    mgap: i64,
) -> (r: LayoutNodeResult)
    requires
        tree_wf(rt_view(*t)),
        arity_wf(rt_view(*t)),
        i < t.children@.len(),
        !is_abs(rt_view(*t).children[i as int].style),
        fi as int == flow_pos(rt_view(*t), i as int),
        fi < ctx_flow(rt_view(*t)).len(),
        ctx_flow(rt_view(*t)).len() <= MAX_CHILDREN,
        hyps@.len() == ctx_flow(rt_view(*t)).len(),
        hyps_abs(hyps@) == ctx_hyps(rt_view(*t), w as int, h as int),
        hyp_ranges(hyps@),
        msizes@.len() == ctx_flow(rt_view(*t)).len(),
        forall|ff: int|
            0 <= ff < msizes@.len() ==> #[trigger] msizes@[ff] as int == ctx_msizes(rt_view(*t), w as int, h as int)[ff],
        forall|ff: int| 0 <= ff < msizes@.len() ==> 0 <= #[trigger] msizes@[ff] <= MAX_UNIT,
        bks@.len() == ctx_bks(rt_view(*t), w as int, h as int).len(),
        forall|ll: int|
            0 <= ll < bks@.len() ==> #[trigger] bks@[ll] as int == ctx_bks(rt_view(*t), w as int, h as int)[ll],
        forall|ll: int|
            0 <= ll < bks@.len() ==> 0 <= #[trigger] ctx_bks(rt_view(*t), w as int, h as int)[ll] < ctx_flow(
                rt_view(*t),
            ).len(),
        forall|l1x: int, l2x: int|
            0 <= l1x < l2x < bks@.len() ==> #[trigger] ctx_bks(rt_view(*t), w as int, h as int)[l1x]
                < #[trigger] ctx_bks(rt_view(*t), w as int, h as int)[l2x],
        bks@.len() >= 1,
        ctx_bks(rt_view(*t), w as int, h as int)[0] == 0,
        exts@.len() == bks@.len(),
        forall|ll: int|
            0 <= ll < exts@.len() ==> #[trigger] exts@[ll] as int == ctx_exts(rt_view(*t), w as int, h as int)[ll],
        liney@.len() == bks@.len(),
        forall|ll: int|
            0 <= ll < liney@.len() ==> #[trigger] liney@[ll] as int == ctx_liney(rt_view(*t), w as int, h as int)[ll],
        row == is_row(rt_view(*t).style.direction),
        rev == is_reverse(rt_view(*t).style.direction),
        inner_main as int == ctx_inner_main(rt_view(*t), w as int, h as int),
        -MAX_UNIT <= inner_main <= MAX_UNIT,
        mgap == crate::model::main_gap(rt_view(*t).style, row),
        0 <= mgap <= MAX_UNIT,
    ensures
        res_view(r) == child_geom(rt_view(*t), w as int, h as int, i as int),
    decreases *t, 12int, 0int,
{
    let ghost v = rt_view(*t);
    let ghost wi = w as int;
    let ghost hi = h as int;
    let ghost bksv = ctx_bks(v, wi, hi);
    proof {
        lemma_rt_index(*t, i as int);
        lemma_rt_child_wf(*t, i as int);
        lemma_arity_wf_kid(v, v.children.len() as int, i as int);
    }
    let c = &t.children[i];
    let ghost cv = v.children[i as int];
    proof {
        assert(cv.style == c.style);
        assert(style_wf(c.style));
        assert(style_wf(v.style));
    }
    // Find the child's line.
    let bl: usize = bks.len();
    let mut l: usize = 0;
    while l + 1 < bl && bks[l + 1] <= fi
        invariant
            l < bl,
            bl == bks@.len(),
            bks@.len() == bksv.len(),
            forall|ll: int| 0 <= ll < bks@.len() ==> #[trigger] bks@[ll] as int == bksv[ll],
            bksv[0] == 0,
            bks@[l as int] <= fi,
        decreases bks@.len() - l,
    {
        l = l + 1;
    }
    proof {
        lemma_line_of_bracket(bksv, fi as int, l as int);
        assert(line_of(bksv, fi as int) == l as int);
    }
    let s: usize = bks[l];
    let e: usize = if l + 1 < bks.len() {
        bks[l + 1]
    } else {
        msizes.len()
    };
    proof {
        assert(s as int == line_start(bksv, l as int));
        assert(e as int == line_end(bksv, ctx_flow(v).len() as int, l as int));
        assert(s <= fi < e);
    }
    let k: usize = e - s;
    // Outer final sizes of the line, in placement order.
    let ghost lov = Seq::new(
        (e - s) as nat,
        |j: int| badd(
            ctx_msizes(v, wi, hi)[s + j],
            bsub(ctx_hyps(v, wi, hi)[s + j].outer_main, ctx_hyps(v, wi, hi)[s + j].main),
        ),
    );
    let mut lo: Vec<i64> = Vec::new();
    let mut j: usize = 0;
    while j < k
        invariant
            j <= k,
            k == e - s,
            s + k <= msizes@.len(),
            msizes@.len() == ctx_flow(v).len(),
            hyps@.len() == ctx_flow(v).len(),
            hyps_abs(hyps@) == ctx_hyps(v, wi, hi),
            hyp_ranges(hyps@),
            forall|ff: int| 0 <= ff < msizes@.len() ==> #[trigger] msizes@[ff] as int == ctx_msizes(v, wi, hi)[ff],
            lov == Seq::new(
                (e - s) as nat,
                |jx: int| badd(
                    ctx_msizes(v, wi, hi)[s + jx],
                    bsub(ctx_hyps(v, wi, hi)[s + jx].outer_main, ctx_hyps(v, wi, hi)[s + jx].main),
                ),
            ),
            lo@.len() == j,
            forall|jj: int| 0 <= jj < j ==> #[trigger] lo@[jj] as int == lov[jj],
            forall|jj: int| 0 <= jj < j ==> -MAX_UNIT <= #[trigger] lo@[jj] <= MAX_UNIT,
        decreases k - j,
    {
        let idx: usize = s + j;
        let x: i64 = add_u(msizes[idx], sub_u(hyps[idx].outer_main, hyps[idx].main));
        lo.push(x);
        j = j + 1;
    }
    let mut placed_lo: Vec<i64> = Vec::new();
    let ghost placed_lov = Seq::new((e - s) as nat, |sl: int| lov[slot_of(sl, (e - s) as int, rev)]);
    let mut j2: usize = 0;
    while j2 < k
        invariant
            j2 <= k,
            k == e - s,
            lo@.len() == k,
            lov.len() == k,
            forall|jj: int| 0 <= jj < k ==> #[trigger] lo@[jj] as int == lov[jj],
            forall|jj: int| 0 <= jj < k ==> -MAX_UNIT <= #[trigger] lo@[jj] <= MAX_UNIT,
            placed_lov == Seq::new((e - s) as nat, |sl: int| lov[slot_of(sl, (e - s) as int, rev)]),
            placed_lo@.len() == j2,
            forall|jj: int| 0 <= jj < j2 ==> #[trigger] placed_lo@[jj] as int == placed_lov[jj],
            forall|jj: int| 0 <= jj < j2 ==> -MAX_UNIT <= #[trigger] placed_lo@[jj] <= MAX_UNIT,
        decreases k - j2,
    {
        let idx: usize = if rev {
            k - 1 - j2
        } else {
            j2
        };
        placed_lo.push(lo[idx]);
        j2 = j2 + 1;
    }
    proof {
        assert(s2i(placed_lo@) =~= placed_lov);
    }
    let free_m: i64 = sub_u(inner_main, cum_x(&placed_lo, mgap, placed_lo.len()));
    let slot: usize = if rev {
        k - 1 - (fi - s)
    } else {
        fi - s
    };
    let xm: i64 = add_u(
        add_u(
            justify_x(t.style.justify_content, free_m, slot, k),
            cum_x(&placed_lo, mgap, slot),
        ),
        if row {
            c.style.margin_left
        } else {
            c.style.margin_top
        },
    );
    let msize: i64 = msizes[fi];
    let ext: i64 = exts[l];
    let eff: AlignSelf = match c.style.align_self {
        Some(a) => a,
        None => match t.style.align_items {
            crate::style::AlignItems::Start => AlignSelf::Start,
            crate::style::AlignItems::End => AlignSelf::End,
            crate::style::AlignItems::Center => AlignSelf::Center,
            crate::style::AlignItems::Baseline => AlignSelf::Baseline,
            crate::style::AlignItems::Stretch => AlignSelf::Stretch,
        },
    };
    let mct: i64 = margin_cross_total_u(&c.style, row);
    let stretch_this: bool = eff == AlignSelf::Stretch && !hyps[fi].cross_explicit;
    let csize: i64 = if stretch_this {
        let cmn: Option<i64> = if row {
            c.style.min_height
        } else {
            c.style.min_width
        };
        let cmx: Option<i64> = if row {
            c.style.max_height
        } else {
            c.style.max_width
        };
        proof {
            crate::units::lemma_final_size_range(bsub(ext as int, mct as int), cmn, cmx);
        }
        final_size_u(sub_u(ext, mct), cmn, cmx)
    } else {
        hyps[fi].cross
    };
    let inner_c: i64 = sub_u(ext, add_u(csize, mct));
    let lead: i64 = if inner_c <= 0 {
        0
    } else {
        match eff {
            AlignSelf::End => inner_c,
            AlignSelf::Center => half_u(inner_c),
            _ => 0,
        }
    };
    let ycr: i64 = add_u(add_u(liney[l], lead), if row {
        c.style.margin_top
    } else {
        c.style.margin_left
    });
    let wd: i64 = if row {
        max0_u(msize)
    } else {
        max0_u(csize)
    };
    let ht: i64 = if row {
        max0_u(csize)
    } else {
        max0_u(msize)
    };
    let xx: i64 = if row {
        xm
    } else {
        ycr
    };
    let yy: i64 = if row {
        ycr
    } else {
        xm
    };
    let kids: Vec<LayoutNodeResult> = place_x(c, wd, ht);
    let r = LayoutNodeResult {
        id: c.token,
        layout: LayoutResult { x: xx, y: yy, width: wd, height: ht },
        children: kids,
    };
    proof {
        crate::engine::lemma_rt_kids_len(t.children@[i as int], t.children@[i as int].children@.len() as int);
        assert(cv.children.len() == t.children@[i as int].children@.len());
        lemma_res_kids_eq(r, cv, wd as int, ht as int, r.children@.len() as int);
        assert(res_view(r) == child_geom(v, wi, hi, i as int));
    }
    r
}

} // verus!

//! The mathematical model of the layout algorithm.
//!
//! Everything here is specification: a resolved style tree (`RNode`) is
//! mapped to a geometry tree (`GNode`) by `layout_root`, which pins down the
//! result of the executable solver exactly. The model mirrors the flexible
//! box algorithm: hypothetical main sizes (flex basis), greedy line
//! formation under wrapping, iterative grow/shrink distribution with min/max
//! clamping and redistribution, justification and alignment by closed-form
//! integer apportionment, and absolute positioning against the containing
//! node's content box.
//!
//! All output coordinates are relative to the parent's content-box origin;
//! the root sits at (0, 0). All arithmetic is over integers saturating at
//! `MAX_UNIT`, and every intermediate value stays representable.

use vstd::prelude::*;

use crate::style::AlignContent;
use crate::style::AlignItems;
use crate::style::AlignSelf;
use crate::style::FlexDirection;
use crate::style::FlexWrap;
use crate::style::JustifyContent;
use crate::style::Position;
use crate::style::ResolvedStyle;
use crate::style::style_wf;
use crate::units::bounded;
use crate::units::clamp_mm;
use crate::units::final_size;
use crate::units::max0;

verus! {

/// A style-resolved layout tree.
pub ghost struct RNode {
    pub token: u32,
    pub style: ResolvedStyle,
    pub children: Seq<RNode>,
}

/// A geometry tree: for every node a position relative to its parent's
/// content box and a border-box size, in the same shape as the input tree.
pub ghost struct GNode {
    pub token: u32,
    pub x: int,
    pub y: int,
    pub w: int,
    pub h: int,
    pub children: Seq<GNode>,
}

/// Saturating integer helpers shared with the executable arithmetic.
pub open spec fn badd(a: int, b: int) -> int {
    bounded(a + b)
}

pub open spec fn bsub(a: int, b: int) -> int {
    bounded(a - b)
}

pub open spec fn bmul(a: int, b: int) -> int {
    bounded(a * b)
}

pub open spec fn bmuldiv(a: int, b: int, d: int) -> int {
    if d > 0 {
        bounded((a * b) / d)
    } else {
        0
    }
}

// ----------------------------------------------------------------------
// Axis helpers
// ----------------------------------------------------------------------

pub open spec fn is_row(d: FlexDirection) -> bool {
    d == FlexDirection::Row || d == FlexDirection::RowReverse
}

pub open spec fn is_reverse(d: FlexDirection) -> bool {
    d == FlexDirection::RowReverse || d == FlexDirection::ColumnReverse
}

pub open spec fn main_size_opt(st: ResolvedStyle, row: bool) -> Option<i64> {
    if row {
        st.width
    } else {
        st.height
    }
}

pub open spec fn cross_size_opt(st: ResolvedStyle, row: bool) -> Option<i64> {
    if row {
        st.height
    } else {
        st.width
    }
}

pub open spec fn main_min(st: ResolvedStyle, row: bool) -> Option<i64> {
    if row {
        st.min_width
    } else {
        st.min_height
    }
}

pub open spec fn main_max(st: ResolvedStyle, row: bool) -> Option<i64> {
    if row {
        st.max_width
    } else {
        st.max_height
    }
}

pub open spec fn cross_min(st: ResolvedStyle, row: bool) -> Option<i64> {
    if row {
        st.min_height
    } else {
        st.min_width
    }
}

pub open spec fn cross_max(st: ResolvedStyle, row: bool) -> Option<i64> {
    if row {
        st.max_height
    } else {
        st.max_width
    }
}

/// The gap between items along the main axis.
pub open spec fn main_gap(st: ResolvedStyle, row: bool) -> i64 {
    if row {
        st.column_gap
    } else {
        st.row_gap
    }
}

/// The gap between lines along the cross axis.
pub open spec fn cross_gap(st: ResolvedStyle, row: bool) -> i64 {
    if row {
        st.row_gap
    } else {
        st.column_gap
    }
}

/// Padding plus border on both main-axis edges.
pub open spec fn pb_main_total(st: ResolvedStyle, row: bool) -> int {
    if row {
        st.padding_left + st.border_left + st.padding_right + st.border_right
    } else {
        st.padding_top + st.border_top + st.padding_bottom + st.border_bottom
    }
}

pub open spec fn pb_cross_total(st: ResolvedStyle, row: bool) -> int {
    if row {
        st.padding_top + st.border_top + st.padding_bottom + st.border_bottom
    } else {
        st.padding_left + st.border_left + st.padding_right + st.border_right
    }
}

pub open spec fn pb_w_total(st: ResolvedStyle) -> int {
    st.padding_left + st.border_left + st.padding_right + st.border_right
}

pub open spec fn pb_h_total(st: ResolvedStyle) -> int {
    st.padding_top + st.border_top + st.padding_bottom + st.border_bottom
}

pub open spec fn margin_main_lead(st: ResolvedStyle, row: bool) -> i64 {
    if row {
        st.margin_left
    } else {
        st.margin_top
    }
}

pub open spec fn margin_main_total(st: ResolvedStyle, row: bool) -> int {
    if row {
        st.margin_left + st.margin_right
    } else {
        st.margin_top + st.margin_bottom
    }
}

pub open spec fn margin_cross_lead(st: ResolvedStyle, row: bool) -> i64 {
    if row {
        st.margin_top
    } else {
        st.margin_left
    }
}

pub open spec fn margin_cross_total(st: ResolvedStyle, row: bool) -> int {
    if row {
        st.margin_top + st.margin_bottom
    } else {
        st.margin_left + st.margin_right
    }
}

pub open spec fn is_abs(st: ResolvedStyle) -> bool {
    st.position == Position::Absolute
}

/// The effective cross-axis alignment of one child inside its container.
pub open spec fn eff_align(child: ResolvedStyle, parent: ResolvedStyle) -> AlignSelf {
    match child.align_self {
        Some(a) => a,
        None => match parent.align_items {
            AlignItems::Start => AlignSelf::Start,
            AlignItems::End => AlignSelf::End,
            AlignItems::Center => AlignSelf::Center,
            AlignItems::Baseline => AlignSelf::Baseline,
            AlignItems::Stretch => AlignSelf::Stretch,
        },
    }
}

// ----------------------------------------------------------------------
// Well-formedness of a resolved tree
// ----------------------------------------------------------------------

/// The widest single node the engine accepts.
pub const MAX_CHILDREN: usize = 0x10_0000;

/// Every node in the tree respects the arity bound.
pub open spec fn arity_wf(n: RNode) -> bool
    decreases n, 1int, 0int,
{
    n.children.len() <= MAX_CHILDREN && arity_wf_kids(n, n.children.len() as int)
}

pub open spec fn arity_wf_kids(n: RNode, k: int) -> bool
    decreases n, 0int, k,
{
    if k <= 0 || k > n.children.len() {
        true
    } else {
        arity_wf_kids(n, k - 1) && arity_wf(n.children[k - 1])
    }
}

pub proof fn lemma_arity_wf_kid(n: RNode, k: int, i: int)
    requires
        arity_wf_kids(n, k),
        0 <= i < k,
        k <= n.children.len(),
    ensures
        arity_wf(n.children[i]),
    decreases k,
{
    if i < k - 1 {
        lemma_arity_wf_kid(n, k - 1, i);
    }
}

pub open spec fn tree_wf(n: RNode) -> bool
    decreases n, 1int, 0int,
{
    style_wf(n.style) && tree_wf_kids(n, n.children.len() as int)
}

pub open spec fn tree_wf_kids(n: RNode, k: int) -> bool
    decreases n, 0int, k,
{
    if k <= 0 || k > n.children.len() {
        true
    } else {
        tree_wf_kids(n, k - 1) && tree_wf(n.children[k - 1])
    }
}

pub proof fn lemma_tree_wf_kid(n: RNode, k: int, i: int)
    requires
        tree_wf_kids(n, k),
        0 <= i < k,
        k <= n.children.len(),
    ensures
        tree_wf(n.children[i]),
    decreases k,
{
    if i < k - 1 {
        lemma_tree_wf_kid(n, k - 1, i);
    }
}

// ----------------------------------------------------------------------
// Per-child hypothetical sizes
// ----------------------------------------------------------------------

/// What is known of an in-flow child before free space is distributed.
pub ghost struct ChildHyp {
    /// Index among the parent's children.
    pub idx: int,
    /// Hypothetical main-axis border-box size: the clamped flex basis.
    pub main: int,
    /// Hypothetical cross-axis border-box size.
    pub cross: int,
    /// `main` plus both main-axis margins.
    pub outer_main: int,
    /// `cross` plus both cross-axis margins.
    pub outer_cross: int,
    /// Whether the child has an explicit cross-axis size.
    pub cross_explicit: bool,
}

/// In-flow (non-absolute) child indices among the first `k` children.
pub open spec fn inflow_idxs(n: RNode, k: int) -> Seq<int>
    decreases k,
{
    if k <= 0 || k > n.children.len() {
        Seq::empty()
    } else {
        let p = inflow_idxs(n, k - 1);
        if !is_abs(n.children[k - 1].style) {
            p.push(k - 1)
        } else {
            p
        }
    }
}

/// The hypothetical sizes of one in-flow child. The main basis is the
/// explicit flex basis, else the explicit main size, else the child's own
/// content-based main extent measured with the main axis unconstrained; the
/// cross hypothetical is the explicit cross size, else the content-based
/// cross extent measured at the hypothetical main size.
pub open spec fn child_hyp(c: RNode, idx: int, row: bool, cavail: Option<int>) -> ChildHyp
    decreases c, 10int, 0int,
{
    let basis_raw: int = match c.style.flex_basis {
        Some(b) => b as int,
        None => match main_size_opt(c.style, row) {
            Some(m) => m as int,
            None => {
                let m = measure(
                    c,
                    if row {
                        Option::<int>::None
                    } else {
                        cavail
                    },
                    if row {
                        cavail
                    } else {
                        Option::<int>::None
                    },
                );
                if row {
                    m.0
                } else {
                    m.1
                }
            },
        },
    };
    let main = final_size(basis_raw, main_min(c.style, row), main_max(c.style, row));
    let cross: int = match cross_size_opt(c.style, row) {
        Some(cv) => final_size(cv as int, cross_min(c.style, row), cross_max(c.style, row)),
        None => {
            let m = measure(
                c,
                if row {
                    Option::<int>::Some(main)
                } else {
                    cavail
                },
                if row {
                    cavail
                } else {
                    Option::<int>::Some(main)
                },
            );
            if row {
                m.1
            } else {
                m.0
            }
        },
    };
    ChildHyp {
        idx: idx,
        main: main,
        cross: cross,
        outer_main: badd(main, margin_main_total(c.style, row)),
        outer_cross: badd(cross, margin_cross_total(c.style, row)),
        cross_explicit: cross_size_opt(c.style, row) is Some,
    }
}

/// The hypothetical sizes of the first `k` in-flow children.
pub open spec fn hyp_seq(n: RNode, flow: Seq<int>, cavail: Option<int>, k: int) -> Seq<ChildHyp>
    decreases n, 5int, k,
{
    if k <= 0 || k > flow.len() {
        Seq::empty()
    } else {
        let p = hyp_seq(n, flow, cavail, k - 1);
        let i = flow[k - 1];
        if 0 <= i < n.children.len() {
            p.push(child_hyp(n.children[i], i, is_row(n.style.direction), cavail))
        } else {
            p
        }
    }
}

// ----------------------------------------------------------------------
// Line formation
// ----------------------------------------------------------------------

/// Outer sizes of a segment `[s, e)` of a line, gaps included.
pub open spec fn seg_used(outs: Seq<int>, s: int, e: int, gap: i64) -> int
    decreases e - s,
{
    if e <= s || s < 0 || e > outs.len() {
        0
    } else if e == s + 1 {
        outs[s]
    } else {
        badd(badd(seg_used(outs, s, e - 1, gap), gap as int), outs[e - 1])
    }
}

/// Greedy wrapping: the indices at which lines start, among the first `k`
/// items. An item opens a new line when adding it (plus a gap) would
/// overflow the available main space, unless the line is still empty.
pub open spec fn line_breaks(outs: Seq<int>, avail: Option<int>, gap: i64, wrapping: bool, k: int) -> Seq<int>
    decreases k,
{
    if k <= 0 || k > outs.len() {
        Seq::empty()
    } else if k == 1 {
        seq![0int]
    } else {
        let p = line_breaks(outs, avail, gap, wrapping, k - 1);
        let start = p.last();
        let would = badd(badd(seg_used(outs, start, k - 1, gap), gap as int), outs[k - 1]);
        if wrapping && avail is Some && would > avail->Some_0 {
            p.push(k - 1)
        } else {
            p
        }
    }
}

pub open spec fn line_start(bks: Seq<int>, l: int) -> int {
    bks[l]
}

pub open spec fn line_end(bks: Seq<int>, count: int, l: int) -> int {
    if l + 1 < bks.len() {
        bks[l + 1]
    } else {
        count
    }
}

/// Which line an in-flow item at position `fi` falls on.
pub open spec fn line_of(bks: Seq<int>, fi: int) -> int
    decreases bks.len(),
{
    if bks.len() <= 1 {
        0
    } else if bks.last() <= fi {
        bks.len() - 1
    } else {
        line_of(bks.drop_last(), fi)
    }
}

// ----------------------------------------------------------------------
// Free-space distribution within one line
// ----------------------------------------------------------------------

/// Per-item distribution state: resolved flag and current main size.
pub ghost struct DistItem {
    pub done: bool,
    pub size: int,
}

/// Sequential apportionment: hand out `free` in proportion to the weights,
/// processing items in declaration order, so that rounding never loses a
/// unit to a later item that could still take it.
pub open spec fn shares_upto(ws: Seq<int>, free: int, total: int, k: int) -> Seq<int>
    decreases k,
{
    if k <= 0 || k > ws.len() {
        Seq::empty()
    } else {
        let p = shares_upto(ws, free, total, k - 1);
        let rem_w = bsub(total, sum_prefix(ws, k - 1));
        let rem_f = bsub(free, sum_prefix(p, k - 1));
        let s = if ws[k - 1] > 0 && rem_w > 0 && rem_f > 0 {
            bmuldiv(rem_f, ws[k - 1], rem_w)
        } else {
            0
        };
        p.push(s)
    }
}

/// Saturating sum of the first `k` entries.
pub open spec fn sum_prefix(ws: Seq<int>, k: int) -> int
    decreases k,
{
    if k <= 0 || k > ws.len() {
        0
    } else {
        badd(sum_prefix(ws, k - 1), ws[k - 1])
    }
}

/// Main-axis space consumed by the current state of a line: sizes, margins
/// and the gaps between items.
pub open spec fn used_state(hyps: Seq<ChildHyp>, st: Seq<DistItem>, s: int, k: int, gap: i64) -> int
    decreases k,
{
    if k <= 0 || k > st.len() || s + k > hyps.len() || s < 0 {
        0
    } else {
        let item = badd(st[k - 1].size, bsub(hyps[s + k - 1].outer_main, hyps[s + k - 1].main));
        if k == 1 {
            item
        } else {
            badd(badd(used_state(hyps, st, s, k - 1, gap), gap as int), item)
        }
    }
}

/// The grow (or shrink) weight of each not-yet-resolved item.
pub open spec fn dist_weights(hyps: Seq<ChildHyp>, styles: Seq<ResolvedStyle>, st: Seq<DistItem>, s: int, growing: bool) -> Seq<int> {
    Seq::new(
        st.len(),
        |j: int| if st[j].done {
            0
        } else if growing {
            styles[s + j].flex_grow as int
        } else {
            bmul(styles[s + j].flex_shrink as int, st[j].size)
        },
    )
}

/// The free main-axis space a round distributes (negated when shrinking).
pub open spec fn round_amount(hyps: Seq<ChildHyp>, st: Seq<DistItem>, s: int, inner_main: int, gap: i64, growing: bool) -> int {
    let free = bsub(inner_main, used_state(hyps, st, s, st.len() as int, gap));
    if growing {
        free
    } else {
        -free
    }
}

/// The share handed to each item in one round.
pub open spec fn round_shares(hyps: Seq<ChildHyp>, styles: Seq<ResolvedStyle>, st: Seq<DistItem>, s: int, inner_main: int, gap: i64, growing: bool) -> Seq<int> {
    let ws = dist_weights(hyps, styles, st, s, growing);
    shares_upto(
        ws,
        round_amount(hyps, st, s, inner_main, gap, growing),
        sum_prefix(ws, ws.len() as int),
        ws.len() as int,
    )
}

/// The tentative size of item `j` after one round's apportionment.
pub open spec fn round_tent(hyps: Seq<ChildHyp>, styles: Seq<ResolvedStyle>, st: Seq<DistItem>, s: int, inner_main: int, gap: i64, growing: bool, j: int) -> int {
    let sh = round_shares(hyps, styles, st, s, inner_main, gap, growing);
    if st[j].done {
        st[j].size
    } else if growing {
        badd(st[j].size, sh[j])
    } else {
        max0(bsub(st[j].size, sh[j]))
    }
}

/// The tentative size of item `j`, clamped by its min/max.
pub open spec fn round_lim(hyps: Seq<ChildHyp>, styles: Seq<ResolvedStyle>, st: Seq<DistItem>, s: int, inner_main: int, gap: i64, growing: bool, row: bool, j: int) -> int {
    clamp_mm(
        round_tent(hyps, styles, st, s, inner_main, gap, growing, j),
        main_min(styles[s + j], row),
        main_max(styles[s + j], row),
    )
}

/// Whether any unresolved item violates its clamp this round.
pub open spec fn round_violated(hyps: Seq<ChildHyp>, styles: Seq<ResolvedStyle>, st: Seq<DistItem>, s: int, inner_main: int, gap: i64, growing: bool, row: bool) -> bool {
    exists|j: int|
        0 <= j < st.len() && !st[j].done && round_lim(hyps, styles, st, s, inner_main, gap, growing, row, j)
            != round_tent(hyps, styles, st, s, inner_main, gap, growing, j)
}

/// One round of distribution: apportion the line's free space over the
/// unresolved items; clamp any item that violates its min/max and mark it
/// resolved, keeping the others for redistribution; if none violates, the
/// tentative sizes become final.
pub open spec fn dist_round(hyps: Seq<ChildHyp>, styles: Seq<ResolvedStyle>, st: Seq<DistItem>, s: int, inner_main: int, gap: i64, growing: bool, row: bool) -> Seq<DistItem> {
    let amount = round_amount(hyps, st, s, inner_main, gap, growing);
    let ws = dist_weights(hyps, styles, st, s, growing);
    let total = sum_prefix(ws, ws.len() as int);
    if amount <= 0 || total <= 0 {
        st
    } else {
        Seq::new(
            st.len(),
            |j: int| if st[j].done {
                st[j]
            } else if round_violated(hyps, styles, st, s, inner_main, gap, growing, row) {
                if round_lim(hyps, styles, st, s, inner_main, gap, growing, row, j) != round_tent(
                    hyps,
                    styles,
                    st,
                    s,
                    inner_main,
                    gap,
                    growing,
                    j,
                ) {
                    DistItem {
                        done: true,
                        size: round_lim(hyps, styles, st, s, inner_main, gap, growing, row, j),
                    }
                } else {
                    st[j]
                }
            } else {
                DistItem { done: true, size: round_tent(hyps, styles, st, s, inner_main, gap, growing, j) }
            },
        )
    }
}

pub open spec fn dist_init(hyps: Seq<ChildHyp>, styles: Seq<ResolvedStyle>, s: int, e: int, growing: bool) -> Seq<DistItem> {
    Seq::new(
        (e - s) as nat,
        |j: int| DistItem {
            done: if growing {
                styles[s + j].flex_grow <= 0
            } else {
                styles[s + j].flex_shrink <= 0
            },
            size: hyps[s + j].main,
        },
    )
}

pub open spec fn dist_iter(hyps: Seq<ChildHyp>, styles: Seq<ResolvedStyle>, s: int, e: int, inner_main: int, gap: i64, growing: bool, row: bool, r: nat) -> Seq<DistItem>
    decreases r,
{
    if r == 0 {
        dist_init(hyps, styles, s, e, growing)
    } else {
        dist_round(
            hyps,
            styles,
            dist_iter(hyps, styles, s, e, inner_main, gap, growing, row, (r - 1) as nat),
            s,
            inner_main,
            gap,
            growing,
            row,
        )
    }
}

/// The resolved main sizes of the line `[s, e)`: iterate the clamp-and-
/// redistribute round once per item, which is enough for it to stabilize.
pub open spec fn line_sizes(hyps: Seq<ChildHyp>, styles: Seq<ResolvedStyle>, s: int, e: int, inner_main: int, gap: i64, row: bool) -> Seq<DistItem> {
    let outs = Seq::new(hyps.len(), |j: int| hyps[j].outer_main);
    let free0 = bsub(inner_main, seg_used(outs, s, e, gap));
    let growing = free0 > 0;
    dist_iter(hyps, styles, s, e, inner_main, gap, growing, row, (e - s + 1) as nat)
}

// ----------------------------------------------------------------------
// Justification and alignment
// ----------------------------------------------------------------------

/// The extra leading space before the item in slot `i` of `k`, when `free`
/// main-axis space is left, under the given justification. Closed-form
/// integer apportionment: cumulative shares are floors, so the gaps differ
/// by at most one unit and the total never exceeds `free`.
pub open spec fn justify_extra(j: JustifyContent, free: int, i: int, k: int) -> int {
    if free <= 0 || k <= 0 {
        0
    } else {
        match j {
            JustifyContent::Start => 0,
            JustifyContent::End => free,
            JustifyContent::Center => free / 2,
            JustifyContent::SpaceBetween => if k <= 1 {
                0
            } else {
                bmuldiv(free, i, k - 1)
            },
            JustifyContent::SpaceAround => bmuldiv(free, 2 * i + 1, 2 * k),
            JustifyContent::SpaceEvenly => bmuldiv(free, i + 1, k + 1),
        }
    }
}

/// The same five-way distribution for lines on the cross axis.
pub open spec fn align_content_extra(a: AlignContent, free: int, i: int, k: int) -> int {
    if free <= 0 || k <= 0 {
        0
    } else {
        match a {
            AlignContent::Start => 0,
            AlignContent::End => free,
            AlignContent::Center => free / 2,
            AlignContent::SpaceBetween => if k <= 1 {
                0
            } else {
                bmuldiv(free, i, k - 1)
            },
            AlignContent::SpaceAround => bmuldiv(free, 2 * i + 1, 2 * k),
            AlignContent::Stretch => 0,
        }
    }
}

/// Cumulative extent of the first `i` items of a placed sequence plus the
/// gaps before slot `i`.
pub open spec fn cum_with_gap(vals: Seq<int>, gap: i64, i: int) -> int
    decreases i,
{
    if i <= 0 || i > vals.len() {
        0
    } else {
        badd(badd(cum_with_gap(vals, gap, i - 1), vals[i - 1]), if i == vals.len() {
            0
        } else {
            gap as int
        })
    }
}

/// The placement slot of item `i` of `k` when the order may be reversed.
pub open spec fn slot_of(i: int, k: int, rev: bool) -> int {
    if rev {
        k - 1 - i
    } else {
        i
    }
}

/// Largest value of the segment `[s, e)`, never below zero.
pub open spec fn seg_max(vals: Seq<int>, s: int, e: int) -> int
    decreases e - s,
{
    if e <= s || s < 0 || e > vals.len() {
        0
    } else if seg_max(vals, s, e - 1) >= vals[e - 1] {
        seg_max(vals, s, e - 1)
    } else {
        vals[e - 1]
    }
}

// ----------------------------------------------------------------------
// Content measurement
// ----------------------------------------------------------------------

/// Available space left inside the box after padding and border.
pub open spec fn inner_avail(v: Option<int>, pb: int) -> Option<int> {
    match v {
        Some(x) => Some(max0(bsub(x, pb))),
        None => None,
    }
}

/// The largest main-axis extent over all lines.
pub open spec fn lines_main_max(outs: Seq<int>, bks: Seq<int>, count: int, gap: i64, l: int) -> int
    decreases l,
{
    if l <= 0 || l > bks.len() {
        0
    } else {
        let u = seg_used(outs, line_start(bks, l - 1), line_end(bks, count, l - 1), gap);
        let p = lines_main_max(outs, bks, count, gap, l - 1);
        if u >= p {
            u
        } else {
            p
        }
    }
}

pub open spec fn styles_of_flow(n: RNode, flow: Seq<int>) -> Seq<ResolvedStyle> {
    Seq::new(flow.len(), |j: int| n.children[flow[j]].style)
}

/// The content-box extents (main, cross) a node needs for its children
/// under the given available space: hypothetical sizes are wrapped into
/// lines; the main content is the widest line and the cross content stacks
/// the line extents with the cross gaps.
pub open spec fn content_sizes(n: RNode, aw: Option<int>, ah: Option<int>) -> (int, int)
    decreases n, 8int, 0int,
{
    let row = is_row(n.style.direction);
    let wrapping = n.style.wrap != FlexWrap::NoWrap;
    let flow = inflow_idxs(n, n.children.len() as int);
    let cavail = inner_avail(
        if row {
            ah
        } else {
            aw
        },
        pb_cross_total(n.style, row),
    );
    let mavail = inner_avail(
        if row {
            aw
        } else {
            ah
        },
        pb_main_total(n.style, row),
    );
    let hyps = hyp_seq(n, flow, cavail, flow.len() as int);
    let outs = Seq::new(hyps.len(), |j: int| hyps[j].outer_main);
    let crossouts = Seq::new(hyps.len(), |j: int| hyps[j].outer_cross);
    let bks = line_breaks(outs, mavail, main_gap(n.style, row), wrapping, outs.len() as int);
    let exts = Seq::new(
        bks.len(),
        |l: int| seg_max(crossouts, line_start(bks, l), line_end(bks, flow.len() as int, l)),
    );
    let cm = lines_main_max(outs, bks, flow.len() as int, main_gap(n.style, row), bks.len() as int);
    let cc = cum_with_gap(exts, cross_gap(n.style, row), bks.len() as int);
    (cm, cc)
}

/// The border-box size of a node under the given available space: the
/// explicit size where one is set, else the content-based size, clamped by
/// min/max (min winning) and never negative.
pub open spec fn measure(n: RNode, aw: Option<int>, ah: Option<int>) -> (int, int)
    decreases n, 9int, 0int,
{
    let row = is_row(n.style.direction);
    let c = content_sizes(n, aw, ah);
    let main_bb = match main_size_opt(n.style, row) {
        Some(v) => final_size(v as int, main_min(n.style, row), main_max(n.style, row)),
        None => final_size(
            badd(c.0, pb_main_total(n.style, row)),
            main_min(n.style, row),
            main_max(n.style, row),
        ),
    };
    let cross_bb = match cross_size_opt(n.style, row) {
        Some(v) => final_size(v as int, cross_min(n.style, row), cross_max(n.style, row)),
        None => final_size(
            badd(c.1, pb_cross_total(n.style, row)),
            cross_min(n.style, row),
            cross_max(n.style, row),
        ),
    };
    if row {
        (main_bb, cross_bb)
    } else {
        (cross_bb, main_bb)
    }
}

// ----------------------------------------------------------------------
// Placement
// ----------------------------------------------------------------------

/// The content-box width of a node with border-box width `w`.
pub open spec fn ctx_cw(n: RNode, w: int) -> int {
    max0(bsub(w, pb_w_total(n.style)))
}

pub open spec fn ctx_ch(n: RNode, h: int) -> int {
    max0(bsub(h, pb_h_total(n.style)))
}

pub open spec fn ctx_inner_main(n: RNode, w: int, h: int) -> int {
    if is_row(n.style.direction) {
        ctx_cw(n, w)
    } else {
        ctx_ch(n, h)
    }
}

pub open spec fn ctx_inner_cross(n: RNode, w: int, h: int) -> int {
    if is_row(n.style.direction) {
        ctx_ch(n, h)
    } else {
        ctx_cw(n, w)
    }
}

pub open spec fn ctx_flow(n: RNode) -> Seq<int> {
    inflow_idxs(n, n.children.len() as int)
}

pub open spec fn ctx_wrapping(n: RNode) -> bool {
    n.style.wrap != FlexWrap::NoWrap
}

pub open spec fn ctx_wrev(n: RNode) -> bool {
    n.style.wrap == FlexWrap::WrapReverse
}

/// Hypothetical sizes of the in-flow children for the commit pass.
pub open spec fn ctx_hyps(n: RNode, w: int, h: int) -> Seq<ChildHyp>
    decreases n, 11int, 0int,
{
    hyp_seq(n, ctx_flow(n), Some(ctx_inner_cross(n, w, h)), ctx_flow(n).len() as int)
}

pub open spec fn ctx_outs(n: RNode, w: int, h: int) -> Seq<int>
    decreases n, 11int, 1int,
{
    let hs = ctx_hyps(n, w, h);
    Seq::new(hs.len(), |j: int| hs[j].outer_main)
}

pub open spec fn ctx_crossouts(n: RNode, w: int, h: int) -> Seq<int>
    decreases n, 11int, 1int,
{
    let hs = ctx_hyps(n, w, h);
    Seq::new(hs.len(), |j: int| hs[j].outer_cross)
}

pub open spec fn ctx_bks(n: RNode, w: int, h: int) -> Seq<int>
    decreases n, 11int, 2int,
{
    let outs = ctx_outs(n, w, h);
    line_breaks(
        outs,
        Some(ctx_inner_main(n, w, h)),
        main_gap(n.style, is_row(n.style.direction)),
        ctx_wrapping(n),
        outs.len() as int,
    )
}

/// The resolved main sizes of the in-flow children, in flow order.
pub open spec fn ctx_msizes(n: RNode, w: int, h: int) -> Seq<int>
    decreases n, 11int, 3int,
{
    let row = is_row(n.style.direction);
    let hyps = ctx_hyps(n, w, h);
    let styles = styles_of_flow(n, ctx_flow(n));
    let bks = ctx_bks(n, w, h);
    let count = ctx_flow(n).len() as int;
    let inner = ctx_inner_main(n, w, h);
    let gap = main_gap(n.style, row);
    Seq::new(
        ctx_flow(n).len(),
        |fi: int|
            {
                let l = line_of(bks, fi);
                let s = line_start(bks, l);
                let e = line_end(bks, count, l);
                line_sizes(hyps, styles, s, e, inner, gap, row)[fi - s].size
            },
    )
}

/// The unadjusted cross extent of each line.
pub open spec fn ctx_raw_exts(n: RNode, w: int, h: int) -> Seq<int>
    decreases n, 11int, 3int,
{
    let crossouts = ctx_crossouts(n, w, h);
    let bks = ctx_bks(n, w, h);
    let count = ctx_flow(n).len() as int;
    let wrapping = ctx_wrapping(n);
    let inner_cross = ctx_inner_cross(n, w, h);
    Seq::new(
        bks.len(),
        |l: int| if !wrapping {
            inner_cross
        } else {
            seg_max(crossouts, line_start(bks, l), line_end(bks, count, l))
        },
    )
}

/// Line extents after `align-content: stretch` distributes leftover cross
/// space equally over the lines.
pub open spec fn ctx_exts(n: RNode, w: int, h: int) -> Seq<int>
    decreases n, 11int, 4int,
{
    let raw = ctx_raw_exts(n, w, h);
    let row = is_row(n.style.direction);
    let cgap = cross_gap(n.style, row);
    let lcount = raw.len() as int;
    let extra = bsub(ctx_inner_cross(n, w, h), cum_with_gap(raw, cgap, lcount));
    if n.style.align_content == AlignContent::Stretch && extra > 0 && ctx_wrapping(n) {
        Seq::new(
            raw.len(),
            |l: int| badd(raw[l], bsub(bmuldiv(extra, l + 1, lcount), bmuldiv(extra, l, lcount))),
        )
    } else {
        raw
    }
}

/// Line extents in placement order (wrap-reverse reverses the lines).
pub open spec fn ctx_placed_exts(n: RNode, w: int, h: int) -> Seq<int>
    decreases n, 11int, 5int,
{
    let e = ctx_exts(n, w, h);
    let lcount = e.len() as int;
    let wrev = ctx_wrev(n);
    Seq::new(e.len(), |sl: int| e[slot_of(sl, lcount, wrev)])
}

pub open spec fn ctx_free_c(n: RNode, w: int, h: int) -> int
    decreases n, 11int, 6int,
{
    let p = ctx_placed_exts(n, w, h);
    let row = is_row(n.style.direction);
    bsub(ctx_inner_cross(n, w, h), cum_with_gap(p, cross_gap(n.style, row), p.len() as int))
}

/// The cross-axis origin of each line, in line order.
pub open spec fn ctx_liney(n: RNode, w: int, h: int) -> Seq<int>
    decreases n, 11int, 7int,
{
    let p = ctx_placed_exts(n, w, h);
    let fc = ctx_free_c(n, w, h);
    let row = is_row(n.style.direction);
    let cgap = cross_gap(n.style, row);
    let lcount = p.len() as int;
    let ac = n.style.align_content;
    let wrev = ctx_wrev(n);
    Seq::new(
        p.len(),
        |l: int|
            {
                let sl = slot_of(l, lcount, wrev);
                badd(align_content_extra(ac, fc, sl, lcount), cum_with_gap(p, cgap, sl))
            },
    )
}

/// What `ctx_msizes` holds at one in-flow position.
pub proof fn lemma_ctx_msizes_at(n: RNode, w: int, h: int, fi: int)
    requires
        0 <= fi < ctx_flow(n).len(),
    ensures
        ctx_msizes(n, w, h).len() == ctx_flow(n).len(),
        ctx_msizes(n, w, h)[fi] == line_sizes(
            ctx_hyps(n, w, h),
            styles_of_flow(n, ctx_flow(n)),
            line_start(ctx_bks(n, w, h), line_of(ctx_bks(n, w, h), fi)),
            line_end(ctx_bks(n, w, h), ctx_flow(n).len() as int, line_of(ctx_bks(n, w, h), fi)),
            ctx_inner_main(n, w, h),
            main_gap(n.style, is_row(n.style.direction)),
            is_row(n.style.direction),
        )[fi - line_start(ctx_bks(n, w, h), line_of(ctx_bks(n, w, h), fi))].size,
{
}

/// The number of in-flow children before child `i`.
pub open spec fn flow_pos(n: RNode, i: int) -> int {
    inflow_idxs(n, i).len() as int
}

/// The geometry of child `i` of a node whose border box is `w` by `h`.
pub open spec fn child_geom(n: RNode, w: int, h: int, i: int) -> GNode
    decreases n, 12int, i,
{
    if i < 0 || i >= n.children.len() {
        GNode { token: 0, x: 0, y: 0, w: 0, h: 0, children: Seq::empty() }
    } else {
        let c = n.children[i];
        let row = is_row(n.style.direction);
        let cw = ctx_cw(n, w);
        let ch = ctx_ch(n, h);
        if is_abs(c.style) {
            // Absolutely positioned: resolved from the inset offsets against
            // the containing content box, outside the flow.
            let wc: int = match c.style.width {
                Some(v) => final_size(v as int, c.style.min_width, c.style.max_width),
                None => if c.style.inset_left is Some && c.style.inset_right is Some {
                    final_size(
                        bsub(bsub(cw, c.style.inset_left->Some_0 as int), c.style.inset_right->Some_0 as int),
                        c.style.min_width,
                        c.style.max_width,
                    )
                } else {
                    max0(measure(c, Some(cw), Some(ch)).0)
                },
            };
            let hc: int = match c.style.height {
                Some(v) => final_size(v as int, c.style.min_height, c.style.max_height),
                None => if c.style.inset_top is Some && c.style.inset_bottom is Some {
                    final_size(
                        bsub(bsub(ch, c.style.inset_top->Some_0 as int), c.style.inset_bottom->Some_0 as int),
                        c.style.min_height,
                        c.style.max_height,
                    )
                } else {
                    max0(measure(c, Some(cw), Some(ch)).1)
                },
            };
            let xc: int = match c.style.inset_left {
                Some(l) => l as int,
                None => match c.style.inset_right {
                    Some(r) => bsub(bsub(cw, r as int), wc),
                    None => 0,
                },
            };
            let yc: int = match c.style.inset_top {
                Some(t) => t as int,
                None => match c.style.inset_bottom {
                    Some(b) => bsub(bsub(ch, b as int), hc),
                    None => 0,
                },
            };
            GNode { token: c.token, x: xc, y: yc, w: wc, h: hc, children: place(c, wc, hc) }
        } else {
            let rev = is_reverse(n.style.direction);
            let inner_main = ctx_inner_main(n, w, h);
            let flow = ctx_flow(n);
            let hyps = ctx_hyps(n, w, h);
            let bks = ctx_bks(n, w, h);
            let msizes = ctx_msizes(n, w, h);
            let exts = ctx_exts(n, w, h);
            let liney = ctx_liney(n, w, h);
            let mgap = main_gap(n.style, row);
            let fi = flow_pos(n, i);
            let l = line_of(bks, fi);
            let s = line_start(bks, l);
            let e = line_end(bks, flow.len() as int, l);
            let k = e - s;
            let lo = Seq::new(
                (e - s) as nat,
                |j: int| badd(msizes[s + j], bsub(hyps[s + j].outer_main, hyps[s + j].main)),
            );
            let placed_lo = Seq::new((e - s) as nat, |sl: int| lo[slot_of(sl, k, rev)]);
            let free_m = bsub(inner_main, cum_with_gap(placed_lo, mgap, k));
            let slot = slot_of(fi - s, k, rev);
            let xm = badd(
                badd(
                    justify_extra(n.style.justify_content, free_m, slot, k),
                    cum_with_gap(placed_lo, mgap, slot),
                ),
                margin_main_lead(c.style, row) as int,
            );
            let msize = msizes[fi];
            let ext = exts[l];
            let eff = eff_align(c.style, n.style);
            let csize: int = if eff == AlignSelf::Stretch && !hyps[fi].cross_explicit {
                final_size(
                    bsub(ext, margin_cross_total(c.style, row)),
                    cross_min(c.style, row),
                    cross_max(c.style, row),
                )
            } else {
                hyps[fi].cross
            };
            let inner_c = bsub(ext, badd(csize, margin_cross_total(c.style, row)));
            // Baseline alignment degrades to start: boxes of plain geometry
            // have no baseline concept.
            let lead: int = if inner_c <= 0 {
                0
            } else {
                match eff {
                    AlignSelf::End => inner_c,
                    AlignSelf::Center => inner_c / 2,
                    _ => 0,
                }
            };
            let ycr = badd(badd(liney[l], lead), margin_cross_lead(c.style, row) as int);
            let wd = if row {
                max0(msize)
            } else {
                max0(csize)
            };
            let ht = if row {
                max0(csize)
            } else {
                max0(msize)
            };
            let xx = if row {
                xm
            } else {
                ycr
            };
            let yy = if row {
                ycr
            } else {
                xm
            };
            GNode { token: c.token, x: xx, y: yy, w: wd, h: ht, children: place(c, wd, ht) }
        }
    }
}

/// The geometries of the first `k` children, in the caller's order.
pub open spec fn place_kids(n: RNode, w: int, h: int, k: int) -> Seq<GNode>
    decreases n, 12int, k,
{
    if k <= 0 || k > n.children.len() {
        Seq::empty()
    } else {
        place_kids(n, w, h, k - 1).push(child_geom(n, w, h, k - 1))
    }
}

/// The geometries of all children of a node with final border box `w` by `h`.
pub open spec fn place(n: RNode, w: int, h: int) -> Seq<GNode>
    decreases n, 13int, 0int,
{
    place_kids(n, w, h, n.children.len() as int)
}

/// The whole layout: size the root under the available space, then place
/// every descendant. The root sits at the origin.
pub open spec fn layout_root(n: RNode, aw: i64, ah: i64) -> GNode {
    let m = measure(n, Some(max0(aw as int)), Some(max0(ah as int)));
    GNode { token: n.token, x: 0, y: 0, w: m.0, h: m.1, children: place(n, m.0, m.1) }
}

} // verus!

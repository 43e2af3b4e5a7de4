//! The executable free-space distribution.
//!
//! Per line, positive free space grows items in proportion to `flex-grow`
//! and negative free space shrinks them in proportion to
//! `flex-shrink × size`. After each pass any item whose tentative size
//! violates its min/max is clamped and taken out of the distributable set,
//! and the remainder is redistributed; one pass per item suffices for the
//! state to stabilize.

use vstd::prelude::*;

use crate::engine::HypE;
use crate::engine::hyp_ranges;
use crate::engine::hyps_abs;
use crate::engine::s2i;
use crate::engine::seg_used_u;
use crate::model::DistItem;
use crate::model::dist_init;
use crate::model::dist_iter;
use crate::model::dist_round;
use crate::model::round_amount;
use crate::model::round_lim;
use crate::model::round_shares;
use crate::model::round_tent;
use crate::model::round_violated;
use crate::model::dist_weights;
use crate::model::line_sizes;
use crate::model::shares_upto;
use crate::model::sum_prefix;
use crate::model::used_state;
use crate::style::ResolvedStyle;
use crate::style::style_wf;
use crate::model::MAX_CHILDREN;
use crate::units::MAX_UNIT;
use crate::units::add_u;
use crate::units::clamp_mm_u;
use crate::units::max0_u;
use crate::units::mul_div_u;
use crate::units::mul_u;
use crate::units::sub_u;

verus! {

/// The model items an executable state stands for.
pub open spec fn spec_items(ex: Seq<(bool, i64)>) -> Seq<DistItem> {
    Seq::new(ex.len(), |j: int| DistItem { done: ex[j].0, size: ex[j].1 as int })
}

pub open spec fn st_ranges(ex: Seq<(bool, i64)>) -> bool {
    forall|j: int| 0 <= j < ex.len() ==> 0 <= (#[trigger] ex[j]).1 <= MAX_UNIT
}

/// Main-axis space used by the current state of the line.
fn used_x(hyps: &Vec<HypE>, st: &Vec<(bool, i64)>, s: usize, gap: i64) -> (r: i64)
    requires
        s + st@.len() <= hyps@.len(),
        hyp_ranges(hyps@),
        st_ranges(st@),
    ensures
        r as int == used_state(hyps_abs(hyps@), spec_items(st@), s as int, st@.len() as int, gap),
        -MAX_UNIT <= r <= MAX_UNIT,
{
    let hl: usize = hyps.len();
    let mut acc: i64 = 0;
    let mut k: usize = 0;
    while k < st.len()
        invariant
            k <= st@.len(),
            s + st@.len() <= hyps@.len(),
            hl == hyps@.len(),
            hyp_ranges(hyps@),
            st_ranges(st@),
            acc as int == used_state(hyps_abs(hyps@), spec_items(st@), s as int, k as int, gap),
            -MAX_UNIT <= acc <= MAX_UNIT,
        decreases st@.len() - k,
    {
        let idx: usize = s + k;
        let item: i64 = add_u(st[k].1, sub_u(hyps[idx].outer_main, hyps[idx].main));
        if k == 0 {
            acc = item;
        } else {
            acc = add_u(add_u(acc, gap), item);
        }
        k = k + 1;
    }
    acc
}

/// One clamp-and-redistribute round over the state of a line.
#[verifier::rlimit(80)]
fn round_x(
    hyps: &Vec<HypE>,
    styles: &Vec<ResolvedStyle>,
    st: Vec<(bool, i64)>,
    s: usize,
    e: usize,
    inner: i64,
    gap: i64,
    growing: bool,
    row: bool,
) -> (r: Vec<(bool, i64)>)
    requires
        s <= e <= hyps@.len(),
        hyps@.len() <= MAX_CHILDREN,
        styles@.len() == hyps@.len(),
        st@.len() == e - s,
        hyp_ranges(hyps@),
        forall|j: int| 0 <= j < styles@.len() ==> style_wf(#[trigger] styles@[j]),
        st_ranges(st@),
        -MAX_UNIT <= inner <= MAX_UNIT,
        0 <= gap <= MAX_UNIT,
    ensures
        r@.len() == e - s,
        spec_items(r@) == dist_round(
            hyps_abs(hyps@),
            styles@,
            spec_items(st@),
            s as int,
            inner as int,
            gap,
            growing,
            row,
        ),
        st_ranges(r@),
{
    let ghost hv = hyps_abs(hyps@);
    let ghost sv = styles@;
    let ghost stv = spec_items(st@);
    let ghost target = dist_round(hv, sv, stv, s as int, inner as int, gap, growing, row);
    let used: i64 = used_x(hyps, &st, s, gap);
    let free: i64 = sub_u(inner, used);
    let amount: i64 = if growing {
        free
    } else {
        -free
    };
    proof {
        assert(amount as int == round_amount(hv, stv, s as int, inner as int, gap, growing));
    }
    if amount <= 0 {
        proof {
            assert(target == stv);
        }
        return st;
    }
    // Weights of the unresolved items.
    let ghost wsv = dist_weights(hv, sv, stv, s as int, growing);
    let mut ws: Vec<i64> = Vec::new();
    let mut total: i64 = 0;
    let mut j2: usize = 0;
    while j2 < st.len()
        invariant
            j2 <= st@.len(),
            st@.len() == e - s,
            s <= e <= hyps@.len(),
            styles@.len() == hyps@.len(),
            hyp_ranges(hyps@),
            forall|jj: int| 0 <= jj < styles@.len() ==> style_wf(#[trigger] styles@[jj]),
            hv == hyps_abs(hyps@),
            sv == styles@,
            stv == spec_items(st@),
            wsv == dist_weights(hv, sv, stv, s as int, growing),
            st_ranges(st@),
            ws@.len() == j2,
            forall|jj: int| 0 <= jj < j2 ==> #[trigger] ws@[jj] as int == wsv[jj],
            forall|jj: int| 0 <= jj < j2 ==> 0 <= #[trigger] ws@[jj] <= MAX_UNIT,
            total as int == sum_prefix(wsv, j2 as int),
            0 <= total <= MAX_UNIT,
        decreases st@.len() - j2,
    {
        let idx: usize = s + j2;
        let w: i64 = if st[j2].0 {
            0
        } else if growing {
            styles[idx].flex_grow
        } else {
            mul_u(styles[idx].flex_shrink, st[j2].1)
        };
        ws.push(w);
        total = add_u(total, w);
        j2 = j2 + 1;
    }
    if total <= 0 {
        proof {
            assert(total as int == sum_prefix(wsv, wsv.len() as int));
            assert(target == stv);
        }
        return st;
    }
    // Sequential apportionment of the free space.
    let ghost shv = round_shares(hv, sv, stv, s as int, inner as int, gap, growing);
    proof {
        assert(shv == shares_upto(wsv, amount as int, total as int, (e - s) as int));
    }
    let mut shares: Vec<i64> = Vec::new();
    let mut sw: i64 = 0;
    let mut sp: i64 = 0;
    let mut k: usize = 0;
    while k < ws.len()
        invariant
            k <= ws@.len(),
            ws@.len() == e - s,
            forall|jj: int| 0 <= jj < ws@.len() ==> #[trigger] ws@[jj] as int == wsv[jj],
            forall|jj: int| 0 <= jj < ws@.len() ==> 0 <= #[trigger] ws@[jj] <= MAX_UNIT,
            wsv.len() == ws@.len(),
            shares@.len() == k,
            s2i(shares@) == shares_upto(wsv, amount as int, total as int, k as int),
            forall|jj: int| 0 <= jj < k ==> 0 <= #[trigger] shares@[jj] <= MAX_UNIT,
            sw as int == sum_prefix(wsv, k as int),
            sp as int == sum_prefix(s2i(shares@), k as int),
            -MAX_UNIT <= sw <= MAX_UNIT,
            -MAX_UNIT <= sp <= MAX_UNIT,
            0 < amount <= MAX_UNIT,
            0 < total <= MAX_UNIT,
        decreases ws@.len() - k,
    {
        let rem_w: i64 = sub_u(total, sw);
        let rem_f: i64 = sub_u(amount, sp);
        let share: i64 = if ws[k] > 0 && rem_w > 0 && rem_f > 0 {
            mul_div_u(rem_f, ws[k], rem_w)
        } else {
            0
        };
        let ghost old_shares = s2i(shares@);
        shares.push(share);
        proof {
            assert(s2i(shares@) =~= old_shares.push(share as int));
            assert(s2i(shares@) =~= shares_upto(wsv, amount as int, total as int, (k + 1) as int));
            lemma_sum_prefix_eq(s2i(shares@), old_shares, k as int);
        }
        sw = add_u(sw, ws[k]);
        sp = add_u(sp, share);
        k = k + 1;
    }
    proof {
        assert(forall|jj: int| 0 <= jj < e - s ==> #[trigger] shares@[jj] as int == shv[jj]);
    }
    // Tentative sizes and their clamps.
    let mut tent: Vec<i64> = Vec::new();
    let mut lim: Vec<i64> = Vec::new();
    let mut vio: bool = false;
    let mut j3: usize = 0;
    while j3 < st.len()
        invariant
            j3 <= st@.len(),
            st@.len() == e - s,
            s <= e <= hyps@.len(),
            styles@.len() == hyps@.len(),
            hv == hyps_abs(hyps@),
            sv == styles@,
            stv == spec_items(st@),
            st_ranges(st@),
            forall|jj: int| 0 <= jj < styles@.len() ==> style_wf(#[trigger] styles@[jj]),
            shares@.len() == e - s,
            shv == round_shares(hv, sv, stv, s as int, inner as int, gap, growing),
            forall|jj: int| 0 <= jj < shares@.len() ==> #[trigger] shares@[jj] as int == shv[jj],
            forall|jj: int| 0 <= jj < shares@.len() ==> 0 <= #[trigger] shares@[jj] <= MAX_UNIT,
            tent@.len() == j3,
            lim@.len() == j3,
            forall|jj: int|
                0 <= jj < j3 ==> #[trigger] tent@[jj] as int == round_tent(hv, sv, stv, s as int, inner as int, gap, growing, jj),
            forall|jj: int|
                0 <= jj < j3 ==> #[trigger] lim@[jj] as int == round_lim(hv, sv, stv, s as int, inner as int, gap, growing, row, jj),
            forall|jj: int| 0 <= jj < j3 ==> 0 <= #[trigger] tent@[jj] <= MAX_UNIT,
            forall|jj: int| 0 <= jj < j3 ==> 0 <= #[trigger] lim@[jj] <= MAX_UNIT,
            vio == exists|jj: int|
                0 <= jj < j3 && !stv[jj].done && round_lim(hv, sv, stv, s as int, inner as int, gap, growing, row, jj)
                    != round_tent(hv, sv, stv, s as int, inner as int, gap, growing, jj),
        decreases st@.len() - j3,
    {
        let idx: usize = s + j3;
        let tj: i64 = if st[j3].0 {
            st[j3].1
        } else if growing {
            add_u(st[j3].1, shares[j3])
        } else {
            max0_u(sub_u(st[j3].1, shares[j3]))
        };
        proof {
            assert(tj as int == round_tent(hv, sv, stv, s as int, inner as int, gap, growing, j3 as int));
        }
        let mn: Option<i64> = if row {
            styles[idx].min_width
        } else {
            styles[idx].min_height
        };
        let mx: Option<i64> = if row {
            styles[idx].max_width
        } else {
            styles[idx].max_height
        };
        let lj: i64 = clamp_mm_u(tj, mn, mx);
        proof {
            assert(lj as int == round_lim(hv, sv, stv, s as int, inner as int, gap, growing, row, j3 as int));
        }
        if !st[j3].0 && lj != tj {
            vio = true;
        }
        tent.push(tj);
        lim.push(lj);
        j3 = j3 + 1;
    }
    proof {
        assert(vio == round_violated(hv, sv, stv, s as int, inner as int, gap, growing, row));
    }
    // Commit: freeze the violators, or everything when there are none.
    let mut newst: Vec<(bool, i64)> = Vec::new();
    let mut j4: usize = 0;
    while j4 < st.len()
        invariant
            j4 <= st@.len(),
            st@.len() == e - s,
            stv == spec_items(st@),
            st_ranges(st@),
            tent@.len() == e - s,
            lim@.len() == e - s,
            vio == round_violated(hv, sv, stv, s as int, inner as int, gap, growing, row),
            forall|jj: int|
                0 <= jj < e - s ==> #[trigger] tent@[jj] as int == round_tent(hv, sv, stv, s as int, inner as int, gap, growing, jj),
            forall|jj: int|
                0 <= jj < e - s ==> #[trigger] lim@[jj] as int == round_lim(hv, sv, stv, s as int, inner as int, gap, growing, row, jj),
            forall|jj: int| 0 <= jj < e - s ==> 0 <= #[trigger] tent@[jj] <= MAX_UNIT,
            forall|jj: int| 0 <= jj < e - s ==> 0 <= #[trigger] lim@[jj] <= MAX_UNIT,
            newst@.len() == j4,
            forall|jj: int|
                0 <= jj < j4 ==> #[trigger] newst@[jj] == (if stv[jj].done {
                    (st@[jj].0, st@[jj].1)
                } else if vio {
                    if lim@[jj] != tent@[jj] {
                        (true, lim@[jj])
                    } else {
                        (st@[jj].0, st@[jj].1)
                    }
                } else {
                    (true, tent@[jj])
                }),
            st_ranges(newst@),
        decreases st@.len() - j4,
    {
        let cur: (bool, i64) = st[j4];
        let nw: (bool, i64) = if cur.0 {
            cur
        } else if vio {
            if lim[j4] != tent[j4] {
                (true, lim[j4])
            } else {
                cur
            }
        } else {
            (true, tent[j4])
        };
        newst.push(nw);
        j4 = j4 + 1;
    }
    proof {
        assert(total as int == sum_prefix(wsv, wsv.len() as int));
        assert forall|jj: int| 0 <= jj < e - s implies spec_items(newst@)[jj] == target[jj] by {
            assert(lim@[jj] != tent@[jj] <==> round_lim(hv, sv, stv, s as int, inner as int, gap, growing, row, jj)
                != round_tent(hv, sv, stv, s as int, inner as int, gap, growing, jj));
        }
        assert(spec_items(newst@) =~= target);
    }
    newst
}

/// Resolve the main sizes of the line `[s, e)`.
pub fn dist_x(
    hyps: &Vec<HypE>,
    styles: &Vec<ResolvedStyle>,
    outs: &Vec<i64>,
    s: usize,
    e: usize,
    inner: i64,
    gap: i64,
    row: bool,
) -> (sizes: Vec<i64>)
    requires
        s <= e <= hyps@.len(),
        hyps@.len() <= MAX_CHILDREN,
        styles@.len() == hyps@.len(),
        outs@.len() == hyps@.len(),
        forall|j: int| 0 <= j < outs@.len() ==> #[trigger] outs@[j] == hyps@[j].outer_main,
        hyp_ranges(hyps@),
        forall|j: int| 0 <= j < styles@.len() ==> style_wf(#[trigger] styles@[j]),
        -MAX_UNIT <= inner <= MAX_UNIT,
        0 <= gap <= MAX_UNIT,
    ensures
        sizes@.len() == e - s,
        forall|j: int|
            0 <= j < e - s ==> #[trigger] sizes@[j] as int == line_sizes(
                hyps_abs(hyps@),
                styles@,
                s as int,
                e as int,
                inner as int,
                gap,
                row,
            )[j].size,
        forall|j: int| 0 <= j < sizes@.len() ==> 0 <= #[trigger] sizes@[j] <= MAX_UNIT,
{
    let ghost hv = hyps_abs(hyps@);
    let ghost sv = styles@;
    proof {
        assert(s2i(outs@) =~= Seq::new(hv.len(), |j: int| hv[j].outer_main));
    }
    let free0: i64 = sub_u(inner, seg_used_u(outs, s, e, gap));
    let growing: bool = free0 > 0;
    // Initial state: hypothetical sizes; zero-weight items already resolved.
    let mut st: Vec<(bool, i64)> = Vec::new();
    let mut j: usize = 0;
    while j < e - s
        invariant
            s <= e <= hyps@.len(),
            styles@.len() == hyps@.len(),
            hyp_ranges(hyps@),
            forall|jj: int| 0 <= jj < styles@.len() ==> style_wf(#[trigger] styles@[jj]),
            j <= e - s,
            st@.len() == j,
            hv == hyps_abs(hyps@),
            sv == styles@,
            forall|jj: int|
                0 <= jj < j ==> (#[trigger] st@[jj]).0 == dist_init(hv, sv, s as int, e as int, growing)[jj].done
                    && st@[jj].1 as int == dist_init(hv, sv, s as int, e as int, growing)[jj].size,
            st_ranges(st@),
        decreases e - s - j,
    {
        let idx: usize = s + j;
        let done: bool = if growing {
            styles[idx].flex_grow <= 0
        } else {
            styles[idx].flex_shrink <= 0
        };
        st.push((done, hyps[idx].main));
        j = j + 1;
    }
    proof {
        assert(spec_items(st@) =~= dist_init(hv, sv, s as int, e as int, growing));
    }
    // One clamp-and-redistribute round per item.
    let rounds: usize = (e - s) + 1;
    let mut r: usize = 0;
    while r < rounds
        invariant
            s <= e <= hyps@.len(),
            hyps@.len() <= MAX_CHILDREN,
            styles@.len() == hyps@.len(),
            hyp_ranges(hyps@),
            forall|jj: int| 0 <= jj < styles@.len() ==> style_wf(#[trigger] styles@[jj]),
            rounds == e - s + 1,
            r <= rounds,
            hv == hyps_abs(hyps@),
            sv == styles@,
            st@.len() == e - s,
            -MAX_UNIT <= inner <= MAX_UNIT,
            0 <= gap <= MAX_UNIT,
            spec_items(st@) == dist_iter(hv, sv, s as int, e as int, inner as int, gap, growing, row, r as nat),
            st_ranges(st@),
        decreases rounds - r,
    {
        st = round_x(hyps, styles, st, s, e, inner, gap, growing, row);
        r = r + 1;
    }
    // Read off the sizes.
    let mut sizes: Vec<i64> = Vec::new();
    let mut j5: usize = 0;
    while j5 < st.len()
        invariant
            j5 <= st@.len(),
            st_ranges(st@),
            sizes@.len() == j5,
            forall|jj: int| 0 <= jj < j5 ==> #[trigger] sizes@[jj] == st@[jj].1,
            forall|jj: int| 0 <= jj < j5 ==> 0 <= #[trigger] sizes@[jj] <= MAX_UNIT,
        decreases st@.len() - j5,
    {
        sizes.push(st[j5].1);
        j5 = j5 + 1;
    }
    sizes
}

/// Two sequences equal on a prefix have the same prefix sums.
proof fn lemma_sum_prefix_eq(a: Seq<int>, b: Seq<int>, k: int)
    requires
        k <= a.len(),
        k <= b.len(),
        forall|j: int| 0 <= j < k ==> a[j] == b[j],
    ensures
        sum_prefix(a, k) == sum_prefix(b, k),
    decreases k,
{
    if k > 0 {
        lemma_sum_prefix_eq(a, b, k - 1);
    }
}

} // verus!

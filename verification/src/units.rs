//! Layout units and the clamped arithmetic the solver computes with.
//!
//! Every length, offset and coordinate in the engine is an `i64` number of
//! layout units, kept inside the symmetric range `[-MAX_UNIT, MAX_UNIT]`.
//! Arithmetic saturates at the ends of that range, so every operation is
//! total and every intermediate value stays representable.

use vstd::prelude::*;

verus! {

/// The largest magnitude a layout value can take.
pub const MAX_UNIT: i64 = 0x4000_0000_0000;

/// Clamp a mathematical integer into the representable range.
pub open spec fn bounded(v: int) -> int {
    if v > MAX_UNIT as int {
        MAX_UNIT as int
    } else if v < -(MAX_UNIT as int) {
        -(MAX_UNIT as int)
    } else {
        v
    }
}

/// Negative lengths collapse to zero.
pub open spec fn max0(v: int) -> int {
    if v < 0 {
        0
    } else {
        v
    }
}

/// Apply an optional maximum, then an optional minimum, so that when the two
/// conflict the minimum wins.
pub open spec fn clamp_mm(v: int, mn: Option<i64>, mx: Option<i64>) -> int {
    let capped = match mx {
        Some(m) => if v > m {
            m as int
        } else {
            v
        },
        None => v,
    };
    match mn {
        Some(m) => if capped < m {
            m as int
        } else {
            capped
        },
        None => capped,
    }
}

/// A resolved size: clamped by min/max (min winning) and never negative.
pub open spec fn final_size(v: int, mn: Option<i64>, mx: Option<i64>) -> int {
    max0(clamp_mm(v, mn, mx))
}

/// A resolved size stays representable when its inputs are.
pub proof fn lemma_final_size_range(v: int, mn: Option<i64>, mx: Option<i64>)
    requires
        v <= MAX_UNIT,
        mn matches Some(m) ==> 0 <= m <= MAX_UNIT,
    ensures
        0 <= final_size(v, mn, mx) <= MAX_UNIT,
{
}

/// Saturating addition of two unit values.
pub fn add_u(a: i64, b: i64) -> (r: i64)
    ensures
        r as int == bounded(a + b),
{
    let wide: i128 = a as i128 + b as i128;
    if wide > MAX_UNIT as i128 {
        MAX_UNIT
    } else if wide < -(MAX_UNIT as i128) {
        -MAX_UNIT
    } else {
        wide as i64
    }
}

/// Saturating subtraction of two unit values.
pub fn sub_u(a: i64, b: i64) -> (r: i64)
    ensures
        r as int == bounded(a - b),
{
    let wide: i128 = a as i128 - b as i128;
    if wide > MAX_UNIT as i128 {
        MAX_UNIT
    } else if wide < -(MAX_UNIT as i128) {
        -MAX_UNIT
    } else {
        wide as i64
    }
}

/// Saturating product of two non-negative unit values.
pub fn mul_u(a: i64, b: i64) -> (r: i64)
    requires
        0 <= a <= MAX_UNIT,
        0 <= b <= MAX_UNIT,
    ensures
        r as int == bounded(a * b),
        0 <= r <= MAX_UNIT,
{
    proof {
        assert(a as int * b as int <= MAX_UNIT as int * MAX_UNIT as int) by (nonlinear_arith)
            requires
                0 <= a as int <= MAX_UNIT as int,
                0 <= b as int <= MAX_UNIT as int,
        ;
    }
    let wide: u128 = a as u128 * b as u128;
    if wide > MAX_UNIT as u128 {
        MAX_UNIT
    } else {
        wide as i64
    }
}

/// `(a * b) / d`, rounded toward zero, on non-negative values; saturating.
pub fn mul_div_u(a: i64, b: i64, d: i64) -> (r: i64)
    requires
        0 <= a <= MAX_UNIT,
        0 <= b <= MAX_UNIT,
        0 < d,
    ensures
        r as int == bounded((a * b) / (d as int)),
        0 <= r <= MAX_UNIT,
{
    proof {
        assert(a as int * b as int <= MAX_UNIT as int * MAX_UNIT as int) by (nonlinear_arith)
            requires
                0 <= a as int <= MAX_UNIT as int,
                0 <= b as int <= MAX_UNIT as int,
        ;
    }
    let wide: u128 = a as u128 * b as u128;
    let q: u128 = wide / (d as u128);
    proof {
        assert(0 <= (a * b) / (d as int) <= a * b) by (nonlinear_arith)
            requires
                0 <= a * b,
                0 < d,
        ;
    }
    if q > MAX_UNIT as u128 {
        MAX_UNIT
    } else {
        q as i64
    }
}

/// Executable form of `max0`.
pub fn max0_u(a: i64) -> (r: i64)
    ensures
        r as int == max0(a as int),
{
    if a < 0 {
        0
    } else {
        a
    }
}

/// Executable form of `clamp_mm`.
pub fn clamp_mm_u(v: i64, mn: Option<i64>, mx: Option<i64>) -> (r: i64)
    ensures
        r as int == clamp_mm(v as int, mn, mx),
{
    let capped: i64 = match mx {
        Some(m) => if v > m {
            m
        } else {
            v
        },
        None => v,
    };
    match mn {
        Some(m) => if capped < m {
            m
        } else {
            capped
        },
        None => capped,
    }
}

/// Executable form of `final_size` for an already-representable value.
pub fn final_size_u(v: i64, mn: Option<i64>, mx: Option<i64>) -> (r: i64)
    ensures
        r as int == final_size(v as int, mn, mx),
{
    max0_u(clamp_mm_u(v, mn, mx))
}

} // verus!

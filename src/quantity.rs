//! Integer arithmetic on quantities, counted in thousandths of a unit.
//!
//! Running totals and intermediate results are held to a finite range; a
//! value that leaves it is a numeric anomaly, which the planning rules
//! recover from by using zero.

use vstd::prelude::*;

verus! {

/// Thousandths in one unit.
pub const PER_UNIT: i64 = 1000;

/// Largest magnitude of a suggested target: 10^12 units.
pub const TARGET_BOUND: i64 = 1_000_000_000_000_000;

/// Largest magnitude of a running total or intermediate result.
pub const FINITE_BOUND: i128 = 1_000_000_000_000_000_000_000_000_000_000_000_000;

/// Whether `v` lies in the finite range.
pub open spec fn is_finite(v: int) -> bool {
    -FINITE_BOUND <= v <= FINITE_BOUND
}

/// `v` held to `[-TARGET_BOUND, TARGET_BOUND]`.
pub open spec fn clamp_target(v: int) -> int {
    if v < -TARGET_BOUND {
        -TARGET_BOUND as int
    } else if v > TARGET_BOUND {
        TARGET_BOUND as int
    } else {
        v
    }
}

/// `a / b` rounded to the nearest integer, halves away from zero; `b > 0`.
pub open spec fn div_round(a: int, b: int) -> int
    recommends
        b > 0,
{
    if a >= 0 {
        (a + b / 2) / b
    } else {
        -((-a + b / 2) / b)
    }
}

/// One step of a running total: `x` added to `acc`, or an anomaly (`None`)
/// once the total has left the finite range.
pub open spec fn finite_add(acc: Option<int>, x: int) -> Option<int> {
    match acc {
        Some(v) => if is_finite(v + x) {
            Some(v + x)
        } else {
            None
        },
        None => None,
    }
}

/// An executable running total seen as a mathematical one.
pub open spec fn widen(o: Option<i128>) -> Option<int> {
    match o {
        Some(v) => Some(v as int),
        None => None,
    }
}

/// A running total with the anomaly read as zero.
pub open spec fn or_zero(o: Option<int>) -> int {
    match o {
        Some(v) => v,
        None => 0,
    }
}

/// Adds `x` to a running total, or reports the anomaly.
pub fn add_finite(acc: Option<i128>, x: i128) -> (r: Option<i128>)
    requires
        acc matches Some(v) ==> is_finite(v as int),
        is_finite(x as int),
    ensures
        widen(r) == finite_add(widen(acc), x as int),
        r matches Some(v) ==> is_finite(v as int),
{
    match acc {
        Some(v) => {
            let s = v + x;
            if -FINITE_BOUND <= s && s <= FINITE_BOUND {
                Some(s)
            } else {
                None
            }
        },
        None => None,
    }
}

/// `a / b` rounded to the nearest integer, halves away from zero.
pub fn round_div(a: i128, b: i128) -> (r: i128)
    requires
        0 < b,
        a >= 0 ==> a + b / 2 <= i128::MAX,
        a < 0 ==> -a + b / 2 <= i128::MAX,
    ensures
        r == div_round(a as int, b as int),
        a >= 0 ==> 0 <= r <= a,
        a < 0 ==> a <= r <= 0,
{
    let half = b / 2;
    if a >= 0 {
        let q = ((a + half) as u128 / b as u128) as i128;
        assert(q <= a) by (nonlinear_arith)
            requires
                q as int == (a as int + half as int) / (b as int),
                b >= 1,
                half as int == b as int / 2,
                a >= 0,
        ;
        q
    } else {
        let q = ((-a + half) as u128 / b as u128) as i128;
        assert(q <= -a) by (nonlinear_arith)
            requires
                q as int == (-a as int + half as int) / (b as int),
                b >= 1,
                half as int == b as int / 2,
                a < 0,
        ;
        -q
    }
}

/// `n / d` rounded to the nearest integer, halves away from zero, for a
/// divisor of either sign; zero when `d` is zero.
pub open spec fn ratio_round(n: int, d: int) -> int {
    if d > 0 {
        div_round(n, d)
    } else if d < 0 {
        div_round(-n, -d)
    } else {
        0
    }
}

/// `n / d` rounded as `ratio_round` says.
pub fn round_ratio(n: i128, d: i128) -> (r: i128)
    requires
        is_finite(n as int),
        d > i128::MIN,
    ensures
        r == ratio_round(n as int, d as int),
        is_finite(r as int),
{
    if d > 0 {
        round_div(n, d)
    } else if d < 0 {
        round_div(-n, -d)
    } else {
        0
    }
}

/// `v` held to `[-TARGET_BOUND, TARGET_BOUND]`.
pub fn clamp_to_target(v: i128) -> (r: i64)
    ensures
        r == clamp_target(v as int),
{
    if v < -(TARGET_BOUND as i128) {
        -TARGET_BOUND
    } else if v > TARGET_BOUND as i128 {
        TARGET_BOUND
    } else {
        v as i64
    }
}

} // verus!

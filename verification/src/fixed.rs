//! Exact fixed-point representation of real-world quantities.
//!
//! Every quantity (bound, amplitude, scale factor, ...) is a count of
//! micro-units: one whole unit is `MICROS_PER_UNIT` raw steps.  All
//! arithmetic on these counts is integer arithmetic, so each operation
//! has a precise contract.

use vstd::prelude::*;

verus! {

/// Raw steps per whole unit: quantities carry six decimal places.
pub const MICROS_PER_UNIT: i128 = 1_000_000;

/// Half a unit in raw steps, used when rounding to the nearest unit.
pub const HALF_UNIT: i128 = 500_000;

/// Magnitude of a mathematical integer.
pub open spec fn abs_int(a: int) -> int {
    if a >= 0 {
        a
    } else {
        -a
    }
}

/// Quotient of `a` by `b` rounded toward zero, as Rust's `/` computes it.
pub open spec fn trunc_div(a: int, b: int) -> int
    recommends
        b != 0,
{
    if (a >= 0) == (b >= 0) {
        abs_int(a) / abs_int(b)
    } else {
        -(abs_int(a) / abs_int(b))
    }
}

/// Remainder with the sign of `a`, as Rust's `%` computes it.
pub open spec fn trunc_rem(a: int, b: int) -> int
    recommends
        b != 0,
{
    a - b * trunc_div(a, b)
}

/// Nearest whole-unit count to `raw` micro-units; halves round away from zero.
pub open spec fn round_units(raw: int) -> int {
    if raw >= 0 {
        (raw + HALF_UNIT) / (MICROS_PER_UNIT as int)
    } else {
        -((HALF_UNIT - raw) / (MICROS_PER_UNIT as int))
    }
}

/// Largest whole-unit count not above `raw` micro-units.
pub open spec fn floor_units(raw: int) -> int {
    raw / (MICROS_PER_UNIT as int)
}

/// Smallest whole-unit count not below `raw` micro-units.
pub open spec fn ceil_units(raw: int) -> int {
    -((-raw) / (MICROS_PER_UNIT as int))
}

/// A real-world quantity held exactly as a count of micro-units.
#[derive(Clone, Copy, Debug, PartialEq, Eq, Structural)]
pub struct Fixed {
    pub raw: i128,
}

impl Fixed {
    /// The quantity `units`, an exact whole number of units.
    pub fn from_units(units: i64) -> (r: Fixed)
        ensures
            r.raw == units * MICROS_PER_UNIT,
    {
        Fixed { raw: (units as i128) * 1_000_000 }
    }

    /// The quantity of exactly `raw` micro-units.
    pub fn from_micros(raw: i128) -> (r: Fixed)
        ensures
            r.raw == raw,
    {
        Fixed { raw }
    }
}

/// `a / b` rounded toward zero.
pub fn div_trunc(a: i128, b: i128) -> (q: i128)
    requires
        b != 0,
        a != i128::MIN,
    ensures
        q == trunc_div(a as int, b as int),
        abs_int(q as int) <= abs_int(a as int),
{
    proof {
        lemma_trunc_div_bound(a as int, b as int);
    }
    match a.checked_div(b) {
        Some(q) => q,
        None => unreached(),
    }
}

/// `a % b` with the sign of `a`, as Rust's `%` computes it.
pub fn rem_trunc(a: i128, b: i128) -> (r: i128)
    requires
        b != 0,
        a != i128::MIN,
    ensures
        r == trunc_rem(a as int, b as int),
        abs_int(r as int) < abs_int(b as int),
{
    proof {
        lemma_trunc_rem_bound(a as int, b as int);
    }
    match a.checked_rem(b) {
        Some(r) => r,
        None => unreached(),
    }
}

/// Largest whole-unit count not above `raw` micro-units, as executable code.
pub fn floor_units_exec(raw: i128) -> (r: i128)
    requires
        raw != i128::MIN,
    ensures
        r == floor_units(raw as int),
        abs_int(r as int) <= abs_int(raw as int),
{
    proof {
        let m = MICROS_PER_UNIT as int;
        assert(abs_int((raw as int) / m) <= abs_int(raw as int) && i128::MIN < (raw as int) / m
            < i128::MAX) by (nonlinear_arith)
            requires
                m == 1_000_000 && i128::MIN < raw as int <= i128::MAX,
        ;
    }
    match raw.checked_div_euclid(MICROS_PER_UNIT) {
        Some(q) => q,
        None => unreached(),
    }
}

/// Smallest whole-unit count not below `raw` micro-units, as executable code.
pub fn ceil_units_exec(raw: i128) -> (r: i128)
    requires
        raw != i128::MIN,
    ensures
        r == ceil_units(raw as int),
        abs_int(r as int) <= abs_int(raw as int),
{
    let f = floor_units_exec(-raw);
    proof {
        assert(f != i128::MIN);
    }
    -f
}

/// `a` modulo `b` with a nonnegative result, Euclid's remainder.
pub fn rem_euclid_exec(a: i128, b: i128) -> (r: i128)
    requires
        b > 0,
        a != i128::MIN,
    ensures
        r == (a as int) % (b as int),
        0 <= r < b,
{
    match a.checked_rem_euclid(b) {
        Some(r) => r,
        None => unreached(),
    }
}

/// A quotient is strictly below `c` when the dividend is strictly below
/// `c` times the divisor.
pub proof fn lemma_trunc_div_strict(a: int, b: int, c: int)
    requires
        b != 0,
        c > 0,
        abs_int(a) < abs_int(b) * c,
    ensures
        abs_int(trunc_div(a, b)) < c,
{
    let pa = abs_int(a);
    let pb = abs_int(b);
    assert(pa / pb < c) by (nonlinear_arith)
        requires
            pa >= 0 && pb >= 1 && c > 0 && pa < pb * c,
    ;
}

/// The magnitude of a product is the product of the magnitudes, and is
/// bounded by any bounds on the factors.
pub proof fn lemma_mul_abs_bound(a: int, b: int, aa: int, bb: int)
    requires
        abs_int(a) <= aa,
        abs_int(b) <= bb,
    ensures
        abs_int(a * b) == abs_int(a) * abs_int(b),
        abs_int(a * b) <= aa * bb,
{
    if a >= 0 && b >= 0 {
        assert(a * b >= 0 && a * b == abs_int(a) * abs_int(b)) by (nonlinear_arith)
            requires
                a >= 0 && b >= 0 && abs_int(a) == a && abs_int(b) == b,
        ;
    } else if a >= 0 && b < 0 {
        assert(a * b <= 0 && -(a * b) == abs_int(a) * abs_int(b)) by (nonlinear_arith)
            requires
                a >= 0 && b < 0 && abs_int(a) == a && abs_int(b) == -b,
        ;
    } else if a < 0 && b >= 0 {
        assert(a * b <= 0 && -(a * b) == abs_int(a) * abs_int(b)) by (nonlinear_arith)
            requires
                a < 0 && b >= 0 && abs_int(a) == -a && abs_int(b) == b,
        ;
    } else {
        assert(a * b >= 0 && a * b == abs_int(a) * abs_int(b)) by (nonlinear_arith)
            requires
                a < 0 && b < 0 && abs_int(a) == -a && abs_int(b) == -b,
        ;
    }
    assert(abs_int(a) * abs_int(b) <= aa * bb) by (nonlinear_arith)
        requires
            0 <= abs_int(a) <= aa && 0 <= abs_int(b) <= bb,
    ;
}

/// Floors and ceilings in whole units bracket the micro-unit count.
pub proof fn lemma_floor_ceil_units(raw: int)
    ensures
        floor_units(raw) * MICROS_PER_UNIT <= raw,
        raw < (floor_units(raw) + 1) * MICROS_PER_UNIT,
        ceil_units(raw) * MICROS_PER_UNIT >= raw,
        raw > (ceil_units(raw) - 1) * MICROS_PER_UNIT,
{
    let m = MICROS_PER_UNIT as int;
    let q = raw / m;
    let r = raw % m;
    assert(raw == m * q + r && 0 <= r < m) by (nonlinear_arith)
        requires
            m == 1_000_000 && q == raw / m && r == raw % m,
    ;
    let nq = (-raw) / m;
    let nr = (-raw) % m;
    assert(-raw == m * nq + nr && 0 <= nr < m) by (nonlinear_arith)
        requires
            m == 1_000_000 && nq == (-raw) / m && nr == (-raw) % m,
    ;
}

/// Truncating division never grows the magnitude of the dividend.
pub proof fn lemma_trunc_div_bound(a: int, b: int)
    requires
        b != 0,
    ensures
        abs_int(trunc_div(a, b)) <= abs_int(a),
        a == 0 ==> trunc_div(a, b) == 0,
        trunc_div(a, b) == if (a >= 0) == (b >= 0) {
            abs_int(a) / abs_int(b)
        } else {
            -(abs_int(a) / abs_int(b))
        },
{
    let pa = abs_int(a);
    let pb = abs_int(b);
    assert(pa >= 0 && pb >= 1);
    assert(pa / pb <= pa && pa / pb >= 0) by (nonlinear_arith)
        requires
            pa >= 0 && pb >= 1,
    ;
}

/// The truncating remainder is smaller in magnitude than the divisor,
/// and relates dividend, divisor and quotient exactly.
pub proof fn lemma_trunc_rem_bound(a: int, b: int)
    requires
        b != 0,
    ensures
        abs_int(trunc_rem(a, b)) < abs_int(b),
        trunc_rem(a, b) == a - b * trunc_div(a, b),
        trunc_rem(a, b) == if a >= 0 {
            abs_int(a) % abs_int(b)
        } else {
            -(abs_int(a) % abs_int(b))
        },
        a >= 0 ==> trunc_rem(a, b) >= 0,
        a <= 0 ==> trunc_rem(a, b) <= 0,
{
    let pa = abs_int(a);
    let pb = abs_int(b);
    assert(pa >= 0 && pb >= 1);
    let q = pa / pb;
    let r = pa % pb;
    assert(pa == pb * q + r && 0 <= r < pb) by (nonlinear_arith)
        requires
            pa >= 0 && pb >= 1 && q == pa / pb && r == pa % pb,
    ;
    if (a >= 0) == (b >= 0) {
        if a >= 0 {
            assert(a - b * q == r) by (nonlinear_arith)
                requires
                    a == pa && b == pb && pa == pb * q + r,
            ;
        } else {
            assert(a - b * q == -r) by (nonlinear_arith)
                requires
                    a == -pa && b == -pb && pa == pb * q + r,
            ;
        }
    } else {
        if a >= 0 {
            assert(a - b * (-q) == r) by (nonlinear_arith)
                requires
                    a == pa && b == -pb && pa == pb * q + r,
            ;
        } else {
            assert(a - b * (-q) == -r) by (nonlinear_arith)
                requires
                    a == -pa && b == pb && pa == pb * q + r,
            ;
        }
    }
}

} // verus!

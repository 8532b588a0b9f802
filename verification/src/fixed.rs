//! Saturating fixed-point arithmetic.
//!
//! A fixed-point number is an `i64` counting steps of one millionth:
//! `UNIT` steps make up the value one. Sums, products and quotients are
//! computed exactly in the integers, rounded down to a whole step, and then
//! clamped into the `i64` range. Clamping plays the part that infinities
//! play in floating point: a quotient by zero is the end of the range on the
//! side of the dividend's sign.

use vstd::prelude::*;
use vstd::arithmetic::div_mod::{lemma_fundamental_div_mod, lemma_fundamental_div_mod_converse};

verus! {

/// The fixed-point representation of one.
pub const UNIT: i64 = 1_000_000;

/// `v` clamped into the range of `i64`.
pub open spec fn saturate(v: int) -> int {
    if v < i64::MIN {
        i64::MIN as int
    } else if v > i64::MAX {
        i64::MAX as int
    } else {
        v
    }
}

/// Sum of two fixed-point numbers.
pub open spec fn spec_add(a: int, b: int) -> int {
    saturate(a + b)
}

/// Difference of two fixed-point numbers.
pub open spec fn spec_sub(a: int, b: int) -> int {
    saturate(a - b)
}

/// Product of two fixed-point numbers: the exact product, rounded down to a
/// whole step.
pub open spec fn spec_mul(a: int, b: int) -> int {
    saturate((a * b) / (UNIT as int))
}

/// The largest integer that is at most `n / d`, for `d != 0`.
pub open spec fn floor_quotient(n: int, d: int) -> int {
    if d > 0 {
        n / d
    } else {
        (-n) / (-d)
    }
}

/// Quotient of two fixed-point numbers: the exact quotient, rounded down to
/// a whole step. A quotient by zero is the end of the range that the sign of
/// `a` points to, and zero for `a == 0`.
pub open spec fn spec_div(a: int, b: int) -> int {
    if b == 0 {
        if a > 0 {
            i64::MAX as int
        } else if a < 0 {
            i64::MIN as int
        } else {
            0
        }
    } else {
        saturate(floor_quotient(a * (UNIT as int), b))
    }
}

/// A whole number `count` of steps of length `step`.
pub open spec fn spec_times_count(step: int, count: int) -> int {
    saturate(step * count)
}

/// `v` held between `lo` and `hi`; `lo` wins where the two cross.
pub open spec fn spec_clamp(v: int, lo: int, hi: int) -> int {
    if v < lo {
        lo
    } else if v > hi {
        hi
    } else {
        v
    }
}

/// Clamps a wide intermediate result into `i64`.
pub fn narrow(v: i128) -> (r: i64)
    ensures
        r == saturate(v as int),
{
    if v < i64::MIN as i128 {
        i64::MIN
    } else if v > i64::MAX as i128 {
        i64::MAX
    } else {
        v as i64
    }
}

/// Saturating sum.
pub fn fx_add(a: i64, b: i64) -> (r: i64)
    ensures
        r == spec_add(a as int, b as int),
{
    let wide: i128 = a as i128 + b as i128;
    narrow(wide)
}

/// Saturating difference.
pub fn fx_sub(a: i64, b: i64) -> (r: i64)
    ensures
        r == spec_sub(a as int, b as int),
{
    let wide: i128 = a as i128 - b as i128;
    narrow(wide)
}

/// The product of two 64-bit numbers stays well inside 128 bits.
proof fn lemma_product_bound(a: int, b: int)
    requires
        -0x8000_0000_0000_0000 <= a <= 0x8000_0000_0000_0000,
        -0x8000_0000_0000_0000 <= b <= 0x8000_0000_0000_0000,
    ensures
        -0x4000_0000_0000_0000_0000_0000_0000_0000 <= a * b
            <= 0x4000_0000_0000_0000_0000_0000_0000_0000,
{
    assert(-0x4000_0000_0000_0000_0000_0000_0000_0000 <= a * b
        <= 0x4000_0000_0000_0000_0000_0000_0000_0000) by (nonlinear_arith)
        requires
            -0x8000_0000_0000_0000 <= a <= 0x8000_0000_0000_0000,
            -0x8000_0000_0000_0000 <= b <= 0x8000_0000_0000_0000,
    ;
}

/// Floor division by a positive divisor.
fn floor_div(n: i128, d: i128) -> (q: i128)
    requires
        d > 0,
        i128::MIN < n,
    ensures
        q == n as int / d as int,
{
    if n >= 0 {
        n / d
    } else {
        let m: i128 = -(n + 1);
        let t: i128 = m / d;
        let rem: i128 = m % d;
        proof {
            let q: int = -(t as int) - 1;
            let r: int = d as int - 1 - rem as int;
            assert(m as int == t as int * d as int + rem as int) by (nonlinear_arith)
                requires
                    m >= 0,
                    d > 0,
                    t as int == m as int / d as int,
                    rem as int == m as int % d as int,
            ;
            assert(n as int == q * d as int + r) by (nonlinear_arith)
                requires
                    n as int == -(m as int) - 1,
                    m as int == t as int * d as int + rem as int,
                    q == -(t as int) - 1,
                    r == d as int - 1 - rem as int,
            ;
            lemma_fundamental_div_mod_converse(n as int, d as int, q, r);
        }
        -t - 1
    }
}

/// Saturating product, rounded down.
pub fn fx_mul(a: i64, b: i64) -> (r: i64)
    ensures
        r == spec_mul(a as int, b as int),
{
    proof {
        lemma_product_bound(a as int, b as int);
    }
    let wide: i128 = a as i128 * b as i128;
    narrow(floor_div(wide, UNIT as i128))
}

/// Saturating quotient, rounded down.
pub fn fx_div(a: i64, b: i64) -> (r: i64)
    ensures
        r == spec_div(a as int, b as int),
{
    if b == 0 {
        if a > 0 {
            i64::MAX
        } else if a < 0 {
            i64::MIN
        } else {
            0
        }
    } else {
        proof {
            lemma_product_bound(a as int, UNIT as int);
        }
        let wide: i128 = a as i128 * UNIT as i128;
        if b > 0 {
            narrow(floor_div(wide, b as i128))
        } else {
            narrow(floor_div(-wide, -(b as i128)))
        }
    }
}

/// `count` steps of length `step`, saturated.
pub fn fx_times_count(step: i64, count: usize) -> (r: i64)
    ensures
        r == spec_times_count(step as int, count as int),
{
    assert(-0x7fff_ffff_ffff_ffff_8000_0000_0000_0000 <= step * count
        <= 0x7fff_ffff_ffff_ffff_0000_0000_0000_0000) by (nonlinear_arith)
        requires
            -0x8000_0000_0000_0000 <= step <= 0x7fff_ffff_ffff_ffff,
            0 <= count <= 0xffff_ffff_ffff_ffff,
    ;
    let wide: i128 = step as i128 * count as i128;
    narrow(wide)
}

/// Rounding down loses less than one divisor: `n / d` is the one integer
/// `q` with `q * d <= n < q * d + d`.
pub proof fn lemma_floor_bounds(n: int, d: int)
    requires
        d > 0,
    ensures
        (n / d) * d <= n < (n / d) * d + d,
{
    lemma_fundamental_div_mod(n, d);
    assert(n == d * (n / d) + n % d);
    assert(0 <= n % d < d);
    assert(d * (n / d) == (n / d) * d) by (nonlinear_arith);
}

/// Scaling by `z / u` and back by `u / z`, each time rounded down, never
/// overshoots and falls short by at most `(u - 1) / z + 1`.
pub proof fn lemma_there_and_back(d: int, z: int, u: int)
    requires
        z > 0,
        u > 0,
    ensures
        d - ((u - 1) / z + 1) <= ((d * z) / u * u) / z <= d,
{
    let s: int = (d * z) / u;
    let q: int = (s * u) / z;
    let k: int = (u - 1) / z + 1;
    lemma_floor_bounds(d * z, u);
    lemma_floor_bounds(s * u, z);
    lemma_floor_bounds(u - 1, z);
    assert(k * z >= u) by (nonlinear_arith)
        requires
            u - 1 < ((u - 1) / z) * z + z,
            k == (u - 1) / z + 1,
    ;
    assert(q <= d) by (nonlinear_arith)
        requires
            q * z <= s * u,
            s * u <= d * z,
            z > 0,
    ;
    assert(q >= d - k) by (nonlinear_arith)
        requires
            s * u < q * z + z,
            d * z < s * u + u,
            k * z >= u,
            z > 0,
    ;
}

/// `v` held between `lo` and `hi`.
pub fn fx_clamp(v: i64, lo: i64, hi: i64) -> (r: i64)
    ensures
        r == spec_clamp(v as int, lo as int, hi as int),
{
    if v < lo {
        lo
    } else if v > hi {
        hi
    } else {
        v
    }
}

} // verus!

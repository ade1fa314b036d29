//! Fixed-point arithmetic on `i64` values scaled by one million.
//!
//! A real quantity `x` is represented by the integer `x * 1_000_000`
//! rounded toward minus infinity.  All products are divided back by the
//! scale with floor semantics, so every operation is an exact function
//! of its integer arguments.

use vstd::prelude::*;

verus! {

use vstd::arithmetic::div_mod::lemma_div_is_ordered;
use vstd::arithmetic::div_mod::lemma_div_multiples_vanish;
use vstd::arithmetic::div_mod::lemma_fundamental_div_mod;
use vstd::arithmetic::div_mod::lemma_fundamental_div_mod_converse;

/// Number of fixed-point units in one real unit.
pub const SCALE: i64 = 1_000_000;

/// Floor of `p / d` as mathematical integers.
pub open spec fn floor_div(p: int, d: int) -> int {
    p / d
}

/// Fixed-point product: floor of `a * b / SCALE`.
pub open spec fn scale_mul_spec(a: int, b: int) -> int {
    (a * b) / (SCALE as int)
}

/// Smaller of two integers.
pub open spec fn min_int(a: int, b: int) -> int {
    if a <= b {
        a
    } else {
        b
    }
}

/// Magnitude of an integer.
pub open spec fn abs_int(a: int) -> int {
    if a >= 0 {
        a
    } else {
        -a
    }
}

/// A dividend within `m` divisor units stays within `m` after the
/// division.
pub proof fn lemma_floor_div_bound_by(p: int, d: int, m: int)
    requires
        0 < d,
        0 <= m,
        abs_int(p) <= m * d,
    ensures
        abs_int(floor_div(p, d)) <= m,
{
    lemma_div_is_ordered(p, m * d, d);
    lemma_div_is_ordered(-(m * d), p, d);
    assert(m * d == d * m) by (nonlinear_arith);
    lemma_div_multiples_vanish(m, d);
    assert(-(m * d) == d * (-m)) by (nonlinear_arith);
    lemma_div_multiples_vanish(-m, d);
}

/// A dividend within `m` scale units stays within `m` after scaling
/// down.
pub proof fn lemma_floor_div_bound(p: int, m: int)
    requires
        0 <= m,
        abs_int(p) <= m * (SCALE as int),
    ensures
        abs_int(floor_div(p, SCALE as int)) <= m,
{
    lemma_floor_div_bound_by(p, SCALE as int, m);
}

/// A fixed-point product of factors whose plain product is within `m`
/// scale units is itself within `m`.
pub proof fn lemma_scale_mul_bound(a: int, b: int, m: int)
    requires
        0 <= m,
        abs_int(a * b) <= m * (SCALE as int),
    ensures
        abs_int(scale_mul_spec(a, b)) <= m,
{
    lemma_floor_div_bound(a * b, m);
}

/// Floor division of a possibly negative dividend by a small positive
/// divisor, carried out on unsigned magnitudes.
pub fn div_floor(p: i64, d: i64) -> (r: i64)
    requires
        0 < d <= SCALE,
        p > i64::MIN,
    ensures
        r == floor_div(p as int, d as int),
{
    if p >= 0 {
        let q: u64 = (p as u64) / (d as u64);
        q as i64
    } else {
        let m: u64 = (-p) as u64;
        let du: u64 = d as u64;
        let q: u64 = (m + (du - 1)) / du;
        proof {
            let mi = m as int;
            let di = d as int;
            let qi = (mi + di - 1) / di;
            lemma_fundamental_div_mod(mi + di - 1, di);
            let ri = (mi + di - 1) % di;
            // mi + di - 1 == di * qi + ri, so -mi == -qi * di + (di - 1 - ri).
            assert(-mi == (-qi) * di + (di - 1 - ri)) by (nonlinear_arith)
                requires
                    mi + di - 1 == di * qi + ri,
            ;
            lemma_fundamental_div_mod_converse(-mi, di, -qi, di - 1 - ri);
            // qi is at most mi, so the negated quotient fits in i64.
            assert((mi + 1) * di - 1 == di * mi + (di - 1)) by (nonlinear_arith);
            lemma_fundamental_div_mod_converse((mi + 1) * di - 1, di, mi, di - 1);
            assert(mi + di - 1 <= (mi + 1) * di - 1) by (nonlinear_arith)
                requires
                    mi >= 0 && di >= 1,
            ;
            lemma_div_is_ordered(mi + di - 1, (mi + 1) * di - 1, di);
            assert(qi <= mi);
        }
        -(q as i64)
    }
}

/// Fixed-point multiplication with floor rounding.
pub fn scale_mul(a: i64, b: i64) -> (r: i64)
    requires
        a > i64::MIN,
        b > i64::MIN,
        abs_int(a as int) * abs_int(b as int) < i64::MAX,
    ensures
        r == scale_mul_spec(a as int, b as int),
{
    proof {
        assert(abs_int((a as int) * (b as int)) <= abs_int(a as int) * abs_int(b as int))
            by (nonlinear_arith);
    }
    let p: i64 = a * b;
    div_floor(p, SCALE)
}

} // verus!

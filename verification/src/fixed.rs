//! Fixed-point scalar arithmetic. Every world quantity in this crate is an
//! `i64` counted in thousandths of a unit ("milli"). The product of two such
//! quantities is rescaled by 1000 with rounding toward zero.

use vstd::prelude::*;
use vstd::arithmetic::div_mod::{lemma_div_is_ordered, lemma_div_pos_is_pos};

verus! {

/// Division of a raw product by the fixed-point base, rounding toward zero.
pub open spec fn milli_quot(p: int) -> int {
    if p >= 0 {
        p / 1000
    } else {
        -((-p) / 1000)
    }
}

/// The fixed-point product of two milli-scaled quantities.
pub open spec fn milli_mul(a: int, b: int) -> int {
    milli_quot(a * b)
}

/// Magnitude of a scalar.
pub open spec fn mag(x: int) -> int {
    if x >= 0 {
        x
    } else {
        -x
    }
}

/// The side a separation points to; a zero separation counts as forward, so
/// that a resolved collision axis always lands on a boundary, never inside.
pub open spec fn sign_of(x: int) -> int {
    if x >= 0 {
        1
    } else {
        -1
    }
}

/// A value forced into a closed interval.
pub open spec fn clamped(x: int, lo: int, hi: int) -> int {
    if x < lo {
        lo
    } else if x > hi {
        hi
    } else {
        x
    }
}

pub proof fn lemma_milli_quot_bounds(p: int, cap: int)
    requires
        -cap <= p <= cap,
        0 <= cap,
    ensures
        -milli_quot(cap) <= milli_quot(p) <= milli_quot(cap),
        mag(milli_quot(p)) <= mag(p),
{
    if p >= 0 {
        lemma_div_is_ordered(p, cap, 1000);
        lemma_div_pos_is_pos(p, 1000);
        assert(p / 1000 <= p) by (nonlinear_arith)
            requires p >= 0;
    } else {
        lemma_div_is_ordered(-p, cap, 1000);
        lemma_div_pos_is_pos(-p, 1000);
        assert((-p) / 1000 <= -p) by (nonlinear_arith)
            requires -p >= 0;
    }
}

pub proof fn lemma_product_cap(a: int, b: int, aa: int, bb: int)
    requires
        -aa <= a <= aa,
        -bb <= b <= bb,
    ensures
        -(aa * bb) <= a * b <= aa * bb,
        0 <= aa * bb,
{
    assert(-(aa * bb) <= a * b <= aa * bb) by (nonlinear_arith)
        requires
            -aa <= a <= aa,
            -bb <= b <= bb;
    assert(0 <= aa * bb) by (nonlinear_arith)
        requires 0 <= aa, 0 <= bb;
}

pub proof fn lemma_milli_mul_bound(a: int, b: int, aa: int, bb: int)
    requires
        -aa <= a <= aa,
        -bb <= b <= bb,
    ensures
        -milli_quot(aa * bb) <= milli_mul(a, b) <= milli_quot(aa * bb),
{
    lemma_product_cap(a, b, aa, bb);
    lemma_milli_quot_bounds(a * b, aa * bb);
}

pub proof fn lemma_milli_mul_nonneg(a: int, b: int)
    requires
        0 <= a,
        0 <= b,
    ensures
        0 <= milli_mul(a, b),
{
    assert(0 <= a * b) by (nonlinear_arith)
        requires 0 <= a, 0 <= b;
    lemma_div_pos_is_pos(a * b, 1000);
}

/// The fixed-point product, computed exactly through a widened intermediate.
pub fn milli_product(a: i64, b: i64) -> (r: i64)
    requires
        -9_000_000_000_000_000_000_000 <= a * b <= 9_000_000_000_000_000_000_000,
    ensures
        r == milli_mul(a as int, b as int),
{
    let p: i128 = (a as i128) * (b as i128);
    if p >= 0 {
        proof {
            lemma_div_is_ordered(p as int, 9_000_000_000_000_000_000_000, 1000);
            lemma_div_pos_is_pos(p as int, 1000);
        }
        (p / 1000) as i64
    } else {
        proof {
            lemma_div_is_ordered(-p as int, 9_000_000_000_000_000_000_000, 1000);
            lemma_div_pos_is_pos(-p as int, 1000);
        }
        (-((-p) / 1000)) as i64
    }
}

/// Quotient rounding toward zero, as a hardware division does.
pub open spec fn quot_toward_zero(a: int, b: int) -> int {
    if a >= 0 {
        a / b
    } else {
        -((-a) / b)
    }
}

/// Division rounding toward zero.
pub fn div_toward_zero(a: i64, b: i64) -> (r: i64)
    requires
        0 < b,
        i64::MIN < a,
    ensures
        r == quot_toward_zero(a as int, b as int),
        mag(r as int) <= mag(a as int),
{
    if a >= 0 {
        proof {
            lemma_div_pos_is_pos(a as int, b as int);
            lemma_div_is_ordered_by_denominator_local(a as int, b as int);
        }
        a / b
    } else {
        proof {
            lemma_div_pos_is_pos(-a as int, b as int);
            lemma_div_is_ordered_by_denominator_local(-a as int, b as int);
        }
        -((-a) / b)
    }
}

proof fn lemma_div_is_ordered_by_denominator_local(x: int, d: int)
    requires
        0 <= x,
        0 < d,
    ensures
        x / d <= x,
{
    if d == 1 {
        vstd::arithmetic::div_mod::lemma_div_basics(x);
    } else {
        vstd::arithmetic::div_mod::lemma_div_is_ordered_by_denominator(x, 1, d);
        vstd::arithmetic::div_mod::lemma_div_basics(x);
    }
}

/// A product rescaled by an arbitrary positive divisor, rounding toward
/// zero; used for aspect-ratio arithmetic on pixel sizes.
pub fn mul_div(a: i64, b: i64, c: i64) -> (r: i64)
    requires
        0 < c,
        -9_000_000_000_000_000_000 <= a * b <= 9_000_000_000_000_000_000,
    ensures
        r == quot_toward_zero(a * b, c as int),
{
    let p: i128 = (a as i128) * (b as i128);
    if p >= 0 {
        proof {
            lemma_div_pos_is_pos(p as int, c as int);
            lemma_div_is_ordered_by_denominator_local(p as int, c as int);
        }
        (p / (c as i128)) as i64
    } else {
        proof {
            lemma_div_pos_is_pos(-p as int, c as int);
            lemma_div_is_ordered_by_denominator_local(-p as int, c as int);
        }
        (-((-p) / (c as i128))) as i64
    }
}

/// Magnitude of a scalar.
pub fn magnitude(x: i64) -> (r: i64)
    requires
        x != i64::MIN,
    ensures
        r == mag(x as int),
{
    if x >= 0 {
        x
    } else {
        -x
    }
}

/// A value forced into a closed interval.
pub fn clamp_to(x: i64, lo: i64, hi: i64) -> (r: i64)
    requires
        lo <= hi,
    ensures
        r == clamped(x as int, lo as int, hi as int),
{
    if x < lo {
        lo
    } else if x > hi {
        hi
    } else {
        x
    }
}

/// A value forced into the symmetric interval `[-limit, limit]`.
pub fn clamp_magnitude(x: i64, limit: i64) -> (r: i64)
    requires
        0 <= limit,
    ensures
        r == clamped(x as int, -limit as int, limit as int),
{
    clamp_to(x, -limit, limit)
}

/// Whether `w` is the floor square root of `n`.
pub open spec fn is_floor_sqrt(n: int, w: int) -> bool {
    0 <= w && w * w <= n && n < (w + 1) * (w + 1)
}

/// The floor square root of a nonnegative number.
pub open spec fn floor_sqrt(n: int) -> int {
    choose|w: int| is_floor_sqrt(n, w)
}

pub proof fn lemma_floor_sqrt_is(n: int, r: int)
    requires
        is_floor_sqrt(n, r),
    ensures
        floor_sqrt(n) == r,
{
    assert(exists|w: int| is_floor_sqrt(n, w));
    let w: int = floor_sqrt(n);
    assert(is_floor_sqrt(n, w));
    assert(w == r) by (nonlinear_arith)
        requires
            0 <= w,
            0 <= r,
            w * w <= n,
            n < (w + 1) * (w + 1),
            r * r <= n,
            n < (r + 1) * (r + 1);
}

/// Floor square root, for speeds read off a velocity vector.
pub fn isqrt(n: u64) -> (r: u64)
    requires
        n <= 4_000_000_000,
    ensures
        r * r <= n < (r + 1) * (r + 1),
        r == floor_sqrt(n as int),
        r <= 65_535,
{
    let mut r: u64 = 0;
    while (r + 1) * (r + 1) <= n
        invariant
            r * r <= n,
            n <= 4_000_000_000,
            r <= 65_535,
            (r + 1) * (r + 1) <= 8_000_000_000,
        decreases n - r * r,
    {
        proof {
            assert((r + 1) * (r + 1) > r * r) by (nonlinear_arith);
            assert(r + 1 <= 65_535) by (nonlinear_arith)
                requires (r + 1) * (r + 1) <= 4_000_000_000;
            assert((r + 2) * (r + 2) <= 8_000_000_000) by (nonlinear_arith)
                requires r + 1 <= 65_535;
        }
        r = r + 1;
    }
    proof {
        lemma_floor_sqrt_is(n as int, r as int);
    }
    r
}

/// A nonnegative phase reduced modulo one full cycle (1000 milli).
pub fn wrap_cycle(phase: i64) -> (r: i64)
    requires
        0 <= phase,
    ensures
        r == phase as int % 1000,
        0 <= r < 1000,
{
    let mut p: i64 = phase;
    while p >= 1000
        invariant
            0 <= p,
            p % 1000 == phase as int % 1000,
        decreases p,
    {
        proof {
            vstd::arithmetic::div_mod::lemma_mod_sub_multiples_vanish(p as int, 1000);
        }
        p = p - 1000;
    }
    proof {
        vstd::arithmetic::div_mod::lemma_small_mod(p as nat, 1000);
    }
    p
}

} // verus!

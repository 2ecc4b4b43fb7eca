//! Fixed-point scalar arithmetic.
//!
//! A scalar is an `i64` counting 1/256ths of a unit, so the value `1.0` is
//! [`FX_ONE`]. Angles are fixed-point radians on the same scale; [`FX_TAU`]
//! is one full turn, rounded so that a quarter turn [`FX_HALF_PI`] is exact.
//! All divisions round toward negative infinity (floor), which is the
//! convention every contract in this crate states results in.

use vstd::prelude::*;

verus! {

/// The fixed-point representation of 1.0.
pub const FX_ONE: i64 = 256;

/// A quarter turn (pi/2) in fixed-point radians.
pub const FX_HALF_PI: i64 = 402;

/// A full turn (2 pi) in fixed-point radians; exactly four quarter turns.
pub const FX_TAU: i64 = 1608;

/// The product of two fixed-point scalars, floor-scaled back down.
pub open spec fn fx_mul_spec(a: int, b: int) -> int {
    (a * b) / (FX_ONE as int)
}

/// Magnitude bound on a product, from magnitude bounds on the factors.
pub proof fn lemma_mul_bound(a: int, b: int, ab: int, bb: int)
    by (nonlinear_arith)
    requires
        -ab <= a <= ab,
        -bb <= b <= bb,
        0 <= ab,
        0 <= bb,
    ensures
        -(ab * bb) <= a * b <= ab * bb,
{
}

/// Magnitude bound on a floor quotient, from a magnitude bound on the
/// dividend: the quotient of anything in `[-b, b]` by `d > 0` lies in
/// `[-(b/d) - 1, b/d]`.
pub proof fn lemma_div_bound(n: int, b: int, d: int)
    requires
        d > 0,
        0 <= b,
        -b <= n <= b,
    ensures
        -(b / d) - 1 <= n / d <= b / d,
{
    vstd::arithmetic::div_mod::lemma_div_is_ordered(n, b, d);
    vstd::arithmetic::div_mod::lemma_div_is_ordered(-b, n, d);
    vstd::arithmetic::div_mod::lemma_fundamental_div_mod(b, d);
    if b % d == 0 {
        assert(-b == (-(b / d)) * d + 0) by (nonlinear_arith)
            requires
                b == d * (b / d),
        ;
        vstd::arithmetic::div_mod::lemma_fundamental_div_mod_converse(-b, d, -(b / d), 0);
    } else {
        assert(-b == (-(b / d) - 1) * d + (d - b % d)) by (nonlinear_arith)
            requires
                b == d * (b / d) + b % d,
        ;
        vstd::arithmetic::div_mod::lemma_fundamental_div_mod_converse(
            -b,
            d,
            -(b / d) - 1,
            d - b % d,
        );
    }
}

/// Floor division of an `i64` by a positive divisor.
pub fn floor_div_i64(n: i64, d: i64) -> (q: i64)
    requires
        d > 0,
        n > i64::MIN,
    ensures
        q == n as int / d as int,
{
    if n >= 0 {
        let q: u64 = (n as u64) / (d as u64);
        proof {
            vstd::arithmetic::div_mod::lemma_div_nonincreasing(n as int, d as int);
            vstd::arithmetic::div_mod::lemma_div_pos_is_pos(n as int, d as int);
        }
        q as i64
    } else {
        let m: u64 = (-n) as u64;
        let q: u64 = (m + (d as u64) - 1) / (d as u64);
        proof {
            let mm = m as int;
            let dd = d as int;
            let qq = q as int;
            vstd::arithmetic::div_mod::lemma_fundamental_div_mod(mm + dd - 1, dd);
            vstd::arithmetic::div_mod::lemma_mod_bound(mm + dd - 1, dd);
            let r = (mm + dd - 1) % dd;
            assert(n as int == (-qq) * dd + (dd - 1 - r)) by (nonlinear_arith)
                requires
                    mm + dd - 1 == dd * qq + r,
                    n as int == -mm,
            ;
            vstd::arithmetic::div_mod::lemma_fundamental_div_mod_converse(
                n as int,
                dd,
                -qq,
                dd - 1 - r,
            );
            assert(qq <= mm) by (nonlinear_arith)
                requires
                    dd * qq <= mm + dd - 1,
                    dd >= 1,
                    mm >= 1,
            ;
            vstd::arithmetic::div_mod::lemma_div_pos_is_pos(mm + dd - 1, dd);
        }
        -(q as i64)
    }
}

/// Floor remainder of an `i64` by a positive divisor; the result is always
/// in `[0, d)`.
pub fn floor_mod_i64(n: i64, d: i64) -> (r: i64)
    requires
        0 < d <= 0x4000_0000_0000_0000,
        -0x4000_0000_0000_0000 <= n <= 0x4000_0000_0000_0000,
    ensures
        r == n as int % d as int,
        0 <= r < d,
{
    let q = floor_div_i64(n, d);
    proof {
        vstd::arithmetic::div_mod::lemma_fundamental_div_mod(n as int, d as int);
        vstd::arithmetic::div_mod::lemma_mod_bound(n as int, d as int);
        assert(d as int * (n as int / d as int) == q as int * d as int) by (nonlinear_arith)
            requires
                q as int == n as int / d as int,
        ;
    }
    n - q * d
}

/// Floor division of an `i128` by a positive divisor; wide enough for the
/// products the matrix and rasterizer stages accumulate.
pub fn floor_div_i128(n: i128, d: i128) -> (q: i128)
    requires
        0 < d <= 0x4000_0000_0000_0000_0000_0000_0000_0000,
        -0x4000_0000_0000_0000_0000_0000_0000_0000 <= n
            <= 0x4000_0000_0000_0000_0000_0000_0000_0000,
    ensures
        q == n as int / d as int,
{
    if n >= 0 {
        let q: u128 = (n as u128) / (d as u128);
        proof {
            vstd::arithmetic::div_mod::lemma_div_nonincreasing(n as int, d as int);
            vstd::arithmetic::div_mod::lemma_div_pos_is_pos(n as int, d as int);
        }
        q as i128
    } else {
        let m: u128 = (-n) as u128;
        let q: u128 = (m + (d as u128) - 1) / (d as u128);
        proof {
            let mm = m as int;
            let dd = d as int;
            let qq = q as int;
            vstd::arithmetic::div_mod::lemma_fundamental_div_mod(mm + dd - 1, dd);
            let r = (mm + dd - 1) % dd;
            assert(n as int == (-qq) * dd + (dd - 1 - r)) by (nonlinear_arith)
                requires
                    mm + dd - 1 == dd * qq + r,
                    n as int == -mm,
            ;
            vstd::arithmetic::div_mod::lemma_fundamental_div_mod_converse(
                n as int,
                dd,
                -qq,
                dd - 1 - r,
            );
            vstd::arithmetic::div_mod::lemma_div_nonincreasing(mm + dd - 1, dd);
            vstd::arithmetic::div_mod::lemma_div_pos_is_pos(mm + dd - 1, dd);
        }
        -(q as i128)
    }
}

/// Scales a wide product back down to fixed point: floor division by
/// [`FX_ONE`], returned as an `i64`.
pub fn scale_down(n: i128) -> (q: i64)
    requires
        -0x7FFF_FFFF_FFFF_FFFF * 256 <= n <= 0x7FFF_FFFF_FFFF_FFFF * 256,
    ensures
        q == n as int / (FX_ONE as int),
{
    let q = floor_div_i128(n, FX_ONE as i128);
    proof {
        lemma_div_bound(n as int, (0x7FFF_FFFF_FFFF_FFFF as int) * 256, 256);
    }
    q as i64
}

/// The fixed-point product of two scalars.
pub fn fx_mul(a: i64, b: i64) -> (r: i64)
    requires
        -0x8_0000_0000 <= a <= 0x8_0000_0000,
        -0x8_0000_0000 <= b <= 0x8_0000_0000,
    ensures
        r == fx_mul_spec(a as int, b as int),
{
    proof {
        lemma_mul_bound(a as int, b as int, 0x8_0000_0000, 0x8_0000_0000);
    }
    scale_down((a as i128) * (b as i128))
}

/// One quarter wave of the sine approximation: a parabola through 0 at
/// `u == 0` and through [`FX_ONE`] at `u == FX_HALF_PI`.
pub open spec fn quarter_wave_spec(u: int) -> int {
    (((u * (2 * (FX_HALF_PI as int) - u)) / (FX_HALF_PI as int)) * (FX_ONE as int)) / (
    FX_HALF_PI as int)
}

/// Fixed-point sine of a fixed-point angle: the angle is reduced to one
/// turn, split into a quadrant and an offset, and the quarter wave is
/// reflected and negated into place.
pub open spec fn fx_sin_spec(a: int) -> int {
    let t = a % (FX_TAU as int);
    let q = t / (FX_HALF_PI as int);
    let u = t % (FX_HALF_PI as int);
    if q == 0 {
        quarter_wave_spec(u)
    } else if q == 1 {
        quarter_wave_spec((FX_HALF_PI as int) - u)
    } else if q == 2 {
        -quarter_wave_spec(u)
    } else {
        -quarter_wave_spec((FX_HALF_PI as int) - u)
    }
}

/// Fixed-point cosine: sine advanced by a quarter turn.
pub open spec fn fx_cos_spec(a: int) -> int {
    fx_sin_spec(a + (FX_HALF_PI as int))
}

fn quarter_wave(u: i64) -> (r: i64)
    requires
        0 <= u <= 402,
    ensures
        r == quarter_wave_spec(u as int),
        0 <= r <= FX_ONE,
        u == 0 ==> r == 0,
        u == 402 ==> r == FX_ONE,
{
    proof {
        assert(0 <= u * (2 * 402 - u) <= 402 * 402) by (nonlinear_arith)
            requires
                0 <= u <= 402,
        ;
    }
    let n = u * (2 * FX_HALF_PI - u);
    let n1 = floor_div_i64(n, FX_HALF_PI);
    proof {
        lemma_div_bound(n as int, 402int * 402, 402);
        vstd::arithmetic::div_mod::lemma_div_pos_is_pos(n as int, 402);
        vstd::arithmetic::div_mod::lemma_div_is_ordered(
            n1 as int * 256,
            402int * 256,
            402,
        );
        vstd::arithmetic::div_mod::lemma_div_pos_is_pos(n1 as int * 256, 402);
    }
    floor_div_i64(n1 * FX_ONE, FX_HALF_PI)
}

/// Fixed-point sine of a fixed-point angle; always within one unit of
/// magnitude, and exactly zero at angle zero.
pub fn fx_sin(a: i64) -> (r: i64)
    requires
        -0x3FFF_FFFF_FFFF_F000 <= a <= 0x3FFF_FFFF_FFFF_F000,
    ensures
        r == fx_sin_spec(a as int),
        -FX_ONE <= r <= FX_ONE,
        a == 0 ==> r == 0,
{
    let t = floor_mod_i64(a, FX_TAU);
    let q = floor_div_i64(t, FX_HALF_PI);
    let u = floor_mod_i64(t, FX_HALF_PI);
    if q == 0 {
        quarter_wave(u)
    } else if q == 1 {
        quarter_wave(FX_HALF_PI - u)
    } else if q == 2 {
        -quarter_wave(u)
    } else {
        -quarter_wave(FX_HALF_PI - u)
    }
}

/// Fixed-point cosine of a fixed-point angle; always within one unit of
/// magnitude, and exactly one at angle zero.
pub fn fx_cos(a: i64) -> (r: i64)
    requires
        -0x3FFF_FFFF_FFFF_0000 <= a <= 0x3FFF_FFFF_FFFF_0000,
    ensures
        r == fx_cos_spec(a as int),
        -FX_ONE <= r <= FX_ONE,
        a == 0 ==> r == FX_ONE,
{
    proof {
        if a == 0 {
            assert(402int % 1608 == 402);
            assert(402int / 402 == 1);
            assert(402int % 402 == 0);
            assert(quarter_wave_spec(402) == 256);
        }
    }
    fx_sin(a + FX_HALF_PI)
}

/// The sine and cosine of an angle, as one pair.
pub fn fx_sin_cos(a: i64) -> (r: (i64, i64))
    requires
        -0x3FFF_FFFF_FFFF_0000 <= a <= 0x3FFF_FFFF_FFFF_0000,
    ensures
        r.0 == fx_sin_spec(a as int),
        r.1 == fx_cos_spec(a as int),
        -FX_ONE <= r.0 <= FX_ONE,
        -FX_ONE <= r.1 <= FX_ONE,
        a == 0 ==> r.0 == 0 && r.1 == FX_ONE,
{
    (fx_sin(a), fx_cos(a))
}

} // verus!

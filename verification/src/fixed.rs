//! Saturating fixed-point scalar arithmetic.
//!
//! Every scalar of the simulation (velocity, pressure, cell size, time step)
//! is an `i64` holding a fixed-point number with `SCALE` as the unit: the
//! integer `x` stands for the real number `x / SCALE`. All operations round
//! toward negative infinity and saturate at `±SAT_LIMIT`, so they are total
//! on in-range operands and never overflow. The spec functions below define
//! the arithmetic exactly; the executable functions are proved to implement
//! them.

use vstd::prelude::*;

verus! {

/// The fixed-point unit: the integer standing for the real number 1.
pub const SCALE: i64 = 65536;

/// The integer standing for the real number 1/2.
pub const HALF_SCALE: i64 = 32768;

/// Magnitude at which every operation saturates.
pub const SAT_LIMIT: i64 = 0x4000_0000_0000_0000;

/// A scalar the arithmetic can hold without saturating further.
pub open spec fn in_range(x: int) -> bool {
    -SAT_LIMIT <= x <= SAT_LIMIT
}

/// Clamp an unbounded result into the representable range.
pub open spec fn sat_i(x: int) -> int {
    if x > SAT_LIMIT as int {
        SAT_LIMIT as int
    } else if x < -(SAT_LIMIT as int) {
        -(SAT_LIMIT as int)
    } else {
        x
    }
}

/// Saturating fixed-point addition.
pub open spec fn spec_fp_add(a: int, b: int) -> int {
    sat_i(a + b)
}

/// Saturating fixed-point subtraction.
pub open spec fn spec_fp_sub(a: int, b: int) -> int {
    sat_i(a - b)
}

/// Saturating fixed-point multiplication, rounding toward negative infinity.
pub open spec fn spec_fp_mul(a: int, b: int) -> int {
    sat_i((a * b) / (SCALE as int))
}

/// Saturating fixed-point division by a positive scalar, rounding toward
/// negative infinity.
pub open spec fn spec_fp_div(a: int, b: int) -> int
    recommends
        b > 0,
{
    sat_i((a * SCALE) / b)
}

/// Division of a fixed-point scalar by a plain positive integer, rounding
/// toward negative infinity.
pub open spec fn spec_div_int(a: int, b: int) -> int
    recommends
        b > 0,
{
    a / b
}

/// The whole number of grid cells below a fixed-point coordinate.
pub open spec fn spec_fp_floor(a: int) -> int {
    a / (SCALE as int)
}

/// The fractional part of a fixed-point coordinate, in `[0, SCALE)`.
pub open spec fn spec_fp_frac(a: int) -> int {
    a % (SCALE as int)
}

/// Product bound: factors bounded in magnitude give a bounded product.
pub proof fn lemma_mul_magnitude(a: int, b: int, ba: int, bb: int)
    requires
        -ba <= a <= ba,
        -bb <= b <= bb,
        0 <= ba,
        0 <= bb,
    ensures
        -(ba * bb) <= a * b <= ba * bb,
{
    assert(-(ba * bb) <= a * b <= ba * bb) by (nonlinear_arith)
        requires
            -ba <= a <= ba,
            -bb <= b <= bb,
            0 <= ba,
            0 <= bb,
    ;
}

/// Flooring division shrinks magnitude when the divisor is at least one:
/// the quotient stays within the bound of the dividend.
pub proof fn lemma_div_magnitude(a: int, b: int, ba: int)
    requires
        -ba <= a <= ba,
        0 <= ba,
        b >= 1,
    ensures
        -ba <= a / b <= ba,
{
    assert(-ba <= a / b <= ba) by (nonlinear_arith)
        requires
            -ba <= a <= ba,
            0 <= ba,
            b >= 1,
    ;
}

/// A Euclidean quotient-remainder decomposition with a remainder in
/// `[0, divisor)` is the one that `/` and `%` denote.
pub proof fn lemma_euclid_unique(a: int, b: int, x: int, y: int)
    requires
        b > 0,
        a == b * x + y,
        0 <= y < b,
    ensures
        x == a / b,
        y == a % b,
{
    vstd::arithmetic::div_mod::lemma_fundamental_div_mod(a, b);
    let q = a / b;
    let r = a % b;
    assert(x == q && y == r) by (nonlinear_arith)
        requires
            b > 0,
            b * x + y == b * q + r,
            0 <= y < b,
            0 <= r < b,
    ;
}

/// Zero divided by a positive integer is zero.
pub proof fn lemma_div_zero(d: int)
    requires
        d > 0,
    ensures
        0int / d == 0,
{
    broadcast use vstd::arithmetic::mul::lemma_mul_by_zero_is_zero;

    lemma_euclid_unique(0, d, 0, 0);
}

/// A zero factor annihilates a fixed-point product, and a zero numerator a
/// fixed-point quotient.
pub proof fn lemma_fp_zero(a: int, b: int)
    requires
        b > 0,
    ensures
        spec_fp_mul(a, 0) == 0,
        spec_fp_mul(0, a) == 0,
        spec_fp_div(0, b) == 0,
{
    broadcast use vstd::arithmetic::mul::lemma_mul_by_zero_is_zero;

    lemma_div_zero(SCALE as int);
    lemma_div_zero(b);
}

/// Saturate an intermediate result into an `i64` scalar.
pub fn sat64(x: i128) -> (r: i64)
    ensures
        r as int == sat_i(x as int),
        in_range(r as int),
{
    if x > SAT_LIMIT as i128 {
        SAT_LIMIT
    } else if x < -(SAT_LIMIT as i128) {
        -SAT_LIMIT
    } else {
        x as i64
    }
}

/// Flooring division on wide intermediates; the divisor must be positive.
pub fn floor_div_i128(a: i128, b: i128) -> (q: i128)
    requires
        b > 0,
        a > i128::MIN,
    ensures
        q == a as int / b as int,
{
    let t = a / b;
    let r = a % b;
    proof {
        let ai = a as int;
        let bi = b as int;
        if ai >= 0 {
            assert(t == ai / bi);
            assert(r == ai % bi);
            vstd::arithmetic::div_mod::lemma_fundamental_div_mod(ai, bi);
        } else {
            let n = -ai;
            assert(t == -(n / bi));
            assert(r == -(n % bi));
            vstd::arithmetic::div_mod::lemma_fundamental_div_mod(n, bi);
            if n % bi == 0 {
                assert(ai == bi * -(n / bi) + 0) by (nonlinear_arith)
                    requires
                        n == bi * (n / bi) + n % bi,
                        n % bi == 0,
                        ai == -n,
                ;
                lemma_euclid_unique(ai, bi, -(n / bi), 0);
            } else {
                assert(ai == bi * (-(n / bi) - 1) + (bi - n % bi)) by (nonlinear_arith)
                    requires
                        n == bi * (n / bi) + n % bi,
                        ai == -n,
                ;
                lemma_euclid_unique(ai, bi, -(n / bi) - 1, bi - n % bi);
            }
        }
    }
    if r < 0 {
        t - 1
    } else {
        t
    }
}

/// Saturating fixed-point addition.
pub fn fp_add(a: i64, b: i64) -> (r: i64)
    requires
        in_range(a as int),
        in_range(b as int),
    ensures
        r as int == spec_fp_add(a as int, b as int),
        in_range(r as int),
{
    sat64(a as i128 + b as i128)
}

/// Saturating fixed-point subtraction.
pub fn fp_sub(a: i64, b: i64) -> (r: i64)
    requires
        in_range(a as int),
        in_range(b as int),
    ensures
        r as int == spec_fp_sub(a as int, b as int),
        in_range(r as int),
{
    sat64(a as i128 - b as i128)
}

/// Saturating fixed-point multiplication.
pub fn fp_mul(a: i64, b: i64) -> (r: i64)
    requires
        in_range(a as int),
        in_range(b as int),
    ensures
        r as int == spec_fp_mul(a as int, b as int),
        in_range(r as int),
{
    proof {
        lemma_mul_magnitude(a as int, b as int, SAT_LIMIT as int, SAT_LIMIT as int);
    }
    let p = (a as i128) * (b as i128);
    let q = floor_div_i128(p, SCALE as i128);
    sat64(q)
}

/// Saturating fixed-point division by a positive scalar.
pub fn fp_div(a: i64, b: i64) -> (r: i64)
    requires
        in_range(a as int),
        0 < b,
    ensures
        r as int == spec_fp_div(a as int, b as int),
        in_range(r as int),
{
    proof {
        lemma_mul_magnitude(a as int, SCALE as int, SAT_LIMIT as int, SCALE as int);
    }
    let p = (a as i128) * (SCALE as i128);
    let q = floor_div_i128(p, b as i128);
    sat64(q)
}

/// Division of a fixed-point scalar by a plain positive integer.
pub fn div_int(a: i64, b: i64) -> (r: i64)
    requires
        in_range(a as int),
        0 < b,
    ensures
        r as int == spec_div_int(a as int, b as int),
        in_range(r as int),
{
    proof {
        lemma_div_magnitude(a as int, b as int, SAT_LIMIT as int);
    }
    let q = floor_div_i128(a as i128, b as i128);
    q as i64
}

/// The whole number of grid cells below a fixed-point coordinate.
pub fn fp_floor(a: i64) -> (r: i64)
    ensures
        r as int == spec_fp_floor(a as int),
        -0x8000_0000_0000 <= r <= 0x8000_0000_0000,
{
    proof {
        vstd::arithmetic::div_mod::lemma_div_is_ordered(
            i64::MIN as int,
            a as int,
            SCALE as int,
        );
        vstd::arithmetic::div_mod::lemma_div_is_ordered(
            a as int,
            i64::MAX as int,
            SCALE as int,
        );
        assert(i64::MIN as int == SCALE as int * -0x8000_0000_0000 + 0);
        lemma_euclid_unique(i64::MIN as int, SCALE as int, -0x8000_0000_0000, 0);
        assert(i64::MAX as int == SCALE as int * 0x7fff_ffff_ffff + 0xffff);
        lemma_euclid_unique(i64::MAX as int, SCALE as int, 0x7fff_ffff_ffff, 0xffff);
    }
    let q = floor_div_i128(a as i128, SCALE as i128);
    q as i64
}

/// The fractional part of a fixed-point coordinate, in `[0, SCALE)`.
pub fn fp_frac(a: i64) -> (r: i64)
    ensures
        r as int == spec_fp_frac(a as int),
        0 <= r < SCALE,
{
    let t = a % SCALE;
    proof {
        let ai = a as int;
        let s = SCALE as int;
        if ai >= 0 {
            vstd::arithmetic::div_mod::lemma_fundamental_div_mod(ai, s);
        } else {
            let n = -ai;
            assert(t == -(n % s));
            vstd::arithmetic::div_mod::lemma_fundamental_div_mod(n, s);
            if n % s == 0 {
                assert(ai == s * -(n / s) + 0) by (nonlinear_arith)
                    requires
                        n == s * (n / s) + n % s,
                        n % s == 0,
                        ai == -n,
                ;
                lemma_euclid_unique(ai, s, -(n / s), 0);
            } else {
                assert(ai == s * (-(n / s) - 1) + (s - n % s)) by (nonlinear_arith)
                    requires
                        n == s * (n / s) + n % s,
                        ai == -n,
                ;
                lemma_euclid_unique(ai, s, -(n / s) - 1, s - n % s);
            }
        }
    }
    if t < 0 {
        t + SCALE
    } else {
        t
    }
}

} // verus!

//! Fixed-point arithmetic on the inner representation of `FixedU128`.
//!
//! The pool keeps its balances and prices as `FixedU128` values; the library stores
//! their inner `u128` (the value times 10^18) and performs every operation through
//! `sp_arithmetic::FixedU128`.
use sp_arithmetic::FixedU128;
use vstd::arithmetic::div_mod::{
    lemma_div_is_ordered, lemma_fundamental_div_mod, lemma_fundamental_div_mod_converse,
    lemma_mod_pos_bound,
};
use vstd::prelude::*;

verus! {

/// Inner units of one whole `FixedU128` (its `DIV`).
pub const FIXED_DIV: u128 = 1_000_000_000_000_000_000u128;

/// `n / d` rounded to the nearest integer, rounding down when equidistant.
pub open spec fn div_round_half_down(n: int, d: int) -> int {
    n / d + if n % d > d / 2 {
        1int
    } else {
        0int
    }
}

/// Inner value of the product of two fixed-point numbers given by their inner values.
pub open spec fn fixed_mul_spec(a: u128, b: u128) -> int {
    div_round_half_down(a * b, FIXED_DIV as int)
}

/// Inner value of the quotient of two fixed-point numbers given by their inner values.
pub open spec fn fixed_div_spec(a: u128, b: u128) -> int {
    div_round_half_down(a * FIXED_DIV, b as int)
}

/// Inner value of the fixed-point approximation of the rational `n / d`.
pub open spec fn fixed_from_rational_spec(n: u128, d: u128) -> int {
    div_round_half_down(FIXED_DIV * n, d as int)
}

/// Rounding a quotient to the nearest integer keeps the order of the dividends.
pub proof fn lemma_div_round_half_down_monotone(n1: int, n2: int, d: int)
    requires
        0 <= n1 <= n2,
        d > 0,
    ensures
        div_round_half_down(n1, d) <= div_round_half_down(n2, d),
{
    lemma_div_is_ordered(n1, n2, d);
    lemma_fundamental_div_mod(n1, d);
    lemma_fundamental_div_mod(n2, d);
    lemma_mod_pos_bound(n1, d);
    lemma_mod_pos_bound(n2, d);
    if n1 / d == n2 / d {
        assert(n1 % d <= n2 % d);
    }
}

/// The rounded quotient depends only on the ratio: `a1 / d1` and `a2 / d2` round alike
/// when the two fractions are equal.
pub proof fn lemma_div_round_half_down_ratio(a1: int, d1: int, a2: int, d2: int)
    requires
        a1 >= 0,
        a2 >= 0,
        d1 > 0,
        d2 > 0,
        a1 * d2 == a2 * d1,
    ensures
        div_round_half_down(a1, d1) == div_round_half_down(a2, d2),
{
    let q = a1 / d1;
    let r = a1 % d1;
    lemma_fundamental_div_mod(a1, d1);
    lemma_mod_pos_bound(a1, d1);
    let t = a2 - d2 * q;
    assert(d1 * t == r * d2) by (nonlinear_arith)
        requires
            a1 == d1 * q + r,
            a1 * d2 == a2 * d1,
            t == a2 - d2 * q,
    ;
    assert(0 <= t < d2) by (nonlinear_arith)
        requires
            d1 * t == r * d2,
            0 <= r < d1,
            d1 > 0,
            d2 > 0,
    ;
    lemma_fundamental_div_mod_converse(a2, d2, q, t);
    assert(2 * t > d2 <==> 2 * r > d1) by (nonlinear_arith)
        requires
            d1 * t == r * d2,
            d1 > 0,
            d2 > 0,
    ;
}

/// The integer square root: the largest `r` with `r * r <= n`.
pub open spec fn isqrt(n: nat) -> nat
    decreases n,
{
    if n == 0 {
        0
    } else {
        let r = isqrt((n - 1) as nat);
        if (r + 1) * (r + 1) <= n {
            r + 1
        } else {
            r
        }
    }
}

/// Inner value of the square root of the fixed-point number with inner value `v`:
/// `isqrt(v * 10^18)` when that product fits in a `u128`, else `isqrt(v) * 10^9`.
pub open spec fn fixed_sqrt_spec(v: u128) -> nat {
    if v * FIXED_DIV <= u128::MAX {
        isqrt((v * FIXED_DIV) as nat)
    } else {
        isqrt(v as nat) * isqrt(FIXED_DIV as nat)
    }
}

/// `isqrt(n)` is the integer square root of `n`.
pub proof fn lemma_isqrt(n: nat)
    ensures
        isqrt(n) * isqrt(n) <= n,
        n < (isqrt(n) + 1) * (isqrt(n) + 1),
    decreases n,
{
    if n == 0 {
        assert(isqrt(n) == 0);
        assert((isqrt(n) + 1) * (isqrt(n) + 1) == 1) by (nonlinear_arith)
            requires
                isqrt(n) == 0,
        ;
    } else {
        lemma_isqrt((n - 1) as nat);
        let r = isqrt((n - 1) as nat);
        assert(r * r <= n - 1);
        assert(n - 1 < (r + 1) * (r + 1));
        if (r + 1) * (r + 1) <= n {
            assert(isqrt(n) == r + 1);
            assert(n < (isqrt(n) + 1) * (isqrt(n) + 1)) by (nonlinear_arith)
                requires
                    n - 1 < (r + 1) * (r + 1),
                    r >= 0,
                    isqrt(n) == r + 1,
            ;
        } else {
            assert(isqrt(n) == r);
            assert(isqrt(n) * isqrt(n) <= n);
            assert(n < (isqrt(n) + 1) * (isqrt(n) + 1));
        }
    }
}

/// The square root of a positive number is positive.
pub proof fn lemma_isqrt_pos(n: nat)
    requires
        n >= 1,
    ensures
        isqrt(n) >= 1,
{
    lemma_isqrt(n);
    if isqrt(n) == 0 {
        assert((isqrt(n) + 1) * (isqrt(n) + 1) == 1) by (nonlinear_arith)
            requires
                isqrt(n) == 0,
        ;
    }
}

/// The integer square root of `10^18` is `10^9`.
pub proof fn lemma_isqrt_fixed_div()
    ensures
        isqrt(FIXED_DIV as nat) == 1_000_000_000,
{
    let n = FIXED_DIV as nat;
    lemma_isqrt(n);
    let r = isqrt(n);
    if r < 1_000_000_000 {
        assert((r + 1) * (r + 1) <= n) by (nonlinear_arith)
            requires
                0 <= r < 1_000_000_000,
                n == 1_000_000_000_000_000_000,
        ;
    }
    if r > 1_000_000_000 {
        assert(r * r > n) by (nonlinear_arith)
            requires
                r > 1_000_000_000,
                n == 1_000_000_000_000_000_000,
        ;
    }
}

/// The fixed-point square root `m` of `v` is the square root of `v` in fixed point:
/// `m * m <= v * 10^18`, and `v * 10^18 < (m + 1)^2` when that product fits in a `u128`
/// (else, where `v`'s own root is scaled, `v * 10^18 < (m + 10^9)^2`); it fits in a `u128`.
pub proof fn lemma_fixed_sqrt_bounds(v: u128)
    ensures
        ({
            let m = fixed_sqrt_spec(v);
            &&& m <= u128::MAX
            &&& m * m <= v * FIXED_DIV
            &&& v * FIXED_DIV <= u128::MAX ==> v * FIXED_DIV < (m + 1) * (m + 1)
            &&& v * FIXED_DIV > u128::MAX ==> v * FIXED_DIV < (m + 1_000_000_000) * (m
                + 1_000_000_000)
        }),
{
    let d = FIXED_DIV as int;
    if v * FIXED_DIV <= u128::MAX {
        let n = (v * FIXED_DIV) as nat;
        lemma_isqrt(n);
        let r = isqrt(n);
        assert(r <= n) by (nonlinear_arith)
            requires
                r * r <= n,
                r >= 0,
        ;
    } else {
        lemma_isqrt(v as nat);
        lemma_isqrt_fixed_div();
        let r = isqrt(v as nat);
        let g: int = 1_000_000_000;
        assert(r < 0x1_0000_0000_0000_0000) by (nonlinear_arith)
            requires
                r * r <= v,
                v <= u128::MAX,
                r >= 0,
        ;
        assert(fixed_sqrt_spec(v) == r * g);
        assert(r * g <= u128::MAX) by (nonlinear_arith)
            requires
                0 <= r < 0x1_0000_0000_0000_0000,
                g == 1_000_000_000,
        ;
        assert((r * g) * (r * g) <= v * d) by (nonlinear_arith)
            requires
                r * r <= v,
                g * g == d,
                r >= 0,
        ;
        assert(v * d < (r * g + g) * (r * g + g)) by (nonlinear_arith)
            requires
                v < (r + 1) * (r + 1),
                g * g == d,
                g > 0,
                d > 0,
        ;
    }
}

/// The fixed-point square root of a positive value is positive.
pub proof fn lemma_fixed_sqrt_pos(v: u128)
    requires
        v >= 1,
    ensures
        fixed_sqrt_spec(v) >= 1,
{
    if v * FIXED_DIV <= u128::MAX {
        assert(v * FIXED_DIV >= 1) by (nonlinear_arith)
            requires
                v >= 1,
        ;
        lemma_isqrt_pos((v * FIXED_DIV) as nat);
    } else {
        lemma_isqrt_pos(v as nat);
        lemma_isqrt_pos(FIXED_DIV as nat);
        let a = isqrt(v as nat);
        let b = isqrt(FIXED_DIV as nat);
        assert(a * b >= 1) by (nonlinear_arith)
            requires
                a >= 1,
                b >= 1,
        ;
    }
}

/// `FixedU128::add` on inner values: the sum of the inner values.
/// Outside code: `sp_arithmetic::FixedU128::add` (panics when the sum overflows, so the
/// overflow is excluded).
#[verifier::external_body]
pub(crate) fn fixed_add(a: u128, b: u128) -> (r: u128)
    requires
        a + b <= u128::MAX,
    ensures
        r == a + b,
{
    FixedU128::from_inner(a).add(FixedU128::from_inner(b)).into_inner()
}

/// `FixedU128::sub` on inner values: the difference of the inner values.
/// Outside code: `sp_arithmetic::FixedU128::sub` (panics on underflow, so it is excluded).
#[verifier::external_body]
pub(crate) fn fixed_sub(a: u128, b: u128) -> (r: u128)
    requires
        b <= a,
    ensures
        r == a - b,
{
    FixedU128::from_inner(a).sub(FixedU128::from_inner(b)).into_inner()
}

/// `FixedU128::mul` on inner values: `a * b / 10^18`, rounded to the nearest value and
/// down when equidistant.
/// Outside code: `sp_arithmetic::FixedU128::mul` (panics when the result does not fit).
#[verifier::external_body]
pub(crate) fn fixed_mul(a: u128, b: u128) -> (r: u128)
    requires
        fixed_mul_spec(a, b) <= u128::MAX,
    ensures
        r == fixed_mul_spec(a, b),
{
    FixedU128::from_inner(a).mul(FixedU128::from_inner(b)).into_inner()
}

/// `FixedU128::div` on inner values: `a * 10^18 / b`, rounded to the nearest value and
/// down when equidistant.
/// Outside code: `sp_arithmetic::FixedU128::div` (panics on a zero divisor or when the
/// result does not fit).
#[verifier::external_body]
pub(crate) fn fixed_div(a: u128, b: u128) -> (r: u128)
    requires
        b != 0,
        fixed_div_spec(a, b) <= u128::MAX,
    ensures
        r == fixed_div_spec(a, b),
{
    FixedU128::from_inner(a).div(FixedU128::from_inner(b)).into_inner()
}

/// `FixedU128::sqrt` on inner values, as `fixed_sqrt_spec` states.
/// Outside code: `sp_arithmetic::FixedU128::sqrt` (never fails on an unsigned value).
#[verifier::external_body]
pub(crate) fn fixed_sqrt(v: u128) -> (r: u128)
    ensures
        r == fixed_sqrt_spec(v),
{
    FixedU128::from_inner(v).sqrt().into_inner()
}

/// `FixedU128::from_rational(n, d)` as an inner value: `n * 10^18 / d`, rounded to the
/// nearest value and down when equidistant.
/// Outside code: `sp_arithmetic::FixedU128::from_rational` (panics on a zero denominator
/// or when the result does not fit).
#[verifier::external_body]
pub(crate) fn fixed_from_rational(n: u128, d: u128) -> (r: u128)
    requires
        d != 0,
        fixed_from_rational_spec(n, d) <= u128::MAX,
    ensures
        r == fixed_from_rational_spec(n, d),
{
    FixedU128::from_rational(n, d).into_inner()
}

} // verus!

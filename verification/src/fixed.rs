//! Fixed-point scalars: an `i64` value stands for `value / SCALE` world units.
//!
//! Multiplication and division rescale their results and round towards
//! negative infinity; the spec functions [`fmul`], [`fdiv`] and [`sqrt_fx_spec`]
//! say exactly what each executable operation returns.

use vstd::prelude::*;

verus! {

/// Fixed-point steps per world unit.
pub const SCALE: i64 = 10000;

/// Absolute value of a mathematical integer.
pub open spec fn iabs(x: int) -> int {
    if x < 0 {
        -x
    } else {
        x
    }
}

pub open spec fn fits_i64(v: int) -> bool {
    i64::MIN <= v <= i64::MAX
}

/// Fixed-point product, rounded towards negative infinity.
pub open spec fn fmul(a: int, b: int) -> int {
    (a * b) / (SCALE as int)
}

/// Fixed-point quotient, rounded towards negative infinity.
pub open spec fn fdiv(a: int, b: int) -> int
    recommends
        b != 0,
{
    if b > 0 {
        (a * SCALE) / b
    } else {
        ((-a) * SCALE) / (-b)
    }
}

/// Integer square root by unbounded recursion over `n`.
pub open spec fn isqrt_spec(n: nat) -> nat
    decreases n,
{
    if n == 0 {
        0
    } else {
        let r = isqrt_spec((n - 1) as nat);
        if (r + 1) * (r + 1) <= n {
            r + 1
        } else {
            r
        }
    }
}

/// Square root of a non-negative fixed-point scalar, rounded down to a step.
pub open spec fn sqrt_fx_spec(x: int) -> int
    recommends
        0 <= x,
{
    isqrt_spec((x * SCALE) as nat) as int
}

pub proof fn lemma_isqrt_spec_bounds(n: nat)
    ensures
        isqrt_spec(n) * isqrt_spec(n) <= n,
        n < (isqrt_spec(n) + 1) * (isqrt_spec(n) + 1),
    decreases n,
{
    if n == 0 {
        let s = isqrt_spec(n);
        assert(s == 0);
        assert(s * s <= n && n < (s + 1) * (s + 1)) by (nonlinear_arith)
            requires
                s == 0,
                n == 0,
        ;
    } else {
        lemma_isqrt_spec_bounds((n - 1) as nat);
        let r = isqrt_spec((n - 1) as nat);
        assert(r * r <= n - 1);
        assert(n - 1 < (r + 1) * (r + 1));
        if (r + 1) * (r + 1) <= n {
            assert(isqrt_spec(n) == r + 1);
            assert(n < (r + 2) * (r + 2)) by (nonlinear_arith)
                requires
                    n <= (r + 1) * (r + 1),
                    0 <= r,
            ;
            assert(isqrt_spec(n) * isqrt_spec(n) <= n);
            assert(n < (isqrt_spec(n) + 1) * (isqrt_spec(n) + 1));
        } else {
            assert(isqrt_spec(n) == r);
            assert(isqrt_spec(n) * isqrt_spec(n) <= n);
            assert(n < (isqrt_spec(n) + 1) * (isqrt_spec(n) + 1));
        }
    }
}

pub proof fn lemma_isqrt_unique(n: nat, r: nat)
    requires
        r * r <= n,
        n < (r + 1) * (r + 1),
    ensures
        r == isqrt_spec(n),
{
    lemma_isqrt_spec_bounds(n);
    let s = isqrt_spec(n);
    if r < s {
        assert((r + 1) * (r + 1) <= s * s) by (nonlinear_arith)
            requires
                r + 1 <= s,
                0 <= r,
        ;
    }
    if s < r {
        assert((s + 1) * (s + 1) <= r * r) by (nonlinear_arith)
            requires
                s + 1 <= r,
                0 <= s,
        ;
    }
}

/// Products of values within the given magnitudes stay within their product.
pub proof fn lemma_abs_mul(a: int, b: int, aa: int, bb: int)
    requires
        iabs(a) <= aa,
        iabs(b) <= bb,
    ensures
        iabs(a * b) <= aa * bb,
{
    assert(iabs(a * b) <= aa * bb) by (nonlinear_arith)
        requires
            iabs(a) <= aa,
            iabs(b) <= bb,
    ;
}

/// Dividing a negated non-negative numerator floors one step below the negated quotient.
pub proof fn lemma_div_neg(k: int, d: int)
    requires
        0 <= k,
        0 < d,
    ensures
        -(k / d) - 1 <= (-k) / d <= -(k / d),
{
    let q = k / d;
    let r = k % d;
    vstd::arithmetic::div_mod::lemma_fundamental_div_mod(k, d);
    vstd::arithmetic::div_mod::lemma_mod_bound(k, d);
    assert(k == d * q + r);
    if r == 0 {
        assert(-k == (-q) * d + 0) by (nonlinear_arith)
            requires
                k == d * q,
        ;
        vstd::arithmetic::div_mod::lemma_fundamental_div_mod_converse(-k, d, -q, 0);
    } else {
        assert(-k == (-q - 1) * d + (d - r)) by (nonlinear_arith)
            requires
                k == d * q + r,
        ;
        vstd::arithmetic::div_mod::lemma_fundamental_div_mod_converse(-k, d, -q - 1, d - r);
    }
}

/// A floored quotient by a positive divisor stays within the numerator's magnitude.
pub proof fn lemma_div_stays_in_range(p: int, d: int)
    requires
        0 < d,
    ensures
        -iabs(p) - 1 <= p / d <= iabs(p),
{
    let q = p / d;
    let r = p % d;
    vstd::arithmetic::div_mod::lemma_fundamental_div_mod(p, d);
    vstd::arithmetic::div_mod::lemma_mod_bound(p, d);
    assert(-iabs(p) - 1 <= q <= iabs(p)) by (nonlinear_arith)
        requires
            p == d * q + r,
            0 <= r < d,
            q == p / d,
    ;
}

/// Magnitude bound for a fixed-point product.
pub proof fn lemma_fmul_bound(a: int, b: int, m: int)
    requires
        iabs(a * b) <= m,
    ensures
        iabs(fmul(a, b)) <= m / (SCALE as int) + 1,
{
    let s = SCALE as int;
    let p = a * b;
    lemma_div_stays_in_range(p, s);
    if p >= 0 {
        vstd::arithmetic::div_mod::lemma_div_is_ordered(p, m, s);
        vstd::arithmetic::div_mod::lemma_div_pos_is_pos(p, s);
    } else {
        lemma_div_neg(-p, s);
        vstd::arithmetic::div_mod::lemma_div_is_ordered(-p, m, s);
    }
}

/// Magnitude bound for a fixed-point quotient with a divisor of at least one step.
pub proof fn lemma_fdiv_bound(a: int, b: int)
    requires
        b != 0,
    ensures
        iabs(fdiv(a, b)) <= iabs(a) * (SCALE as int) + 1,
{
    lemma_abs_mul(a, SCALE as int, iabs(a), SCALE as int);
    lemma_abs_mul(-a, SCALE as int, iabs(a), SCALE as int);
    if b > 0 {
        lemma_div_stays_in_range(a * SCALE, b);
    } else {
        lemma_div_stays_in_range((-a) * SCALE, -b);
    }
}

/// Floored division distributes super-additively over sums of non-negatives.
pub proof fn lemma_div_plus(a: int, b: int, d: int)
    requires
        0 <= a,
        0 <= b,
        0 < d,
    ensures
        a / d + b / d <= (a + b) / d,
{
    let q1 = a / d;
    let r1 = a % d;
    let q2 = b / d;
    let r2 = b % d;
    vstd::arithmetic::div_mod::lemma_fundamental_div_mod(a, d);
    vstd::arithmetic::div_mod::lemma_fundamental_div_mod(b, d);
    vstd::arithmetic::div_mod::lemma_mod_bound(a, d);
    vstd::arithmetic::div_mod::lemma_mod_bound(b, d);
    if r1 + r2 < d {
        assert(a + b == (q1 + q2) * d + (r1 + r2)) by (nonlinear_arith)
            requires
                a == d * q1 + r1,
                b == d * q2 + r2,
        ;
        vstd::arithmetic::div_mod::lemma_fundamental_div_mod_converse(a + b, d, q1 + q2, r1 + r2);
    } else {
        assert(a + b == (q1 + q2 + 1) * d + (r1 + r2 - d)) by (nonlinear_arith)
            requires
                a == d * q1 + r1,
                b == d * q2 + r2,
        ;
        vstd::arithmetic::div_mod::lemma_fundamental_div_mod_converse(
            a + b,
            d,
            q1 + q2 + 1,
            r1 + r2 - d,
        );
    }
}

/// Blending two scalars with complementary fixed-point weights stays within
/// their common magnitude, up to rounding.
pub proof fn lemma_blend_bound(a: int, b: int, k: int, m: int)
    requires
        iabs(a) <= m,
        iabs(b) <= m,
        0 <= k <= SCALE as int,
        0 <= m,
    ensures
        iabs(fmul(a, SCALE as int - k) + fmul(b, k)) <= m + 2,
        iabs(fmul(a, SCALE as int - k)) <= m + 1,
        iabs(fmul(b, k)) <= m + 1,
{
    let s = SCALE as int;
    lemma_abs_mul(a, s - k, m, s - k);
    lemma_abs_mul(b, k, m, k);
    lemma_fmul_bound(a, s - k, m * (s - k));
    lemma_fmul_bound(b, k, m * k);
    vstd::arithmetic::mul::lemma_mul_nonnegative(m, s - k);
    vstd::arithmetic::mul::lemma_mul_nonnegative(m, k);
    lemma_div_plus(m * (s - k), m * k, s);
    assert(m * (s - k) + m * k == m * s) by (nonlinear_arith);
    vstd::arithmetic::div_mod::lemma_div_multiples_vanish(m, s);
    assert(m * s == s * m) by (nonlinear_arith);
    assert(m * (s - k) <= m * s && m * k <= m * s) by (nonlinear_arith)
        requires
            0 <= m,
            0 <= k <= s,
    ;
    vstd::arithmetic::div_mod::lemma_div_is_ordered(m * (s - k), m * s, s);
    vstd::arithmetic::div_mod::lemma_div_is_ordered(m * k, m * s, s);
}

/// Fixed-point division is ordered with the divisor's sign.
pub proof fn lemma_fdiv_ordered(a1: int, a2: int, d: int)
    requires
        a1 <= a2,
        d != 0,
    ensures
        d > 0 ==> fdiv(a1, d) <= fdiv(a2, d),
        d < 0 ==> fdiv(a2, d) <= fdiv(a1, d),
{
    if d > 0 {
        assert(a1 * SCALE <= a2 * SCALE) by (nonlinear_arith)
            requires
                a1 <= a2,
                SCALE == 10000,
        ;
        vstd::arithmetic::div_mod::lemma_div_is_ordered(a1 * SCALE, a2 * SCALE, d);
    } else {
        assert((-a2) * SCALE <= (-a1) * SCALE) by (nonlinear_arith)
            requires
                a1 <= a2,
                SCALE == 10000,
        ;
        vstd::arithmetic::div_mod::lemma_div_is_ordered((-a2) * SCALE, (-a1) * SCALE, -d);
    }
}

/// The smaller of two mathematical integers.
pub open spec fn imin(a: int, b: int) -> int {
    if a <= b {
        a
    } else {
        b
    }
}

/// The larger of two mathematical integers.
pub open spec fn imax(a: int, b: int) -> int {
    if a >= b {
        a
    } else {
        b
    }
}

/// Multiplying by one whole unit (`SCALE` steps) is exact.
pub proof fn lemma_fmul_one(a: int)
    ensures
        fmul(a, SCALE as int) == a,
        fmul(SCALE as int, a) == a,
{
    vstd::arithmetic::div_mod::lemma_div_multiples_vanish(a, SCALE as int);
    assert(a * (SCALE as int) == (SCALE as int) * a) by (nonlinear_arith);
}

/// Multiplying by zero is exact.
pub proof fn lemma_fmul_zero(a: int)
    ensures
        fmul(a, 0) == 0,
        fmul(0, a) == 0,
{
    assert(a * 0 == 0) by (nonlinear_arith);
    assert(0 * a == 0) by (nonlinear_arith);
    vstd::arithmetic::div_mod::lemma_basic_div(0, SCALE as int);
}

/// Floored division of an `i128` by a positive divisor, exactly as in specifications.
pub fn div_floor_i128(p: i128, d: i128) -> (q: i128)
    requires
        0 < d,
        i128::MIN < p,
    ensures
        q == p as int / d as int,
{
    proof {
        let pi = p as int;
        let di = d as int;
        let qi = pi / di;
        let ri = pi % di;
        vstd::arithmetic::div_mod::lemma_fundamental_div_mod(pi, di);
        vstd::arithmetic::div_mod::lemma_mod_bound(pi, di);
        assert(i128::MIN <= qi <= i128::MAX) by (nonlinear_arith)
            requires
                pi == di * qi + ri,
                0 <= ri < di,
                i128::MIN < pi <= i128::MAX,
                1 <= di,
        ;
    }
    match p.checked_div_euclid(d) {
        Some(q) => q,
        None => {
            proof {
                assert(false);
            }
            0
        },
    }
}

/// Fixed-point product of two scalars; the result must fit a scalar.
pub fn mul_fx(a: i64, b: i64) -> (r: i64)
    requires
        fits_i64(fmul(a as int, b as int)),
    ensures
        r == fmul(a as int, b as int),
{
    proof {
        lemma_abs_mul(a as int, b as int, i64::MAX as int + 1, i64::MAX as int + 1);
    }
    let p: i128 = (a as i128) * (b as i128);
    let q: i128 = div_floor_i128(p, SCALE as i128);
    q as i64
}

/// Fixed-point quotient of two scalars; the result must fit a scalar.
pub fn div_fx(a: i64, b: i64) -> (r: i64)
    requires
        b != 0,
        fits_i64(fdiv(a as int, b as int)),
    ensures
        r == fdiv(a as int, b as int),
{
    proof {
        lemma_abs_mul(a as int, SCALE as int, i64::MAX as int + 1, SCALE as int);
    }
    let p: i128 = (a as i128) * (SCALE as i128);
    if b > 0 {
        div_floor_i128(p, b as i128) as i64
    } else {
        div_floor_i128(-p, -(b as i128)) as i64
    }
}

/// Fixed-point quotient computed at full width; never overflows.
pub fn div_fx_wide(a: i64, b: i64) -> (r: i128)
    requires
        b != 0,
    ensures
        r == fdiv(a as int, b as int),
{
    proof {
        lemma_abs_mul(a as int, SCALE as int, i64::MAX as int + 1, SCALE as int);
        if b > 0 {
            lemma_div_stays_in_range((a as int) * (SCALE as int), b as int);
        } else {
            lemma_div_stays_in_range((-(a as int)) * (SCALE as int), -(b as int));
        }
    }
    let p: i128 = (a as i128) * (SCALE as i128);
    if b > 0 {
        div_floor_i128(p, b as i128)
    } else {
        proof {
            assert(-((a as int) * (SCALE as int)) == (-(a as int)) * (SCALE as int))
                by (nonlinear_arith);
        }
        div_floor_i128(-p, -(b as i128))
    }
}

/// Binary search for the integer square root.
fn isqrt_u128(n: u128) -> (r: u128)
    requires
        n < 0x4000_0000_0000_0000_0000_0000_0000_0000u128,
    ensures
        (r as int) * (r as int) <= n as int,
        (n as int) < (r as int + 1) * (r as int + 1),
{
    let mut lo: u128 = 0;
    let mut hi: u128 = 0x8000_0000_0000_0000u128;
    proof {
        assert((hi as int) * (hi as int) > n as int) by (nonlinear_arith)
            requires
                hi == 0x8000_0000_0000_0000u128,
                n < 0x4000_0000_0000_0000_0000_0000_0000_0000u128,
        ;
    }
    while hi - lo > 1
        invariant
            lo < hi,
            hi <= 0x8000_0000_0000_0000u128,
            (lo as int) * (lo as int) <= n as int,
            (n as int) < (hi as int) * (hi as int),
        decreases hi - lo,
    {
        let mid: u128 = lo + (hi - lo) / 2;
        proof {
            assert((mid as int) * (mid as int) <= u128::MAX as int) by (nonlinear_arith)
                requires
                    mid < 0x8000_0000_0000_0000u128 + 1,
            ;
        }
        let sq: u128 = mid * mid;
        if sq <= n {
            lo = mid;
        } else {
            hi = mid;
        }
    }
    lo
}

/// Square root of a non-negative scalar, rounded down to a fixed-point step.
pub fn sqrt_fx(x: i64) -> (r: i64)
    requires
        0 <= x,
    ensures
        r == sqrt_fx_spec(x as int),
        0 <= r,
{
    proof {
        lemma_abs_mul(x as int, SCALE as int, i64::MAX as int, SCALE as int);
    }
    let n: u128 = (x as u128) * (SCALE as u128);
    let r: u128 = isqrt_u128(n);
    proof {
        lemma_isqrt_unique(n as nat, r as nat);
        assert(r as int <= 304_000_000_000) by (nonlinear_arith)
            requires
                (r as int) * (r as int) <= n as int,
                n as int <= 92_233_720_368_547_758_070_000,
                0 <= r as int,
        ;
    }
    r as i64
}

/// The smaller of two scalars.
pub fn min_fx(a: i64, b: i64) -> (r: i64)
    ensures
        r == if a as int <= b as int {
            a as int
        } else {
            b as int
        },
{
    if a <= b {
        a
    } else {
        b
    }
}

/// The larger of two scalars.
pub fn max_fx(a: i64, b: i64) -> (r: i64)
    ensures
        r == if a as int >= b as int {
            a as int
        } else {
            b as int
        },
{
    if a >= b {
        a
    } else {
        b
    }
}

/// Absolute value of a scalar.
pub fn abs_fx(a: i64) -> (r: i64)
    requires
        i64::MIN < a,
    ensures
        r == iabs(a as int),
{
    if a < 0 {
        -a
    } else {
        a
    }
}

/// Fixed-point power: `base` raised to a whole exponent, one rescaled
/// product per step.
pub open spec fn pow_fx_spec(base: int, e: nat) -> int
    decreases e,
{
    if e == 0 {
        SCALE as int
    } else {
        fmul(base, pow_fx_spec(base, (e - 1) as nat))
    }
}

/// A base within one unit keeps all its powers within one unit.
pub proof fn lemma_pow_fx_range(base: int, e: nat)
    requires
        0 <= base <= SCALE as int,
    ensures
        0 <= pow_fx_spec(base, e) <= SCALE as int,
    decreases e,
{
    if e > 0 {
        lemma_pow_fx_range(base, (e - 1) as nat);
        let p = pow_fx_spec(base, (e - 1) as nat);
        lemma_abs_mul(base, p, SCALE as int, p);
        assert(base * p <= (SCALE as int) * p <= (SCALE as int) * (SCALE as int))
            by (nonlinear_arith)
            requires
                0 <= base <= SCALE as int,
                0 <= p <= SCALE as int,
        ;
        vstd::arithmetic::div_mod::lemma_div_is_ordered(
            base * p,
            (SCALE as int) * (SCALE as int),
            SCALE as int,
        );
        vstd::arithmetic::div_mod::lemma_div_multiples_vanish(SCALE as int, SCALE as int);
        if base * p > 0 {
            vstd::arithmetic::div_mod::lemma_div_pos_is_pos(base * p, SCALE as int);
        } else {
            assert(base * p == 0) by (nonlinear_arith)
                requires
                    0 <= base,
                    0 <= p,
                    base * p <= 0,
            ;
            vstd::arithmetic::div_mod::lemma_basic_div(0, SCALE as int);
        }
    }
}

/// A possibly negative base raised to the exponent: the magnitude's power,
/// negated when the base is negative and the exponent odd.
pub open spec fn pow_fx_signed_spec(base: int, e: nat) -> int {
    if base >= 0 {
        pow_fx_spec(base, e)
    } else if e % 2 == 0 {
        pow_fx_spec(-base, e)
    } else {
        -pow_fx_spec(-base, e)
    }
}

/// `base` raised to the exponent, by repeated fixed-point products.
pub fn pow_fx(base: i64, e: u32) -> (r: i64)
    requires
        0 <= base <= SCALE,
    ensures
        r as int == pow_fx_spec(base as int, e as nat),
        0 <= r <= SCALE,
{
    let mut r: i64 = SCALE;
    let mut k: u32 = 0;
    while k < e
        invariant
            0 <= k <= e,
            0 <= base <= SCALE,
            r as int == pow_fx_spec(base as int, k as nat),
            0 <= r <= SCALE,
        decreases e - k,
    {
        proof {
            lemma_pow_fx_range(base as int, (k + 1) as nat);
            lemma_abs_mul(base as int, r as int, SCALE as int, SCALE as int);
            lemma_fmul_bound(base as int, r as int, (SCALE as int) * (SCALE as int));
        }
        r = mul_fx(base, r);
        k += 1;
    }
    r
}

/// Clamp a scalar into `[lo, hi]`.
pub fn clamp_fx(v: i64, lo: i64, hi: i64) -> (r: i64)
    requires
        lo <= hi,
    ensures
        r == clamp_spec(v as int, lo as int, hi as int),
{
    if v < lo {
        lo
    } else if v > hi {
        hi
    } else {
        v
    }
}

pub open spec fn clamp_spec(v: int, lo: int, hi: int) -> int {
    if v < lo {
        lo
    } else if v > hi {
        hi
    } else {
        v
    }
}

} // verus!

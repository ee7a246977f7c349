//! Fixed-point scalar arithmetic.
//!
//! A scalar is an `i64` holding the real value times `FX_ONE` (2^20).
//! Products and quotients are rescaled with truncation toward zero, the
//! rounding that the magnitude-based executable code below produces.

use vstd::prelude::*;

verus! {

/// Scale of the fixed-point scalars: an `i64` value `v` stands for the
/// real number `v / FX_ONE`.
pub const FX_ONE: i64 = 1048576;

/// Magnitude of an integer.
pub open spec fn iabs(a: int) -> int {
    if a >= 0 {
        a
    } else {
        -a
    }
}

/// Truncated (round-toward-zero) integer division.
pub open spec fn tdiv(a: int, b: int) -> int
    recommends
        b != 0,
{
    if (a >= 0) == (b >= 0) {
        iabs(a) / iabs(b)
    } else {
        -(iabs(a) / iabs(b))
    }
}

/// Fixed-point product: `(a * b) / FX_ONE`, truncated toward zero.
pub open spec fn fxm(a: int, b: int) -> int {
    tdiv(a * b, FX_ONE as int)
}

/// Fixed-point quotient: `(a * FX_ONE) / b`, truncated toward zero.
pub open spec fn fxd(a: int, b: int) -> int
    recommends
        b != 0,
{
    tdiv(a * FX_ONE as int, b)
}

/// Whether a mathematical integer is representable as an `i64`.
pub open spec fn fits_i64(a: int) -> bool {
    i64::MIN as int <= a <= i64::MAX as int
}

/// Integer square root, rounded down: the unique `r >= 0` with
/// `r * r <= n < (r + 1) * (r + 1)` (0 for negative arguments).
pub open spec fn sqrt_floor(n: int) -> int
    decreases n,
{
    if n < 1 {
        0
    } else {
        let s = 2 * sqrt_floor(n / 4);
        if (s + 1) * (s + 1) <= n {
            s + 1
        } else {
            s
        }
    }
}

/// Fixed-point square root: `sqrt_floor(a * FX_ONE)`, so that squaring the
/// result in fixed point gives back (up to truncation) the argument.
pub open spec fn fxsqrt(a: int) -> int {
    sqrt_floor(a * FX_ONE as int)
}

proof fn lemma_square_monotone(a: int, b: int)
    by (nonlinear_arith)
    requires
        0 <= a <= b,
    ensures
        a * a <= b * b,
{
}

/// `sqrt_floor` is characterized by the two-sided square bound.
pub proof fn lemma_sqrt_floor(n: int)
    requires
        n >= 0,
    ensures
        sqrt_floor(n) >= 0,
        sqrt_floor(n) * sqrt_floor(n) <= n,
        n < (sqrt_floor(n) + 1) * (sqrt_floor(n) + 1),
    decreases n,
{
    if n < 1 {
    } else {
        let m = n / 4;
        lemma_sqrt_floor(m);
        let rm = sqrt_floor(m);
        let s = 2 * rm;
        assert(4 * m <= n && n < 4 * m + 4);
        assert(s * s <= 4 * m) by (nonlinear_arith)
            requires
                rm * rm <= m,
                s == 2 * rm,
        ;
        assert(4 * m + 4 <= (s + 2) * (s + 2)) by (nonlinear_arith)
            requires
                m < (rm + 1) * (rm + 1),
                s == 2 * rm,
        ;
        if (s + 1) * (s + 1) <= n {
            assert(sqrt_floor(n) == s + 1);
        } else {
            assert(sqrt_floor(n) == s);
        }
    }
}

/// Any `r >= 0` within the two-sided square bound equals `sqrt_floor(n)`.
pub proof fn lemma_sqrt_unique(n: int, r: int)
    requires
        n >= 0,
        r >= 0,
        r * r <= n,
        n < (r + 1) * (r + 1),
    ensures
        r == sqrt_floor(n),
{
    lemma_sqrt_floor(n);
    let s = sqrt_floor(n);
    if r < s {
        lemma_square_monotone(r + 1, s);
        assert(false);
    }
    if s < r {
        lemma_square_monotone(s + 1, r);
        assert(false);
    }
}

/// Division of magnitudes is exact on the definition of `tdiv`.
pub proof fn lemma_tdiv_abs(a: int, b: int)
    requires
        b != 0,
    ensures
        iabs(tdiv(a, b)) == iabs(a) / iabs(b),
        iabs(a) < iabs(b) ==> tdiv(a, b) == 0,
{
    vstd::arithmetic::div_mod::lemma_div_pos_is_pos(iabs(a), iabs(b));
    if iabs(a) < iabs(b) {
        vstd::arithmetic::div_mod::lemma_basic_div(iabs(a), iabs(b));
    }
}

/// Magnitude bound on a fixed-point product.
pub proof fn lemma_fxm_bound(a: int, b: int, ma: int, mb: int)
    requires
        iabs(a) <= ma,
        iabs(b) <= mb,
    ensures
        iabs(fxm(a, b)) <= (ma * mb) / (FX_ONE as int),
{
    assert(iabs(a * b) <= ma * mb) by (nonlinear_arith)
        requires
            iabs(a) <= ma,
            iabs(b) <= mb,
    ;
    lemma_tdiv_abs(a * b, FX_ONE as int);
    vstd::arithmetic::div_mod::lemma_div_is_ordered(iabs(a * b), ma * mb, FX_ONE as int);
}

/// Magnitude bound on a fixed-point quotient with denominator at least 1.
pub proof fn lemma_fxd_bound(a: int, b: int, ma: int)
    requires
        iabs(a) <= ma,
        iabs(b) >= 1,
    ensures
        iabs(fxd(a, b)) <= ma * FX_ONE as int,
{
    assert(iabs(a * FX_ONE as int) == iabs(a) * FX_ONE as int) by (nonlinear_arith);
    lemma_tdiv_abs(a * FX_ONE as int, b);
    vstd::arithmetic::div_mod::lemma_div_is_ordered(
        iabs(a) * FX_ONE as int,
        ma * FX_ONE as int,
        iabs(b),
    );
    vstd::arithmetic::div_mod::lemma_div_nonincreasing(ma * FX_ONE as int, iabs(b));
}

/// A quotient whose numerator magnitude is at most the denominator's stays
/// within one fixed-point unit.
pub proof fn lemma_fxd_le_one(a: int, b: int)
    requires
        b != 0,
        iabs(a) <= iabs(b),
    ensures
        iabs(fxd(a, b)) <= FX_ONE as int,
{
    assert(iabs(a * FX_ONE as int) == iabs(a) * FX_ONE as int) by (nonlinear_arith);
    lemma_tdiv_abs(a * FX_ONE as int, b);
    assert(iabs(a) * FX_ONE as int <= iabs(b) * FX_ONE as int) by (nonlinear_arith)
        requires
            iabs(a) <= iabs(b),
    ;
    vstd::arithmetic::div_mod::lemma_div_is_ordered(
        iabs(a) * FX_ONE as int,
        iabs(b) * FX_ONE as int,
        iabs(b),
    );
    vstd::arithmetic::div_mod::lemma_div_multiples_vanish(FX_ONE as int, iabs(b));
    assert(iabs(b) * FX_ONE as int == FX_ONE as int * iabs(b)) by (nonlinear_arith);
}

/// Lower bound on a positive quotient from an upper bound on its
/// denominator.
pub proof fn lemma_fxd_lower(a: int, b: int, mb: int)
    requires
        0 < a,
        1 <= b <= mb,
    ensures
        fxd(a, b) >= (a * FX_ONE as int) / mb,
{
    assert(a * FX_ONE as int > 0) by (nonlinear_arith)
        requires
            0 < a,
    ;
    vstd::arithmetic::div_mod::lemma_div_is_ordered_by_denominator(a * FX_ONE as int, b, mb);
}

/// The square root of a positive integer is positive.
pub proof fn lemma_sqrt_pos(n: int)
    requires
        n >= 1,
    ensures
        sqrt_floor(n) >= 1,
{
    lemma_sqrt_floor(n);
    if sqrt_floor(n) == 0 {
        assert(n < (sqrt_floor(n) + 1) * (sqrt_floor(n) + 1));
        assert((0 + 1) * (0 + 1) == 1) by (nonlinear_arith);
        assert(false);
    }
}

/// Upper bound on an integer square root from a square above the argument.
pub proof fn lemma_sqrt_upper(n: int, k: int)
    requires
        0 <= n,
        0 <= k,
        n < k * k,
    ensures
        sqrt_floor(n) < k,
{
    lemma_sqrt_floor(n);
    if sqrt_floor(n) >= k {
        lemma_square_monotone(k, sqrt_floor(n));
        assert(false);
    }
}

/// Multiplying by the fixed-point unit is the identity.
pub proof fn lemma_fxm_one(a: int)
    ensures
        fxm(a, FX_ONE as int) == a,
        fxm(FX_ONE as int, a) == a,
{
    assert(a * FX_ONE as int == FX_ONE as int * a) by (nonlinear_arith);
    assert(iabs(a * FX_ONE as int) == iabs(a) * FX_ONE as int) by (nonlinear_arith);
    assert(iabs(a) * FX_ONE as int / FX_ONE as int == iabs(a)) by (nonlinear_arith);
}

/// Negating one factor negates a fixed-point product.
pub proof fn lemma_fxm_neg(a: int, b: int)
    ensures
        fxm(a, -b) == -fxm(a, b),
        fxm(-a, b) == -fxm(a, b),
{
    assert(a * -b == -(a * b) && -a * b == -(a * b)) by (nonlinear_arith);
}

/// Multiplying by zero gives zero.
pub proof fn lemma_fxm_zero(a: int)
    ensures
        fxm(a, 0) == 0,
        fxm(0, a) == 0,
{
    assert(a * 0 == 0 && 0 * a == 0) by (nonlinear_arith);
}

/// A fixed-point square is never negative.
pub proof fn lemma_fxm_square_nonneg(a: int)
    ensures
        fxm(a, a) >= 0,
{
    assert(a * a >= 0) by (nonlinear_arith);
}

/// Products of scalars in `[0, FX_ONE]` stay in `[0, FX_ONE]`, below both
/// factors.
pub proof fn lemma_fxm_unit_interval(a: int, b: int)
    requires
        0 <= a,
        0 <= b,
    ensures
        0 <= fxm(a, b),
        b <= FX_ONE as int ==> fxm(a, b) <= a,
        a <= FX_ONE as int ==> fxm(a, b) <= b,
{
    assert(a * b >= 0) by (nonlinear_arith)
        requires
            0 <= a,
            0 <= b,
    ;
    if b <= FX_ONE as int {
        assert(a * b <= a * FX_ONE as int) by (nonlinear_arith)
            requires
                0 <= a,
                b <= FX_ONE as int,
        ;
        vstd::arithmetic::div_mod::lemma_div_is_ordered(a * b, a * FX_ONE as int, FX_ONE as int);
        lemma_fxm_one(a);
    }
    if a <= FX_ONE as int {
        assert(a * b <= FX_ONE as int * b) by (nonlinear_arith)
            requires
                0 <= b,
                a <= FX_ONE as int,
        ;
        vstd::arithmetic::div_mod::lemma_div_is_ordered(a * b, FX_ONE as int * b, FX_ONE as int);
        lemma_fxm_one(b);
    }
}

/// Truncated division by a positive denominator is monotone.
pub proof fn lemma_tdiv_ordered(a1: int, a2: int, b: int)
    requires
        b >= 1,
        a1 <= a2,
    ensures
        tdiv(a1, b) <= tdiv(a2, b),
{
    if a1 >= 0 {
        vstd::arithmetic::div_mod::lemma_div_is_ordered(a1, a2, b);
    } else if a2 <= 0 {
        vstd::arithmetic::div_mod::lemma_div_is_ordered(-a2, -a1, b);
    } else {
        vstd::arithmetic::div_mod::lemma_div_pos_is_pos(a2, b);
        vstd::arithmetic::div_mod::lemma_div_pos_is_pos(-a1, b);
    }
}

/// Fixed-point product of `a` and `b`, exact over the whole `i64` range,
/// returned in an `i128`.
fn mul_shift(a: i64, b: i64) -> (r: i128)
    ensures
        r as int == fxm(a as int, b as int),
{
    proof {
        assert(-0x40000000000000000000000000000000 <= a as int * b as int
            <= 0x40000000000000000000000000000000) by (nonlinear_arith)
            requires
                -0x8000000000000000 <= a as int <= 0x7fffffffffffffff,
                -0x8000000000000000 <= b as int <= 0x7fffffffffffffff,
        ;
    }
    let p: i128 = (a as i128) * (b as i128);
    proof {
        assert(p as int == a as int * b as int);
        assert(-0x40000000000000000000000000000000 <= p as int
            <= 0x40000000000000000000000000000000);
    }
    let m: u128 = if p < 0 {
        let np: i128 = -p;
        np as u128
    } else {
        p as u128
    };
    proof {
        assert(m as int == iabs(p as int));
    }
    let q: u128 = m / (FX_ONE as u128);
    proof {
        vstd::arithmetic::div_mod::lemma_div_nonincreasing(m as int, FX_ONE as int);
    }
    if p < 0 {
        -(q as i128)
    } else {
        q as i128
    }
}

/// Fixed-point quotient of `a` by `b`, exact over the whole `i64` range,
/// returned in an `i128`.
fn div_shift(a: i64, b: i64) -> (r: i128)
    requires
        b != 0,
    ensures
        r as int == fxd(a as int, b as int),
{
    let p: i128 = (a as i128) * 1048576i128;
    let m: u128 = if p < 0 {
        (-p) as u128
    } else {
        p as u128
    };
    let d: u128 = if b < 0 {
        (-(b as i128)) as u128
    } else {
        b as u128
    };
    proof {
        assert(m as int == iabs(p as int));
        assert(d as int == iabs(b as int));
        assert(d >= 1);
    }
    let q: u128 = m / d;
    proof {
        vstd::arithmetic::div_mod::lemma_div_nonincreasing(m as int, d as int);
    }
    let neg: bool = (p < 0) != (b < 0);
    if neg {
        -(q as i128)
    } else {
        q as i128
    }
}

/// Fixed-point multiplication; the rescaled product must fit an `i64`.
pub fn fx_mul(a: i64, b: i64) -> (r: i64)
    requires
        fits_i64(fxm(a as int, b as int)),
    ensures
        r as int == fxm(a as int, b as int),
{
    let q = mul_shift(a, b);
    q as i64
}

/// Fixed-point division; the rescaled quotient must fit an `i64`.
pub fn fx_div(a: i64, b: i64) -> (r: i64)
    requires
        b != 0,
        fits_i64(fxd(a as int, b as int)),
    ensures
        r as int == fxd(a as int, b as int),
{
    let q = div_shift(a, b);
    q as i64
}

/// Fixed-point division that reports a quotient too wide for an `i64`.
pub fn fx_div_checked(a: i64, b: i64) -> (r: Option<i64>)
    requires
        b != 0,
    ensures
        match r {
            Some(v) => fits_i64(fxd(a as int, b as int)) && v as int == fxd(a as int, b as int),
            None => !fits_i64(fxd(a as int, b as int)),
        },
{
    let q = div_shift(a, b);
    if i64::MIN as i128 <= q && q <= i64::MAX as i128 {
        Some(q as i64)
    } else {
        None
    }
}

/// Integer square root of a `u128` below 2^100, rounded down.
fn isqrt_u128(n: u128) -> (r: u128)
    requires
        n < 0x10000000000000000000000000,
    ensures
        r as int == sqrt_floor(n as int),
        r * r <= n,
        n < (r + 1) * (r + 1),
{
    let mut lo: u128 = 0;
    let mut hi: u128 = 0x4000000000000;
    proof {
        assert(hi * hi == 0x10000000000000000000000000) by (nonlinear_arith)
            requires
                hi == 0x4000000000000,
        ;
    }
    while lo + 1 < hi
        invariant
            lo < hi,
            hi <= 0x4000000000000,
            lo * lo <= n,
            n < hi * hi,
        decreases hi - lo,
    {
        let mid = lo + (hi - lo) / 2;
        proof {
            assert(mid * mid < 0x10000000000000000000000000) by (nonlinear_arith)
                requires
                    mid < 0x4000000000000,
            ;
        }
        if mid * mid <= n {
            lo = mid;
        } else {
            hi = mid;
        }
    }
    proof {
        lemma_sqrt_unique(n as int, lo as int);
    }
    lo
}

/// Fixed-point square root of a nonnegative scalar.
pub fn fx_sqrt(a: i64) -> (r: i64)
    requires
        a >= 0,
    ensures
        r as int == fxsqrt(a as int),
        r >= 0,
        fxm(r as int, r as int) <= a,
{
    let au: u128 = a as u128;
    proof {
        assert(au <= 0x7fffffffffffffff);
    }
    let n: u128 = au * (FX_ONE as u128);
    proof {
        assert(n as int == a as int * 0x100000) by (nonlinear_arith)
            requires
                n as int == a as int * FX_ONE as int,
        ;
        assert(a as int * 0x100000 <= 0x7fffffffffffffff * 0x100000) by (nonlinear_arith)
            requires
                0 <= a as int <= 0x7fffffffffffffff,
        ;
    }
    let s = isqrt_u128(n);
    proof {
        assert((0x40000000000 + 1) * (0x40000000000 + 1) > n as int) by (nonlinear_arith)
            requires
                n as int <= 0x7fffffffffffffff * 0x100000,
        ;
        if s > 0x40000000000 {
            lemma_square_monotone(0x40000000000 as int + 1, s as int);
            assert(false);
        }
        assert(iabs(s as int * s as int) == s as int * s as int) by (nonlinear_arith);
        lemma_tdiv_abs(s as int * s as int, FX_ONE as int);
        vstd::arithmetic::div_mod::lemma_div_is_ordered(
            s as int * s as int,
            a as int * FX_ONE as int,
            FX_ONE as int,
        );
        assert(a as int * FX_ONE as int / FX_ONE as int == a as int) by (nonlinear_arith);
    }
    s as i64
}

} // verus!

//! Signed fixed-point arithmetic used throughout the render path.
//!
//! A value `x` represents the real number `x / FP_ONE`. Samples, envelope
//! gains, frequencies (cycles per sample), and filter coefficients all use
//! this one scale, so products are divided by `FP_ONE` once and quotients
//! are multiplied by it once.

use vstd::prelude::*;

verus! {

/// Fixed-point scale: the representation of 1.0 (2^24).
pub const FP_ONE: i64 = 16777216;

/// Half of [`FP_ONE`]: the representation of 0.5.
pub const FP_HALF: i64 = 8388608;

/// Quotient of truncating (round-toward-zero) division, the semantics of
/// Rust's `/` on signed integers. Meaningful for `b > 0`.
pub open spec fn qdiv(a: int, b: int) -> int {
    if a >= 0 {
        a / b
    } else {
        -((-a) / b)
    }
}

/// Fixed-point product: `a * b` rescaled by `FP_ONE`, truncated toward zero.
pub open spec fn fmul(a: int, b: int) -> int {
    qdiv(a * b, FP_ONE as int)
}

/// Fixed-point quotient: `a / b` rescaled by `FP_ONE`, truncated toward zero.
pub open spec fn fdiv(a: int, b: int) -> int {
    qdiv(a * FP_ONE, b)
}

/// Magnitude of an integer.
pub open spec fn iabs(a: int) -> int {
    if a >= 0 {
        a
    } else {
        -a
    }
}

/// Truncating division never enlarges the magnitude of the dividend, and
/// shrinks it by the factor divided by.
pub proof fn lemma_qdiv_bound(a: int, b: int)
    requires
        b > 0,
    ensures
        iabs(qdiv(a, b)) <= iabs(a) / b,
        iabs(qdiv(a, b)) * b <= iabs(a),
        iabs(qdiv(a, b)) <= iabs(a),
{
    if a >= 0 {
        assert(0 <= a / b && a / b <= a && (a / b) * b <= a) by (nonlinear_arith)
            requires
                a >= 0 && b > 0,
        ;
    } else {
        assert(0 <= (-a) / b && (-a) / b <= -a && ((-a) / b) * b <= -a) by (nonlinear_arith)
            requires
                a < 0 && b > 0,
        ;
    }
}

/// The product of bounded factors is bounded.
pub proof fn lemma_mul_abs_bound(a: int, b: int, ca: int, cb: int)
    requires
        iabs(a) <= ca,
        iabs(b) <= cb,
    ensures
        iabs(a * b) <= ca * cb,
{
    assert(a * b <= ca * cb && -(ca * cb) <= a * b) by (nonlinear_arith)
        requires
            -ca <= a && a <= ca && -cb <= b && b <= cb,
    ;
}

/// Magnitudes multiply monotonically.
pub proof fn lemma_abs_mul_le(a: int, b: int, ca: int, cb: int)
    requires
        iabs(a) <= ca,
        iabs(b) <= cb,
    ensures
        iabs(a) * iabs(b) <= ca * cb,
{
    assert(iabs(a) * iabs(b) <= ca * cb) by (nonlinear_arith)
        requires
            0 <= iabs(a) <= ca && 0 <= iabs(b) <= cb,
    ;
}

/// A fixed-point product of bounded factors is bounded by the scaled
/// product of the bounds, and the product of nonnegative factors is
/// nonnegative.
pub proof fn lemma_fmul_abs(a: int, b: int, ca: int, cb: int)
    requires
        iabs(a) <= ca,
        iabs(b) <= cb,
    ensures
        iabs(fmul(a, b)) <= (ca * cb) / (FP_ONE as int),
        iabs(a) * iabs(b) <= ca * cb,
        a >= 0 && b >= 0 ==> fmul(a, b) >= 0,
{
    lemma_mul_abs_bound(a, b, ca, cb);
    lemma_abs_mul_le(a, b, ca, cb);
    lemma_qdiv_bound(a * b, FP_ONE as int);
    assert(iabs(a * b) / (FP_ONE as int) <= (ca * cb) / (FP_ONE as int)) by (nonlinear_arith)
        requires
            0 <= iabs(a * b) <= ca * cb && FP_ONE > 0,
    ;
    if a >= 0 && b >= 0 {
        assert(a * b >= 0) by (nonlinear_arith)
            requires
                a >= 0 && b >= 0,
        ;
        assert(qdiv(a * b, FP_ONE as int) >= 0) by (nonlinear_arith)
            requires
                a * b >= 0 && FP_ONE > 0,
        ;
    }
}

/// Truncating division of `a` by a positive `b`, as `/` behaves on `i64`.
pub fn div_q(a: i64, b: i64) -> (r: i64)
    requires
        b > 0,
        a > i64::MIN,
    ensures
        r == qdiv(a as int, b as int),
        iabs(r as int) <= iabs(a as int),
{
    proof {
        lemma_qdiv_bound(a as int, b as int);
    }
    a / b
}

/// Fixed-point multiplication, exact up to the final truncating rescale.
pub fn mul_fp(a: i64, b: i64) -> (r: i64)
    requires
        iabs(a as int) * iabs(b as int) <= i64::MAX * (FP_ONE as int),
    ensures
        r == fmul(a as int, b as int),
        iabs(r as int) * (FP_ONE as int) <= iabs(a as int) * iabs(b as int),
{
    proof {
        lemma_mul_abs_bound(a as int, b as int, iabs(a as int), iabs(b as int));
        lemma_qdiv_bound((a as int) * (b as int), FP_ONE as int);
    }
    let p: i128 = (a as i128) * (b as i128);
    (p / (FP_ONE as i128)) as i64
}

/// Fixed-point division by a positive divisor, truncated toward zero.
pub fn div_fp(a: i64, b: i64) -> (r: i64)
    requires
        b > 0,
        iabs(fdiv(a as int, b as int)) <= i64::MAX,
    ensures
        r == fdiv(a as int, b as int),
{
    proof {
        lemma_mul_abs_bound(a as int, FP_ONE as int, iabs(a as int), FP_ONE as int);
        lemma_qdiv_bound((a as int) * (FP_ONE as int), b as int);
    }
    let p: i128 = (a as i128) * (FP_ONE as i128);
    (p / (b as i128)) as i64
}

/// Multiplies and divides in one step with a wide intermediate:
/// `qdiv(x * y, z)`, which cannot overflow while the quotient fits.
pub fn muldiv_q(x: i64, y: i64, z: i64) -> (r: i64)
    requires
        z > 0,
        iabs((x as int) * (y as int)) <= i64::MAX * (z as int),
    ensures
        r == qdiv((x as int) * (y as int), z as int),
        iabs(r as int) * (z as int) <= iabs((x as int) * (y as int)),
{
    proof {
        lemma_qdiv_bound((x as int) * (y as int), z as int);
        let p = (x as int) * (y as int);
        assert((iabs(p) / (z as int)) * (z as int) <= iabs(p)) by (nonlinear_arith)
            requires
                (z as int) > 0 && iabs(p) >= 0,
        ;
        assert(iabs(p) / (z as int) <= i64::MAX) by (nonlinear_arith)
            requires
                (z as int) > 0 && iabs(p) >= 0 && iabs(p) <= i64::MAX * (z as int),
        ;
    }
    let p: i128 = (x as i128) * (y as i128);
    (p / (z as i128)) as i64
}

/// Clamps a wide intermediate value into the `i64` range.
pub open spec fn spec_sat_i64(x: int) -> int {
    if x > i64::MAX {
        i64::MAX as int
    } else if x < i64::MIN {
        i64::MIN as int
    } else {
        x
    }
}

/// Saturating narrowing from `i128` to `i64`.
pub fn sat_i64(x: i128) -> (r: i64)
    ensures
        r == spec_sat_i64(x as int),
{
    if x > i64::MAX as i128 {
        i64::MAX
    } else if x < i64::MIN as i128 {
        i64::MIN
    } else {
        x as i64
    }
}

/// Reduces `a` into `[0, m)`: the fractional part of a phase value.
/// Agrees with the mathematical (Euclidean) remainder `a % m`.
pub fn wrap_fp(a: i64, m: i64) -> (r: i64)
    requires
        0 < m,
        a > i64::MIN,
    ensures
        r == (a as int) % (m as int),
        0 <= r < m,
{
    proof {
        lemma_qdiv_bound(a as int, m as int);
    }
    let q: i64 = a / m;
    proof {
        assert(((a as int) >= 0 ==> 0 <= (q as int) * (m as int) <= (a as int)) && ((a as int) < 0
            ==> (a as int) <= (q as int) * (m as int) <= 0)) by (nonlinear_arith)
            requires
                (m as int) > 0 && ((a as int) >= 0 ==> (q as int) == (a as int) / (m as int)) && ((
                a as int) < 0 ==> (q as int) == -((-(a as int)) / (m as int))),
        ;
    }
    let t: i64 = a - q * m;
    proof {
        if a >= 0 {
            assert(t == (a as int) % (m as int) && 0 <= t < (m as int)) by (nonlinear_arith)
                requires
                    (m as int) > 0 && (a as int) >= 0 && (q as int) == (a as int) / (m as int) && (
                    t as int) == (a as int) - (q as int) * (m as int),
            ;
        } else {
            assert(-(m as int) < t <= 0 && (if t == 0 {
                0int
            } else {
                t + m
            }) == (a as int) % (m as int)) by (nonlinear_arith)
                requires
                    (m as int) > 0 && (a as int) < 0 && (q as int) == -((-(a as int)) / (
                    m as int)) && (t as int) == (a as int) - (q as int) * (m as int),
            ;
        }
    }
    if t < 0 {
        t + m
    } else {
        t
    }
}

} // verus!

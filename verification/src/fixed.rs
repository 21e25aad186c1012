//! Fixed-point arithmetic for the audio path.
//!
//! Every sample, gain and filter coefficient is an `i64` counting millionths:
//! the value `1_000_000` stands for one. Products are truncated toward zero,
//! exactly as the specifications below state, so all signal processing in
//! this crate is deterministic integer arithmetic.

use vstd::prelude::*;

verus! {

/// Millionths per unit: the fixed-point scale.
pub const FX_SCALE: i64 = 1_000_000;

/// The fixed-point representation of one.
pub const FX_ONE: i64 = 1_000_000;

/// Largest magnitude a sample may take (64 units of headroom); filter
/// outputs are saturated to this range.
pub const SAMPLE_LIMIT: i64 = 64_000_000;

/// Largest magnitude a filter coefficient may take.
pub const COEFF_LIMIT: i64 = 64_000_000;

/// Largest magnitude accepted by the fixed-point multiply and divide.
pub const FX_OPERAND_MAX: i64 = 4_000_000_000;

/// The fixed-point product: `a * b / FX_SCALE`, truncated toward zero.
pub open spec fn fx_mul_spec(a: int, b: int) -> int {
    if a * b >= 0 {
        (a * b) / 1_000_000
    } else {
        -((-(a * b)) / 1_000_000)
    }
}

/// The fixed-point quotient `a / b` for positive `b`: `a * FX_SCALE / b`,
/// truncated toward zero.
pub open spec fn fx_div_spec(a: int, b: int) -> int {
    if a >= 0 {
        (a * 1_000_000) / b
    } else {
        -(((-a) * 1_000_000) / b)
    }
}

/// `v` forced into `[lo, hi]`.
pub open spec fn clamp_spec(v: int, lo: int, hi: int) -> int {
    if v < lo {
        lo
    } else if v > hi {
        hi
    } else {
        v
    }
}

/// `v` saturated to the sample range.
pub open spec fn sat_spec(v: int) -> int {
    clamp_spec(v, -64_000_000, 64_000_000)
}

/// Fixed-point multiply, exact per `fx_mul_spec`.
pub fn fx_mul(a: i64, b: i64) -> (r: i64)
    requires
        -FX_OPERAND_MAX <= a <= FX_OPERAND_MAX,
        -FX_OPERAND_MAX <= b <= FX_OPERAND_MAX,
    ensures
        r == fx_mul_spec(a as int, b as int),
{
    let ua: u64 = if a < 0 { (-a) as u64 } else { a as u64 };
    let ub: u64 = if b < 0 { (-b) as u64 } else { b as u64 };
    proof {
        assert(ua == (if a >= 0 { a as int } else { -a as int }));
        assert(ub == (if b >= 0 { b as int } else { -b as int }));
        assert(ua * ub <= (FX_OPERAND_MAX as int) * (FX_OPERAND_MAX as int)) by (nonlinear_arith)
            requires
                ua <= FX_OPERAND_MAX as int,
                ub <= FX_OPERAND_MAX as int,
        ;
    }
    let m: u64 = (ua * ub) / 1_000_000u64;
    let neg: bool = (a < 0) != (b < 0);
    proof {
        lemma_magnitude_product(a as int, b as int, ua as int, ub as int);
        assert(m == (ua as int * ub as int) / 1_000_000);
        assert(m <= ua as int * ub as int) by (nonlinear_arith)
            requires
                m == (ua as int * ub as int) / 1_000_000,
                ua as int * ub as int >= 0,
        ;
    }
    if neg {
        -(m as i64)
    } else {
        m as i64
    }
}

/// The product of the magnitudes is the magnitude of the product, and its
/// sign is as the operands' signs say.
proof fn lemma_magnitude_product(a: int, b: int, ua: int, ub: int)
    requires
        ua == (if a >= 0 { a } else { -a }),
        ub == (if b >= 0 { b } else { -b }),
    ensures
        (a < 0) != (b < 0) ==> a * b == -(ua * ub),
        (a < 0) == (b < 0) ==> a * b == ua * ub,
        ua * ub >= 0,
{
    assert((a < 0) != (b < 0) ==> a * b == -(ua * ub)) by (nonlinear_arith)
        requires
            ua == (if a >= 0 { a } else { -a }),
            ub == (if b >= 0 { b } else { -b }),
    ;
    assert((a < 0) == (b < 0) ==> a * b == ua * ub) by (nonlinear_arith)
        requires
            ua == (if a >= 0 { a } else { -a }),
            ub == (if b >= 0 { b } else { -b }),
    ;
    assert(ua * ub >= 0) by (nonlinear_arith)
        requires
            ua >= 0,
            ub >= 0,
    ;
}

/// Fixed-point divide by a positive denominator, exact per `fx_div_spec`.
pub fn fx_div(a: i64, b: i64) -> (r: i64)
    requires
        -FX_OPERAND_MAX <= a <= FX_OPERAND_MAX,
        1 <= b <= FX_OPERAND_MAX,
    ensures
        r == fx_div_spec(a as int, b as int),
{
    let ua: u64 = if a < 0 { (-a) as u64 } else { a as u64 };
    proof {
        assert(ua * 1_000_000 <= (FX_OPERAND_MAX as int) * 1_000_000) by (nonlinear_arith)
            requires
                ua <= FX_OPERAND_MAX as int,
        ;
    }
    let m: u64 = (ua * 1_000_000u64) / (b as u64);
    proof {
        assert(m * (b as int) <= ua * 1_000_000 && (ua * 1_000_000) < (m + 1) * (b as int))
            by (nonlinear_arith)
            requires
                m == (ua * 1_000_000) / (b as int),
                b as int >= 1,
                ua >= 0,
        ;
        assert(m <= ua * 1_000_000) by (nonlinear_arith)
            requires
                m * (b as int) <= ua * 1_000_000,
                b as int >= 1,
                m >= 0,
        ;
    }
    if a < 0 {
        -(m as i64)
    } else {
        m as i64
    }
}

/// Integer division truncated toward zero.
pub open spec fn div_trunc_spec(x: int, d: int) -> int {
    if x >= 0 {
        x / d
    } else {
        -((-x) / d)
    }
}

/// Division by a positive constant, exact per `div_trunc_spec`.
pub fn div_trunc(x: i64, d: u64) -> (r: i64)
    requires
        1 <= d <= 0x7fff_ffff_ffff_ffff,
        x > i64::MIN,
    ensures
        r == div_trunc_spec(x as int, d as int),
{
    let ux: u64 = if x < 0 { (-x) as u64 } else { x as u64 };
    let m: u64 = ux / d;
    proof {
        assert(m <= ux) by (nonlinear_arith)
            requires
                m == (ux as int) / (d as int),
                d >= 1,
                ux >= 0,
        ;
    }
    if x < 0 {
        -(m as i64)
    } else {
        m as i64
    }
}

/// The magnitude of a truncated division is bounded by dividing the
/// magnitude bound.
pub proof fn lemma_div_trunc_abs(x: int, d: int, m: int)
    requires
        -m <= x <= m,
        m >= 0,
        d >= 1,
    ensures
        -(m / d) <= div_trunc_spec(x, d) <= m / d,
{
    if x >= 0 {
        assert(0 <= x / d <= m / d) by (nonlinear_arith)
            requires
                0 <= x <= m,
                d >= 1,
        ;
    } else {
        assert(0 <= (-x) / d <= m / d) by (nonlinear_arith)
            requires
                0 <= -x <= m,
                d >= 1,
        ;
    }
}

/// The magnitude of a fixed-point product is bounded by the product of the
/// operands' magnitude bounds, scaled down.
pub proof fn lemma_fx_mul_abs(a: int, b: int, ma: int, mb: int)
    requires
        -ma <= a <= ma,
        -mb <= b <= mb,
        ma >= 0,
        mb >= 0,
    ensures
        -((ma * mb) / 1_000_000) <= fx_mul_spec(a, b) <= (ma * mb) / 1_000_000,
{
    let s = 1_000_000int;
    assert(-(ma * mb) <= a * b <= ma * mb) by (nonlinear_arith)
        requires
            -ma <= a <= ma,
            -mb <= b <= mb,
            ma >= 0,
            mb >= 0,
    ;
    if a * b >= 0 {
        assert(0 <= (a * b) / s <= (ma * mb) / s) by (nonlinear_arith)
            requires
                0 <= a * b <= ma * mb,
                s == 1_000_000,
        ;
    } else {
        assert(0 <= (-(a * b)) / s <= (ma * mb) / s) by (nonlinear_arith)
            requires
                0 <= -(a * b) <= ma * mb,
                s == 1_000_000,
        ;
    }
}

/// A product of nonnegative factors is nonnegative.
pub proof fn lemma_fx_mul_nonneg(a: int, b: int)
    requires
        a >= 0,
        b >= 0,
    ensures
        fx_mul_spec(a, b) >= 0,
{
    assert(a * b >= 0) by (nonlinear_arith)
        requires
            a >= 0,
            b >= 0,
    ;
    assert((a * b) / 1_000_000 >= 0) by (nonlinear_arith)
        requires
            a * b >= 0,
    ;
}

/// A nonnegative quotient is bounded by the bound of the numerator over
/// the least denominator.
pub proof fn lemma_fx_div_bounds(a: int, b: int, ma: int, blo: int)
    requires
        0 <= a <= ma,
        1 <= blo <= b,
    ensures
        0 <= fx_div_spec(a, b) <= (ma * 1_000_000) / blo,
{
    let q = (a * 1_000_000) / b;
    assert(q >= 0 && q * blo <= a * 1_000_000) by (nonlinear_arith)
        requires
            q == (a * 1_000_000) / b,
            0 <= a,
            1 <= blo <= b,
    ;
    assert(q <= (ma * 1_000_000) / blo) by (nonlinear_arith)
        requires
            q * blo <= a * 1_000_000,
            a <= ma,
            q >= 0,
            blo >= 1,
    ;
}

/// Dividing a positive value by itself gives exactly one.
pub proof fn lemma_fx_div_self(x: int)
    requires
        x >= 1,
    ensures
        fx_div_spec(x, x) == FX_ONE,
{
    assert((x * 1_000_000) / x == 1_000_000) by (nonlinear_arith)
        requires
            x >= 1,
    ;
}

/// Dividing by one is the identity.
pub proof fn lemma_fx_div_one(x: int)
    ensures
        fx_div_spec(x, FX_ONE as int) == x,
{
    if x >= 0 {
        assert((x * 1_000_000) / 1_000_000 == x) by (nonlinear_arith);
    } else {
        assert(((-x) * 1_000_000) / 1_000_000 == -x) by (nonlinear_arith);
    }
}

/// `v` forced into `[lo, hi]`, exact per `clamp_spec`.
pub fn fx_clamp(v: i64, lo: i64, hi: i64) -> (r: i64)
    requires
        lo <= hi,
    ensures
        r == clamp_spec(v as int, lo as int, hi as int),
{
    if v < lo {
        lo
    } else if v > hi {
        hi
    } else {
        v
    }
}

/// `v` saturated to the sample range, exact per `sat_spec`.
pub fn fx_sat(v: i64) -> (r: i64)
    ensures
        r == sat_spec(v as int),
{
    fx_clamp(v, -SAMPLE_LIMIT, SAMPLE_LIMIT)
}

/// Multiplying by one is the identity.
pub proof fn lemma_fx_mul_one(a: int)
    ensures
        fx_mul_spec(a, FX_ONE as int) == a,
        fx_mul_spec(FX_ONE as int, a) == a,
{
    assert(a * (FX_ONE as int) == a * 1_000_000) by (nonlinear_arith);
    assert((FX_ONE as int) * a == a * 1_000_000) by (nonlinear_arith);
    if a >= 0 {
        assert((a * 1_000_000) / 1_000_000 == a) by (nonlinear_arith);
    } else {
        assert((-(a * 1_000_000)) / 1_000_000 == -a) by (nonlinear_arith);
    }
}

/// Multiplying by zero gives zero.
pub proof fn lemma_fx_mul_zero(a: int)
    ensures
        fx_mul_spec(a, 0) == 0,
        fx_mul_spec(0, a) == 0,
{
}

/// A product with a factor of magnitude at most one keeps the other
/// factor's magnitude.
pub proof fn lemma_fx_mul_bound(a: int, b: int, m: int)
    requires
        -m <= a <= m,
        -FX_ONE <= b <= FX_ONE,
        m >= 0,
    ensures
        -m <= fx_mul_spec(a, b) <= m,
{
    assert(-(m * 1_000_000) <= a * b <= m * 1_000_000) by (nonlinear_arith)
        requires
            -m <= a <= m,
            -1_000_000 <= b <= 1_000_000,
            m >= 0,
    ;
    if a * b >= 0 {
        assert((a * b) / 1_000_000 <= m && (a * b) / 1_000_000 >= 0) by (nonlinear_arith)
            requires
                0 <= a * b <= m * 1_000_000,
                m >= 0,
        ;
    } else {
        assert((-(a * b)) / 1_000_000 <= m && (-(a * b)) / 1_000_000 >= 0) by (nonlinear_arith)
            requires
                0 <= -(a * b) <= m * 1_000_000,
                m >= 0,
        ;
    }
}

/// A blend of two values by complementary weights stays within the
/// operands' common magnitude bound.
pub proof fn lemma_fx_convex_bound(a: int, b: int, w: int, m: int)
    requires
        0 <= w <= FX_ONE,
        -m <= a <= m,
        -m <= b <= m,
        m >= 0,
    ensures
        -m <= fx_mul_spec(a, FX_ONE as int - w) + fx_mul_spec(b, w) <= m,
{
    let s = 1_000_000int;
    let c = s - w;
    lemma_fx_trunc_bound(a, c, m);
    lemma_fx_trunc_bound(b, w, m);
    assert((m * c) / s + (m * w) / s <= m) by (nonlinear_arith)
        requires
            0 <= w <= s,
            c == s - w,
            m >= 0,
            s == 1_000_000,
    ;
}

/// The truncated product by a weight in `[0, 1]` is bounded by the exact
/// real product's bound `(m * w) / FX_SCALE`.
proof fn lemma_fx_trunc_bound(a: int, w: int, m: int)
    requires
        0 <= w <= FX_ONE,
        -m <= a <= m,
        m >= 0,
    ensures
        -((m * w) / (FX_SCALE as int)) <= fx_mul_spec(a, w) <= (m * w) / (FX_SCALE as int),
{
    let s = 1_000_000int;
    if a * w >= 0 {
        assert(a * w <= m * w) by (nonlinear_arith)
            requires
                -m <= a <= m,
                w >= 0,
        ;
        assert((a * w) / s <= (m * w) / s) by (nonlinear_arith)
            requires
                0 <= a * w <= m * w,
                s == 1_000_000,
        ;
        assert((a * w) / s >= 0) by (nonlinear_arith)
            requires
                a * w >= 0,
                s == 1_000_000,
        ;
        assert((m * w) / s >= 0) by (nonlinear_arith)
            requires
                m * w >= a * w >= 0,
                s == 1_000_000,
        ;
    } else {
        assert(-(a * w) <= m * w) by (nonlinear_arith)
            requires
                -m <= a <= m,
                w >= 0,
        ;
        assert((-(a * w)) / s <= (m * w) / s) by (nonlinear_arith)
            requires
                0 <= -(a * w) <= m * w,
                s == 1_000_000,
        ;
        assert((-(a * w)) / s >= 0) by (nonlinear_arith)
            requires
                -(a * w) >= 0,
                s == 1_000_000,
        ;
    }
}

/// A product with a positive factor strictly below one strictly shrinks a
/// nonzero value's magnitude.
pub proof fn lemma_fx_mul_shrinks(a: int, b: int)
    requires
        a != 0,
        -FX_OPERAND_MAX <= a <= FX_OPERAND_MAX,
        0 <= b < FX_ONE,
    ensures
        fx_mul_spec(a, b) < a || a < 0,
        fx_mul_spec(a, b) > a || a > 0,
        a > 0 ==> 0 <= fx_mul_spec(a, b) < a,
        a < 0 ==> a < fx_mul_spec(a, b) <= 0,
{
    if a > 0 {
        assert(0 <= a * b && a * b <= a * 1_000_000 - a) by (nonlinear_arith)
            requires
                a > 0,
                0 <= b < 1_000_000,
        ;
        assert((a * b) / 1_000_000 < a) by (nonlinear_arith)
            requires
                0 <= a * b <= a * 1_000_000 - a,
                a > 0,
        ;
        assert((a * b) / 1_000_000 >= 0) by (nonlinear_arith)
            requires
                a * b >= 0,
        ;
    } else {
        assert(0 <= -(a * b) && -(a * b) <= (-a) * 1_000_000 - (-a)) by (nonlinear_arith)
            requires
                a < 0,
                0 <= b < 1_000_000,
        ;
        assert((-(a * b)) / 1_000_000 < -a) by (nonlinear_arith)
            requires
                0 <= -(a * b) <= (-a) * 1_000_000 - (-a),
                -a > 0,
        ;
        assert((-(a * b)) / 1_000_000 >= 0) by (nonlinear_arith)
            requires
                -(a * b) >= 0,
        ;
        if a * b >= 0 {
            assert(a * b == 0) by (nonlinear_arith)
                requires
                    a < 0,
                    b >= 0,
                    a * b >= 0,
            ;
        }
    }
}

} // verus!

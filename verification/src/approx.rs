//! Fixed-point approximations of the transcendental functions the filter
//! designs need: decibel-to-linear gain, cosine, sine, square root and a
//! decaying exponential.
//!
//! Each function's contract states the exact polynomial it computes, so the
//! filter coefficients are a deterministic function of the parameters. The
//! results are clamped into documented ranges; the callers' proofs rest on
//! those ranges and on exact algebraic identities (a zero-decibel gain maps
//! to exactly one), not on closeness to the real functions.

use vstd::prelude::*;
use crate::fixed::{clamp_spec, div_trunc, div_trunc_spec, fx_clamp, fx_mul, fx_mul_spec,
    lemma_div_trunc_abs, lemma_fx_mul_abs, FX_ONE};

verus! {

/// Two pi, in millionths.
pub const TAU_FX: i64 = 6_283_185;

/// `ln(10) / 40`, in millionths: converts decibels to a natural exponent
/// for the square-root-of-gain amplitude `10^(dB/40)`.
pub const LN10_OVER_40_FX: i64 = 57_565;

/// Largest angle the trigonometric approximations accept, in millionths of
/// a radian (a little above pi).
pub const ANGLE_MAX: i64 = 3_200_000;

/// The five-term exponential series `1 + t + t^2/2 + t^3/6 + t^4/24 +
/// t^5/120` in fixed point.
pub open spec fn spec_exp_series(t: int) -> int {
    let t2 = fx_mul_spec(t, t);
    let t3 = fx_mul_spec(t2, t);
    let t4 = fx_mul_spec(t3, t);
    let t5 = fx_mul_spec(t4, t);
    1_000_000 + t + div_trunc_spec(t2, 2) + div_trunc_spec(t3, 6) + div_trunc_spec(t4, 24)
        + div_trunc_spec(t5, 120)
}

/// The exponential series, exact per `spec_exp_series`.
fn exp_series(t: i64) -> (r: i64)
    requires
        -800_000 <= t <= 800_000,
    ensures
        r == spec_exp_series(t as int),
        -600_000 <= r <= 2_300_000,
        t == 0 ==> r == FX_ONE,
{
    proof {
        lemma_fx_mul_abs(t as int, t as int, 800_000, 800_000);
    }
    let t2 = fx_mul(t, t);
    proof {
        lemma_fx_mul_abs(t2 as int, t as int, 640_000, 800_000);
        if t == 0 {
            crate::fixed::lemma_fx_mul_zero(0);
        }
    }
    let t3 = fx_mul(t2, t);
    proof {
        lemma_fx_mul_abs(t3 as int, t as int, 512_000, 800_000);
    }
    let t4 = fx_mul(t3, t);
    proof {
        lemma_fx_mul_abs(t4 as int, t as int, 409_600, 800_000);
    }
    let t5 = fx_mul(t4, t);
    proof {
        lemma_div_trunc_abs(t2 as int, 2, 640_000);
        lemma_div_trunc_abs(t3 as int, 6, 512_000);
        lemma_div_trunc_abs(t4 as int, 24, 409_600);
        lemma_div_trunc_abs(t5 as int, 120, 327_680);
    }
    1_000_000 + t + div_trunc(t2, 2) + div_trunc(t3, 6) + div_trunc(t4, 24) + div_trunc(t5, 120)
}

/// The linear amplitude `10^(dB/40)` for a gain in decibels, clamped to
/// `[0.49, 2.05]`.
pub open spec fn spec_pow10_db(g: int) -> int {
    clamp_spec(spec_exp_series(fx_mul_spec(g, LN10_OVER_40_FX as int)), 490_000, 2_050_000)
}

/// Decibels to linear amplitude, exact per `spec_pow10_db`; zero decibels
/// is exactly one.
pub fn pow10_db(g: i64) -> (r: i64)
    requires
        -12_000_000 <= g <= 12_000_000,
    ensures
        r == spec_pow10_db(g as int),
        490_000 <= r <= 2_050_000,
        g == 0 ==> r == FX_ONE,
{
    proof {
        lemma_fx_mul_abs(g as int, LN10_OVER_40_FX as int, 12_000_000, LN10_OVER_40_FX as int);
    }
    let t = fx_mul(g, LN10_OVER_40_FX);
    let raw = exp_series(t);
    fx_clamp(raw, 490_000, 2_050_000)
}

/// Zero decibels is exactly unit amplitude.
pub proof fn lemma_pow10_db_zero()
    ensures
        spec_pow10_db(0) == 1_000_000,
{
    crate::fixed::lemma_fx_mul_zero(57_565);
    crate::fixed::lemma_fx_mul_zero(0);
    assert(spec_exp_series(0) == 1_000_000);
}

/// Cosine by an even Taylor series up to the eighth power, clamped to
/// `[-1, 1]`.
pub open spec fn spec_cos_fx(x: int) -> int {
    let x2 = fx_mul_spec(x, x);
    let x4 = fx_mul_spec(x2, x2);
    let x6 = fx_mul_spec(x4, x2);
    let x8 = fx_mul_spec(x6, x2);
    clamp_spec(
        1_000_000 - div_trunc_spec(x2, 2) + div_trunc_spec(x4, 24) - div_trunc_spec(x6, 720)
            + div_trunc_spec(x8, 40_320),
        -1_000_000,
        1_000_000,
    )
}

/// Cosine of a nonnegative angle at most `ANGLE_MAX`, exact per
/// `spec_cos_fx`; the cosine of zero is exactly one.
pub fn cos_fx(x: i64) -> (r: i64)
    requires
        0 <= x <= ANGLE_MAX,
    ensures
        r == spec_cos_fx(x as int),
        -FX_ONE <= r <= FX_ONE,
        x == 0 ==> r == FX_ONE,
{
    proof {
        lemma_fx_mul_abs(x as int, x as int, ANGLE_MAX as int, ANGLE_MAX as int);
    }
    let x2 = fx_mul(x, x);
    proof {
        lemma_fx_mul_abs(x2 as int, x2 as int, 10_240_000, 10_240_000);
    }
    let x4 = fx_mul(x2, x2);
    proof {
        lemma_fx_mul_abs(x4 as int, x2 as int, 104_857_600, 10_240_000);
    }
    let x6 = fx_mul(x4, x2);
    proof {
        lemma_fx_mul_abs(x6 as int, x2 as int, 1_073_741_824, 10_240_000);
    }
    let x8 = fx_mul(x6, x2);
    proof {
        lemma_div_trunc_abs(x2 as int, 2, 10_240_000);
        lemma_div_trunc_abs(x4 as int, 24, 104_857_600);
        lemma_div_trunc_abs(x6 as int, 720, 1_073_741_824);
        lemma_div_trunc_abs(x8 as int, 40_320, 10_995_116_278);
    }
    fx_clamp(
        1_000_000 - div_trunc(x2, 2) + div_trunc(x4, 24) - div_trunc(x6, 720)
            + div_trunc(x8, 40_320),
        -1_000_000,
        1_000_000,
    )
}

/// Sine by an odd Taylor series up to the ninth power, clamped to `[0, 1]`
/// (the angle range never leaves the upper half-plane).
pub open spec fn spec_sin_fx(x: int) -> int {
    let x2 = fx_mul_spec(x, x);
    let x3 = fx_mul_spec(x2, x);
    let x4 = fx_mul_spec(x2, x2);
    let x5 = fx_mul_spec(x4, x);
    let x6 = fx_mul_spec(x4, x2);
    let x7 = fx_mul_spec(x6, x);
    let x9 = fx_mul_spec(x7, x2);
    clamp_spec(
        x - div_trunc_spec(x3, 6) + div_trunc_spec(x5, 120) - div_trunc_spec(x7, 5_040)
            + div_trunc_spec(x9, 362_880),
        0,
        1_000_000,
    )
}

/// Sine of a nonnegative angle at most `ANGLE_MAX`, exact per
/// `spec_sin_fx`.
pub fn sin_fx(x: i64) -> (r: i64)
    requires
        0 <= x <= ANGLE_MAX,
    ensures
        r == spec_sin_fx(x as int),
        0 <= r <= FX_ONE,
{
    proof {
        lemma_fx_mul_abs(x as int, x as int, ANGLE_MAX as int, ANGLE_MAX as int);
    }
    let x2 = fx_mul(x, x);
    proof {
        lemma_fx_mul_abs(x2 as int, x as int, 10_240_000, ANGLE_MAX as int);
    }
    let x3 = fx_mul(x2, x);
    proof {
        lemma_fx_mul_abs(x2 as int, x2 as int, 10_240_000, 10_240_000);
    }
    let x4 = fx_mul(x2, x2);
    proof {
        lemma_fx_mul_abs(x4 as int, x as int, 104_857_600, ANGLE_MAX as int);
    }
    let x5 = fx_mul(x4, x);
    proof {
        lemma_fx_mul_abs(x4 as int, x2 as int, 104_857_600, 10_240_000);
    }
    let x6 = fx_mul(x4, x2);
    proof {
        lemma_fx_mul_abs(x6 as int, x as int, 1_073_741_824, ANGLE_MAX as int);
    }
    let x7 = fx_mul(x6, x);
    proof {
        lemma_fx_mul_abs(x7 as int, x2 as int, 3_435_973_837, 10_240_000);
    }
    let x9 = fx_mul(x7, x2);
    proof {
        lemma_div_trunc_abs(x3 as int, 6, 32_768_000);
        lemma_div_trunc_abs(x5 as int, 120, 335_544_320);
        lemma_div_trunc_abs(x7 as int, 5_040, 3_435_973_837);
        lemma_div_trunc_abs(x9 as int, 362_880, 35_184_372_091);
    }
    fx_clamp(
        x - div_trunc(x3, 6) + div_trunc(x5, 120) - div_trunc(x7, 5_040)
            + div_trunc(x9, 362_880),
        0,
        1_000_000,
    )
}

/// The integer square root: the unique `r >= 0` with `r^2 <= n < (r+1)^2`.
pub open spec fn spec_isqrt(n: int) -> int {
    choose|r: int| 0 <= r && #[trigger] (r * r) <= n && n < (r + 1) * (r + 1)
}

/// Every nonnegative integer has an integer square root.
pub proof fn lemma_isqrt_exists(n: int)
    requires
        n >= 0,
    ensures
        exists|r: int| 0 <= r && #[trigger] (r * r) <= n && n < (r + 1) * (r + 1),
    decreases n,
{
    if n == 0 {
        assert(0 <= 0 && 0 * 0 <= 0 && 0 < (0 + 1) * (0 + 1)) by (nonlinear_arith);
    } else {
        lemma_isqrt_exists(n - 1);
        let r = choose|r: int| 0 <= r && #[trigger] (r * r) <= n - 1 && n - 1 < (r + 1) * (r + 1);
        if (r + 1) * (r + 1) == n {
            assert((r + 1) * (r + 1) <= n && n < (r + 2) * (r + 2)) by (nonlinear_arith)
                requires
                    (r + 1) * (r + 1) == n,
                    r >= 0,
            ;
            assert(0 <= r + 1 && (r + 1) * (r + 1) <= n && n < ((r + 1) + 1) * ((r + 1) + 1));
        } else {
            assert(r * r <= n && n < (r + 1) * (r + 1));
        }
    }
}

/// The integer square root is unique: any witness equals `spec_isqrt`.
pub proof fn lemma_isqrt_unique(n: int, r: int)
    requires
        n >= 0,
        0 <= r,
        r * r <= n,
        n < (r + 1) * (r + 1),
    ensures
        r == spec_isqrt(n),
{
    lemma_isqrt_exists(n);
    let q = spec_isqrt(n);
    assert(0 <= q && q * q <= n && n < (q + 1) * (q + 1));
    assert(r == q) by (nonlinear_arith)
        requires
            0 <= r,
            0 <= q,
            r * r <= n,
            n < (r + 1) * (r + 1),
            q * q <= n,
            n < (q + 1) * (q + 1),
    ;
}

/// Binary-search integer square root of a 64-bit value.
fn isqrt64(n: u64) -> (r: u64)
    requires
        n < 0x4000_0000_0000_0000,
    ensures
        r * r <= n,
        n < (r + 1) * (r + 1),
{
    let mut lo: u64 = 0;
    let mut hi: u64 = 2_147_483_648;
    proof {
        assert((2_147_483_648u64 as int) * (2_147_483_648u64 as int) == 0x4000_0000_0000_0000)
            by (nonlinear_arith);
    }
    while lo + 1 < hi
        invariant
            lo < hi <= 2_147_483_648,
            (lo as int) * (lo as int) <= n,
            (n as int) < (hi as int) * (hi as int),
        decreases hi - lo,
    {
        let mid = lo + (hi - lo) / 2;
        proof {
            assert((mid as int) * (mid as int) <= (2_147_483_648int) * (2_147_483_648int))
                by (nonlinear_arith)
                requires
                    0 <= mid as int <= 2_147_483_648,
            ;
        }
        if mid * mid <= n {
            lo = mid;
        } else {
            hi = mid;
        }
    }
    proof {
        assert((lo as int + 1) * (lo as int + 1) == (hi as int) * (hi as int) || lo + 1 == hi);
    }
    lo
}

/// The fixed-point square root: `spec_isqrt` of the value rescaled so the
/// result is again in millionths.
pub open spec fn spec_sqrt_fx(x: int) -> int {
    spec_isqrt(x * 1_000_000)
}

/// Square root of a nonnegative fixed-point value, exact per
/// `spec_sqrt_fx`; the square root of one is exactly one.
pub fn sqrt_fx(x: i64) -> (r: i64)
    requires
        0 <= x <= 4_300_000,
    ensures
        r == spec_sqrt_fx(x as int),
        0 <= r <= 2_100_000,
        x == FX_ONE ==> r == FX_ONE,
{
    let n: u64 = (x as u64) * 1_000_000;
    let r = isqrt64(n);
    proof {
        lemma_isqrt_unique(n as int, r as int);
        assert(r <= 2_100_000) by (nonlinear_arith)
            requires
                (r as int) * (r as int) <= n as int,
                n as int <= 4_300_000_000_000,
                r >= 0,
        ;
        if x == FX_ONE {
            assert((1_000_000int) * (1_000_000int) <= 1_000_000_000_000int
                && 1_000_000_000_000int < (1_000_001int) * (1_000_001int)) by (nonlinear_arith);
            lemma_isqrt_unique(1_000_000_000_000int, 1_000_000int);
        }
    }
    r as i64
}

/// The decaying exponential `e^(-x)` for `x` in `[0, ANGLE_MAX]`, computed
/// by fourth-powering the series at `-x/4`, clamped to `[0, 0.99]`.
pub open spec fn spec_exp_neg(x: int) -> int {
    let t = -div_trunc_spec(x, 4);
    let s = clamp_spec(spec_exp_series(t), 0, 1_000_000);
    let sq = fx_mul_spec(s, s);
    clamp_spec(fx_mul_spec(sq, sq), 0, 990_000)
}

/// A decaying exponential, exact per `spec_exp_neg`; always strictly below
/// one, so a one-pole filter built from it cannot amplify.
pub fn exp_neg(x: i64) -> (r: i64)
    requires
        0 <= x <= ANGLE_MAX,
    ensures
        r == spec_exp_neg(x as int),
        0 <= r <= 990_000,
{
    let t = -div_trunc(x, 4);
    proof {
        lemma_div_trunc_abs(x as int, 4, ANGLE_MAX as int);
    }
    let s = fx_clamp(exp_series(t), 0, 1_000_000);
    proof {
        lemma_fx_mul_abs(s as int, s as int, 1_000_000, 1_000_000);
    }
    let sq = fx_mul(s, s);
    proof {
        lemma_fx_mul_abs(sq as int, sq as int, 1_000_000, 1_000_000);
    }
    fx_clamp(fx_mul(sq, sq), 0, 990_000)
}

} // verus!

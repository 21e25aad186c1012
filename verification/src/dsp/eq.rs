//! Three-band parametric EQ: low shelf, mid peak and high shelf biquads in
//! series, stereo-linked with independent history per channel.
//!
//! Coefficients follow the familiar audio-cookbook shelving and peak
//! designs, carried out in fixed point. At zero decibels of gain each
//! design degenerates, exactly, to a pass-through coefficient set; the
//! lemmas below prove it, which is what makes the flat-response law hold
//! without any tolerance.

use vstd::prelude::*;
use crate::fixed::{clamp_spec, div_trunc, div_trunc_spec, fx_clamp, fx_div, fx_div_spec, fx_mul,
    fx_mul_spec, fx_sat, lemma_fx_div_bounds, lemma_fx_div_one, lemma_fx_div_self,
    lemma_fx_mul_abs, lemma_fx_mul_nonneg, lemma_fx_mul_one, lemma_fx_mul_zero, sat_spec,
    COEFF_LIMIT, FX_ONE, SAMPLE_LIMIT};
use crate::approx::{cos_fx, lemma_isqrt_exists, lemma_isqrt_unique, pow10_db, sin_fx,
    spec_cos_fx, spec_exp_series, spec_pow10_db, spec_sin_fx, spec_sqrt_fx, sqrt_fx, TAU_FX};
use crate::dsp::{sample_valid, StereoSample};
use crate::dsp::delay::{MAX_SAMPLE_RATE, MIN_SAMPLE_RATE};

verus! {

/// Parameter changes smaller than this (0.01 in fixed point) are ignored,
/// so automation jitter does not force coefficient recomputation.
pub const PARAM_EPS: i64 = 10_000;

/// Whether a clamped incoming value differs from the stored one beyond
/// the update epsilon; only then does a setter store it and mark the
/// coefficients stale.
pub open spec fn gain_changed(stored: i64, clamped: int) -> bool {
    clamped - stored > PARAM_EPS || stored - clamped > PARAM_EPS
}

/// Biquad filter coefficients, normalized so the leading feedback
/// coefficient is one.
#[derive(Clone, Copy, PartialEq, Eq, Structural, Debug)]
pub struct BiquadCoeffs {
    pub b0: i64,
    pub b1: i64,
    pub b2: i64,
    pub a1: i64,
    pub a2: i64,
}

/// All coefficients within the magnitude the recurrence is proved safe
/// for.
pub open spec fn coeffs_valid(c: BiquadCoeffs) -> bool {
    &&& -COEFF_LIMIT <= c.b0 <= COEFF_LIMIT
    &&& -COEFF_LIMIT <= c.b1 <= COEFF_LIMIT
    &&& -COEFF_LIMIT <= c.b2 <= COEFF_LIMIT
    &&& -COEFF_LIMIT <= c.a1 <= COEFF_LIMIT
    &&& -COEFF_LIMIT <= c.a2 <= COEFF_LIMIT
}

/// A coefficient set that passes the signal through unchanged once the
/// histories agree: unit feedforward, and feedback mirroring feedforward.
pub open spec fn coeffs_identity(c: BiquadCoeffs) -> bool {
    &&& c.b0 == FX_ONE
    &&& c.b1 == c.a1
    &&& c.b2 == c.a2
}

impl Default for BiquadCoeffs {
    /// Unity-gain pass-through.
    fn default() -> (r: BiquadCoeffs)
        ensures
            r == (BiquadCoeffs { b0: FX_ONE, b1: 0, b2: 0, a1: 0, a2: 0 }),
            coeffs_valid(r),
            coeffs_identity(r),
    {
        BiquadCoeffs { b0: FX_ONE, b1: 0, b2: 0, a1: 0, a2: 0 }
    }
}

/// Stereo biquad history: two inputs and two outputs per channel.
#[derive(Clone, Copy, PartialEq, Eq, Structural, Debug)]
pub struct BiquadState {
    pub x1_l: i64,
    pub x2_l: i64,
    pub y1_l: i64,
    pub y2_l: i64,
    pub x1_r: i64,
    pub x2_r: i64,
    pub y1_r: i64,
    pub y2_r: i64,
}

/// All history cells within the sample range.
pub open spec fn state_valid(s: BiquadState) -> bool {
    &&& -SAMPLE_LIMIT <= s.x1_l <= SAMPLE_LIMIT
    &&& -SAMPLE_LIMIT <= s.x2_l <= SAMPLE_LIMIT
    &&& -SAMPLE_LIMIT <= s.y1_l <= SAMPLE_LIMIT
    &&& -SAMPLE_LIMIT <= s.y2_l <= SAMPLE_LIMIT
    &&& -SAMPLE_LIMIT <= s.x1_r <= SAMPLE_LIMIT
    &&& -SAMPLE_LIMIT <= s.x2_r <= SAMPLE_LIMIT
    &&& -SAMPLE_LIMIT <= s.y1_r <= SAMPLE_LIMIT
    &&& -SAMPLE_LIMIT <= s.y2_r <= SAMPLE_LIMIT
}

/// The history is settled when each output cell equals the matching input
/// cell; an identity-shaped filter then reproduces its input exactly.
pub open spec fn state_settled(s: BiquadState) -> bool {
    &&& s.x1_l == s.y1_l
    &&& s.x2_l == s.y2_l
    &&& s.x1_r == s.y1_r
    &&& s.x2_r == s.y2_r
}

impl Default for BiquadState {
    /// Cleared history.
    fn default() -> (r: BiquadState)
        ensures
            r == (BiquadState { x1_l: 0, x2_l: 0, y1_l: 0, y2_l: 0, x1_r: 0, x2_r: 0, y1_r: 0,
                y2_r: 0 }),
            state_valid(r),
            state_settled(r),
    {
        BiquadState { x1_l: 0, x2_l: 0, y1_l: 0, y2_l: 0, x1_r: 0, x2_r: 0, y1_r: 0, y2_r: 0 }
    }
}

/// The direct-form-one recurrence, saturated to the sample range:
/// `b0*x + b1*x1 + b2*x2 - a1*y1 - a2*y2`.
pub open spec fn biquad_out(c: BiquadCoeffs, x: int, x1: int, x2: int, y1: int, y2: int) -> int {
    sat_spec(
        fx_mul_spec(c.b0 as int, x) + fx_mul_spec(c.b1 as int, x1) + fx_mul_spec(c.b2 as int, x2)
            - fx_mul_spec(c.a1 as int, y1) - fx_mul_spec(c.a2 as int, y2),
    )
}

/// An identity-shaped coefficient set on a settled history returns the
/// input exactly.
pub proof fn lemma_biquad_identity(c: BiquadCoeffs, x: int, x1: int, x2: int, y1: int, y2: int)
    requires
        coeffs_identity(c),
        x1 == y1,
        x2 == y2,
        -SAMPLE_LIMIT <= x <= SAMPLE_LIMIT,
    ensures
        biquad_out(c, x, x1, x2, y1, y2) == x,
{
    lemma_fx_mul_one(x);
}

impl BiquadState {
    /// Clear the history.
    pub fn reset(&mut self)
        ensures
            *final(self) == (BiquadState { x1_l: 0, x2_l: 0, y1_l: 0, y2_l: 0, x1_r: 0, x2_r: 0,
                y1_r: 0, y2_r: 0 }),
    {
        self.x1_l = 0;
        self.x2_l = 0;
        self.y1_l = 0;
        self.y2_l = 0;
        self.x1_r = 0;
        self.x2_r = 0;
        self.y1_r = 0;
        self.y2_r = 0;
    }

    /// One recurrence step on both channels; the history shifts and takes
    /// the new input and output.
    pub fn process(&mut self, input: StereoSample, coeffs: &BiquadCoeffs) -> (r: StereoSample)
        requires
            state_valid(*old(self)),
            coeffs_valid(*coeffs),
            sample_valid(input),
        ensures
            r.left == biquad_out(*coeffs, input.left as int, old(self).x1_l as int,
                old(self).x2_l as int, old(self).y1_l as int, old(self).y2_l as int),
            r.right == biquad_out(*coeffs, input.right as int, old(self).x1_r as int,
                old(self).x2_r as int, old(self).y1_r as int, old(self).y2_r as int),
            final(self).x1_l == input.left,
            final(self).x2_l == old(self).x1_l,
            final(self).y1_l == r.left,
            final(self).y2_l == old(self).y1_l,
            final(self).x1_r == input.right,
            final(self).x2_r == old(self).x1_r,
            final(self).y1_r == r.right,
            final(self).y2_r == old(self).y1_r,
            state_valid(*final(self)),
            sample_valid(r),
    {
        proof {
            lemma_fx_mul_abs(coeffs.b0 as int, input.left as int, COEFF_LIMIT as int,
                SAMPLE_LIMIT as int);
            lemma_fx_mul_abs(coeffs.b1 as int, self.x1_l as int, COEFF_LIMIT as int,
                SAMPLE_LIMIT as int);
            lemma_fx_mul_abs(coeffs.b2 as int, self.x2_l as int, COEFF_LIMIT as int,
                SAMPLE_LIMIT as int);
            lemma_fx_mul_abs(coeffs.a1 as int, self.y1_l as int, COEFF_LIMIT as int,
                SAMPLE_LIMIT as int);
            lemma_fx_mul_abs(coeffs.a2 as int, self.y2_l as int, COEFF_LIMIT as int,
                SAMPLE_LIMIT as int);
            lemma_fx_mul_abs(coeffs.b0 as int, input.right as int, COEFF_LIMIT as int,
                SAMPLE_LIMIT as int);
            lemma_fx_mul_abs(coeffs.b1 as int, self.x1_r as int, COEFF_LIMIT as int,
                SAMPLE_LIMIT as int);
            lemma_fx_mul_abs(coeffs.b2 as int, self.x2_r as int, COEFF_LIMIT as int,
                SAMPLE_LIMIT as int);
            lemma_fx_mul_abs(coeffs.a1 as int, self.y1_r as int, COEFF_LIMIT as int,
                SAMPLE_LIMIT as int);
            lemma_fx_mul_abs(coeffs.a2 as int, self.y2_r as int, COEFF_LIMIT as int,
                SAMPLE_LIMIT as int);
        }
        let out_l = fx_sat(
            fx_mul(coeffs.b0, input.left) + fx_mul(coeffs.b1, self.x1_l)
                + fx_mul(coeffs.b2, self.x2_l) - fx_mul(coeffs.a1, self.y1_l)
                - fx_mul(coeffs.a2, self.y2_l),
        );
        self.x2_l = self.x1_l;
        self.x1_l = input.left;
        self.y2_l = self.y1_l;
        self.y1_l = out_l;
        let out_r = fx_sat(
            fx_mul(coeffs.b0, input.right) + fx_mul(coeffs.b1, self.x1_r)
                + fx_mul(coeffs.b2, self.x2_r) - fx_mul(coeffs.a1, self.y1_r)
                - fx_mul(coeffs.a2, self.y2_r),
        );
        self.x2_r = self.x1_r;
        self.x1_r = input.right;
        self.y2_r = self.y1_r;
        self.y1_r = out_r;
        StereoSample { left: out_l, right: out_r }
    }
}

/// The angular frequency `tau * f / sr`, with the frequency ratio clamped
/// below the Nyquist half so the trigonometric approximations stay in
/// range.
pub open spec fn spec_omega(freq: int, sr: int) -> int {
    fx_mul_spec(6_283_185, clamp_spec((freq * 1_000_000) / sr, 0, 450_000))
}

/// The angular frequency, exact per `spec_omega`.
fn omega(freq: u32, sr: u32) -> (r: i64)
    requires
        1 <= sr,
    ensures
        r == spec_omega(freq as int, sr as int),
        0 <= r <= 2_827_433,
{
    let ratio_raw: u64 = ((freq as u64) * 1_000_000) / (sr as u64);
    let normalized: i64 = if ratio_raw > 450_000 {
        450_000
    } else {
        ratio_raw as i64
    };
    proof {
        assert(normalized == clamp_spec((freq as int * 1_000_000) / (sr as int), 0, 450_000));
        lemma_fx_mul_abs(6_283_185, normalized as int, 6_283_185, 450_000);
        lemma_fx_mul_nonneg(6_283_185, normalized as int);
    }
    fx_mul(TAU_FX, normalized)
}

/// Low-shelf coefficients for a corner frequency, gain and sample rate.
pub open spec fn spec_calc_low_shelf(freq: int, g: int, sr: int) -> BiquadCoeffs {
    let a = spec_pow10_db(g);
    let w0 = spec_omega(freq, sr);
    let cosw = spec_cos_fx(w0);
    let sinw = spec_sin_fx(w0);
    let inv_a = fx_div_spec(1_000_000, a);
    let s_in = fx_mul_spec(a + inv_a, 111_111) + 2_000_000;
    let root = spec_sqrt_fx(s_in);
    let alpha = fx_mul_spec(div_trunc_spec(sinw, 2), root);
    let tsa = 2 * fx_mul_spec(spec_sqrt_fx(a), alpha);
    let ap1 = a + 1_000_000;
    let am1 = a - 1_000_000;
    let am1_cos = fx_mul_spec(am1, cosw);
    let ap1_cos = fx_mul_spec(ap1, cosw);
    let a0 = ap1 + am1_cos + tsa;
    BiquadCoeffs {
        b0: clamp_spec(fx_div_spec(fx_mul_spec(a, ap1 - am1_cos + tsa), a0), -64_000_000,
            64_000_000) as i64,
        b1: clamp_spec(fx_div_spec(2 * fx_mul_spec(a, am1 - ap1_cos), a0), -64_000_000,
            64_000_000) as i64,
        b2: clamp_spec(fx_div_spec(fx_mul_spec(a, ap1 - am1_cos - tsa), a0), -64_000_000,
            64_000_000) as i64,
        a1: clamp_spec(fx_div_spec(-2 * (am1 + ap1_cos), a0), -64_000_000, 64_000_000) as i64,
        a2: clamp_spec(fx_div_spec(ap1 + am1_cos - tsa, a0), -64_000_000, 64_000_000) as i64,
    }
}

/// High-shelf coefficients for a corner frequency, gain and sample rate.
pub open spec fn spec_calc_high_shelf(freq: int, g: int, sr: int) -> BiquadCoeffs {
    let a = spec_pow10_db(g);
    let w0 = spec_omega(freq, sr);
    let cosw = spec_cos_fx(w0);
    let sinw = spec_sin_fx(w0);
    let inv_a = fx_div_spec(1_000_000, a);
    let s_in = fx_mul_spec(a + inv_a, 111_111) + 2_000_000;
    let root = spec_sqrt_fx(s_in);
    let alpha = fx_mul_spec(div_trunc_spec(sinw, 2), root);
    let tsa = 2 * fx_mul_spec(spec_sqrt_fx(a), alpha);
    let ap1 = a + 1_000_000;
    let am1 = a - 1_000_000;
    let am1_cos = fx_mul_spec(am1, cosw);
    let ap1_cos = fx_mul_spec(ap1, cosw);
    let a0 = ap1 - am1_cos + tsa;
    BiquadCoeffs {
        b0: clamp_spec(fx_div_spec(fx_mul_spec(a, ap1 + am1_cos + tsa), a0), -64_000_000,
            64_000_000) as i64,
        b1: clamp_spec(fx_div_spec(-2 * fx_mul_spec(a, am1 + ap1_cos), a0), -64_000_000,
            64_000_000) as i64,
        b2: clamp_spec(fx_div_spec(fx_mul_spec(a, ap1 + am1_cos - tsa), a0), -64_000_000,
            64_000_000) as i64,
        a1: clamp_spec(fx_div_spec(2 * (am1 - ap1_cos), a0), -64_000_000, 64_000_000) as i64,
        a2: clamp_spec(fx_div_spec(ap1 - am1_cos - tsa, a0), -64_000_000, 64_000_000) as i64,
    }
}

/// Peak (parametric) coefficients for a center frequency, gain, quality
/// factor and sample rate.
pub open spec fn spec_calc_peak(freq: int, g: int, q: int, sr: int) -> BiquadCoeffs {
    let a = spec_pow10_db(g);
    let w0 = spec_omega(freq, sr);
    let cosw = spec_cos_fx(w0);
    let sinw = spec_sin_fx(w0);
    let alpha = fx_div_spec(sinw, 2 * q);
    let alpha_a = fx_mul_spec(alpha, a);
    let alpha_over_a = fx_div_spec(alpha, a);
    let a0 = 1_000_000 + alpha_over_a;
    BiquadCoeffs {
        b0: clamp_spec(fx_div_spec(1_000_000 + alpha_a, a0), -64_000_000, 64_000_000) as i64,
        b1: clamp_spec(fx_div_spec(-2 * cosw, a0), -64_000_000, 64_000_000) as i64,
        b2: clamp_spec(fx_div_spec(1_000_000 - alpha_a, a0), -64_000_000, 64_000_000) as i64,
        a1: clamp_spec(fx_div_spec(-2 * cosw, a0), -64_000_000, 64_000_000) as i64,
        a2: clamp_spec(fx_div_spec(1_000_000 - alpha_over_a, a0), -64_000_000, 64_000_000) as i64,
    }
}

/// The shared shelf intermediates at zero gain: the amplitude is exactly
/// one, so the asymmetric terms vanish and the design is identity-shaped.
proof fn lemma_shelf_zero_gain_parts(freq: int, sr: int) -> (parts: (int, int, int, int))
    requires
        1 <= sr,
    ensures
        ({
            let a = spec_pow10_db(0);
            let w0 = spec_omega(freq, sr);
            let cosw = spec_cos_fx(w0);
            let sinw = spec_sin_fx(w0);
            let inv_a = fx_div_spec(1_000_000, a);
            let s_in = fx_mul_spec(a + inv_a, 111_111) + 2_000_000;
            let root = spec_sqrt_fx(s_in);
            let alpha = fx_mul_spec(div_trunc_spec(sinw, 2), root);
            let tsa = 2 * fx_mul_spec(spec_sqrt_fx(a), alpha);
            &&& a == 1_000_000
            &&& fx_mul_spec(a - 1_000_000, cosw) == 0
            &&& tsa >= 0
            &&& parts == (a, cosw, tsa, fx_mul_spec(a + 1_000_000, cosw))
        }),
{
    crate::approx::lemma_pow10_db_zero();
    let a = spec_pow10_db(0);
    let w0 = spec_omega(freq, sr);
    let cosw = spec_cos_fx(w0);
    let sinw = spec_sin_fx(w0);
    lemma_fx_mul_zero(cosw);
    let inv_a = fx_div_spec(1_000_000, a);
    lemma_fx_div_one(1_000_000);
    assert(inv_a == 1_000_000);
    let s_in = fx_mul_spec(a + inv_a, 111_111) + 2_000_000;
    assert(fx_mul_spec(2_000_000, 111_111) == 222_222);
    assert(s_in == 2_222_222);
    let root = spec_sqrt_fx(s_in);
    lemma_isqrt_exists(2_222_222int * 1_000_000int);
    assert(root >= 0);
    assert(sinw >= 0);
    let half_sin = div_trunc_spec(sinw, 2);
    assert(half_sin >= 0);
    let alpha = fx_mul_spec(half_sin, root);
    lemma_fx_mul_nonneg(half_sin, root);
    assert((1_000_000int) * (1_000_000int) <= 1_000_000_000_000int && 1_000_000_000_000int < (
    1_000_001int) * (1_000_001int)) by (nonlinear_arith);
    lemma_isqrt_unique(1_000_000_000_000, 1_000_000);
    assert(spec_sqrt_fx(a) == 1_000_000);
    lemma_fx_mul_one(alpha);
    let tsa = 2 * fx_mul_spec(spec_sqrt_fx(a), alpha);
    assert(tsa == 2 * alpha);
    (a, cosw, tsa, fx_mul_spec(a + 1_000_000, cosw))
}

/// At zero decibels the low shelf is identity-shaped.
pub proof fn lemma_low_shelf_identity(freq: int, sr: int)
    requires
        1 <= sr,
    ensures
        coeffs_identity(spec_calc_low_shelf(freq, 0, sr)),
{
    let parts = lemma_shelf_zero_gain_parts(freq, sr);
    let a = parts.0;
    let tsa = parts.2;
    let ap1_cos = parts.3;
    let ap1 = a + 1_000_000;
    let a0 = ap1 + 0 + tsa;
    assert(a0 >= 1);
    lemma_fx_mul_one(ap1 + tsa);
    lemma_fx_mul_one(0 - ap1_cos);
    lemma_fx_mul_one(ap1 - tsa);
    lemma_fx_div_self(a0);
    assert(spec_calc_low_shelf(freq, 0, sr).b0 == 1_000_000);
}

/// At zero decibels the high shelf is identity-shaped.
pub proof fn lemma_high_shelf_identity(freq: int, sr: int)
    requires
        1 <= sr,
    ensures
        coeffs_identity(spec_calc_high_shelf(freq, 0, sr)),
{
    let parts = lemma_shelf_zero_gain_parts(freq, sr);
    let a = parts.0;
    let tsa = parts.2;
    let ap1_cos = parts.3;
    let ap1 = a + 1_000_000;
    let a0 = ap1 - 0 + tsa;
    assert(a0 >= 1);
    lemma_fx_mul_one(ap1 + tsa);
    lemma_fx_mul_one(0 + ap1_cos);
    lemma_fx_mul_one(ap1 - tsa);
    lemma_fx_div_self(a0);
    assert(spec_calc_high_shelf(freq, 0, sr).b0 == 1_000_000);
}

/// At zero decibels the peak filter is identity-shaped.
pub proof fn lemma_peak_identity(freq: int, q: int, sr: int)
    requires
        1 <= sr,
        500_000 <= q <= 4_000_000,
    ensures
        coeffs_identity(spec_calc_peak(freq, 0, q, sr)),
{
    crate::approx::lemma_pow10_db_zero();
    let a = spec_pow10_db(0);
    let w0 = spec_omega(freq, sr);
    let sinw = spec_sin_fx(w0);
    let alpha = fx_div_spec(sinw, 2 * q);
    lemma_fx_div_bounds(sinw, 2 * q, 1_000_000, 1_000_000);
    lemma_fx_mul_one(alpha);
    lemma_fx_div_one(alpha);
    let a0 = 1_000_000 + fx_div_spec(alpha, a);
    assert(a0 >= 1);
    lemma_fx_div_self(a0);
    assert(spec_calc_peak(freq, 0, q, sr).b0 == 1_000_000);
}

/// Low-shelf coefficients, exact per `spec_calc_low_shelf`.
#[verifier::rlimit(80)]
fn calc_low_shelf(freq: u32, gain_db: i64, sample_rate: u32) -> (r: BiquadCoeffs)
    requires
        -12_000_000 <= gain_db <= 12_000_000,
        1 <= sample_rate,
    ensures
        r == spec_calc_low_shelf(freq as int, gain_db as int, sample_rate as int),
        coeffs_valid(r),
        gain_db == 0 ==> coeffs_identity(r),
{
    let a = pow10_db(gain_db);
    let w0 = omega(freq, sample_rate);
    let cosw = cos_fx(w0);
    let sinw = sin_fx(w0);
    let inv_a = fx_div(FX_ONE, a);
    proof {
        lemma_fx_div_bounds(1_000_000, a as int, 1_000_000, 490_000);
    }
    let s_base = a + inv_a;
    proof {
        lemma_fx_mul_abs(s_base as int, 111_111, 4_100_000, 111_111);
        lemma_fx_mul_nonneg(s_base as int, 111_111);
    }
    let s_in = fx_mul(s_base, 111_111) + 2_000_000;
    let root = sqrt_fx(s_in);
    let half_sin = div_trunc(sinw, 2);
    proof {
        lemma_fx_mul_abs(half_sin as int, root as int, 500_000, 2_100_000);
        lemma_fx_mul_nonneg(half_sin as int, root as int);
    }
    let alpha = fx_mul(half_sin, root);
    let sqa = sqrt_fx(a);
    proof {
        lemma_fx_mul_abs(sqa as int, alpha as int, 2_100_000, 1_050_000);
        lemma_fx_mul_nonneg(sqa as int, alpha as int);
    }
    let tsa = 2 * fx_mul(sqa, alpha);
    let ap1 = a + FX_ONE;
    let am1 = a - FX_ONE;
    proof {
        lemma_fx_mul_abs(am1 as int, cosw as int, 1_050_000, 1_000_000);
        lemma_fx_mul_abs(ap1 as int, cosw as int, 3_050_000, 1_000_000);
    }
    let am1_cos = fx_mul(am1, cosw);
    let ap1_cos = fx_mul(ap1, cosw);
    let a0 = ap1 + am1_cos + tsa;
    proof {
        lemma_fx_mul_abs(a as int, (ap1 - am1_cos + tsa) as int, 2_050_000, 8_510_000);
        lemma_fx_mul_abs(a as int, (am1 - ap1_cos) as int, 2_050_000, 4_100_000);
        lemma_fx_mul_abs(a as int, (ap1 - am1_cos - tsa) as int, 2_050_000, 8_510_000);
    }
    let n_b0 = fx_mul(a, ap1 - am1_cos + tsa);
    let n_b1 = 2 * fx_mul(a, am1 - ap1_cos);
    let n_b2 = fx_mul(a, ap1 - am1_cos - tsa);
    let n_a1 = -2 * (am1 + ap1_cos);
    let n_a2 = ap1 + am1_cos - tsa;
    let r = BiquadCoeffs {
        b0: fx_clamp(fx_div(n_b0, a0), -COEFF_LIMIT, COEFF_LIMIT),
        b1: fx_clamp(fx_div(n_b1, a0), -COEFF_LIMIT, COEFF_LIMIT),
        b2: fx_clamp(fx_div(n_b2, a0), -COEFF_LIMIT, COEFF_LIMIT),
        a1: fx_clamp(fx_div(n_a1, a0), -COEFF_LIMIT, COEFF_LIMIT),
        a2: fx_clamp(fx_div(n_a2, a0), -COEFF_LIMIT, COEFF_LIMIT),
    };
    proof {
        if gain_db == 0 {
            lemma_low_shelf_identity(freq as int, sample_rate as int);
        }
    }
    r
}

/// High-shelf coefficients, exact per `spec_calc_high_shelf`.
#[verifier::rlimit(80)]
fn calc_high_shelf(freq: u32, gain_db: i64, sample_rate: u32) -> (r: BiquadCoeffs)
    requires
        -12_000_000 <= gain_db <= 12_000_000,
        1 <= sample_rate,
    ensures
        r == spec_calc_high_shelf(freq as int, gain_db as int, sample_rate as int),
        coeffs_valid(r),
        gain_db == 0 ==> coeffs_identity(r),
{
    let a = pow10_db(gain_db);
    let w0 = omega(freq, sample_rate);
    let cosw = cos_fx(w0);
    let sinw = sin_fx(w0);
    let inv_a = fx_div(FX_ONE, a);
    proof {
        lemma_fx_div_bounds(1_000_000, a as int, 1_000_000, 490_000);
    }
    let s_base = a + inv_a;
    proof {
        lemma_fx_mul_abs(s_base as int, 111_111, 4_100_000, 111_111);
        lemma_fx_mul_nonneg(s_base as int, 111_111);
    }
    let s_in = fx_mul(s_base, 111_111) + 2_000_000;
    let root = sqrt_fx(s_in);
    let half_sin = div_trunc(sinw, 2);
    proof {
        lemma_fx_mul_abs(half_sin as int, root as int, 500_000, 2_100_000);
        lemma_fx_mul_nonneg(half_sin as int, root as int);
    }
    let alpha = fx_mul(half_sin, root);
    let sqa = sqrt_fx(a);
    proof {
        lemma_fx_mul_abs(sqa as int, alpha as int, 2_100_000, 1_050_000);
        lemma_fx_mul_nonneg(sqa as int, alpha as int);
    }
    let tsa = 2 * fx_mul(sqa, alpha);
    let ap1 = a + FX_ONE;
    let am1 = a - FX_ONE;
    proof {
        lemma_fx_mul_abs(am1 as int, cosw as int, 1_050_000, 1_000_000);
        lemma_fx_mul_abs(ap1 as int, cosw as int, 3_050_000, 1_000_000);
    }
    let am1_cos = fx_mul(am1, cosw);
    let ap1_cos = fx_mul(ap1, cosw);
    let a0 = ap1 - am1_cos + tsa;
    proof {
        lemma_fx_mul_abs(a as int, (ap1 + am1_cos + tsa) as int, 2_050_000, 8_510_000);
        lemma_fx_mul_abs(a as int, (am1 + ap1_cos) as int, 2_050_000, 4_100_000);
        lemma_fx_mul_abs(a as int, (ap1 + am1_cos - tsa) as int, 2_050_000, 8_510_000);
    }
    let n_b0 = fx_mul(a, ap1 + am1_cos + tsa);
    let n_b1 = -2 * fx_mul(a, am1 + ap1_cos);
    let n_b2 = fx_mul(a, ap1 + am1_cos - tsa);
    let n_a1 = 2 * (am1 - ap1_cos);
    let n_a2 = ap1 - am1_cos - tsa;
    let r = BiquadCoeffs {
        b0: fx_clamp(fx_div(n_b0, a0), -COEFF_LIMIT, COEFF_LIMIT),
        b1: fx_clamp(fx_div(n_b1, a0), -COEFF_LIMIT, COEFF_LIMIT),
        b2: fx_clamp(fx_div(n_b2, a0), -COEFF_LIMIT, COEFF_LIMIT),
        a1: fx_clamp(fx_div(n_a1, a0), -COEFF_LIMIT, COEFF_LIMIT),
        a2: fx_clamp(fx_div(n_a2, a0), -COEFF_LIMIT, COEFF_LIMIT),
    };
    proof {
        if gain_db == 0 {
            lemma_high_shelf_identity(freq as int, sample_rate as int);
        }
    }
    r
}

/// Peak coefficients, exact per `spec_calc_peak`.
#[verifier::rlimit(80)]
fn calc_peak(freq: u32, gain_db: i64, q: i64, sample_rate: u32) -> (r: BiquadCoeffs)
    requires
        -12_000_000 <= gain_db <= 12_000_000,
        500_000 <= q <= 4_000_000,
        1 <= sample_rate,
    ensures
        r == spec_calc_peak(freq as int, gain_db as int, q as int, sample_rate as int),
        coeffs_valid(r),
        gain_db == 0 ==> coeffs_identity(r),
{
    let a = pow10_db(gain_db);
    let w0 = omega(freq, sample_rate);
    let cosw = cos_fx(w0);
    let sinw = sin_fx(w0);
    let alpha = fx_div(sinw, 2 * q);
    proof {
        lemma_fx_div_bounds(sinw as int, (2 * q) as int, 1_000_000, 1_000_000);
    }
    proof {
        lemma_fx_mul_abs(alpha as int, a as int, 1_000_000, 2_050_000);
        lemma_fx_div_bounds(alpha as int, a as int, 1_000_000, 490_000);
    }
    let alpha_a = fx_mul(alpha, a);
    let alpha_over_a = fx_div(alpha, a);
    let a0 = FX_ONE + alpha_over_a;
    let r = BiquadCoeffs {
        b0: fx_clamp(fx_div(FX_ONE + alpha_a, a0), -COEFF_LIMIT, COEFF_LIMIT),
        b1: fx_clamp(fx_div(-2 * cosw, a0), -COEFF_LIMIT, COEFF_LIMIT),
        b2: fx_clamp(fx_div(FX_ONE - alpha_a, a0), -COEFF_LIMIT, COEFF_LIMIT),
        a1: fx_clamp(fx_div(-2 * cosw, a0), -COEFF_LIMIT, COEFF_LIMIT),
        a2: fx_clamp(fx_div(FX_ONE - alpha_over_a, a0), -COEFF_LIMIT, COEFF_LIMIT),
    };
    proof {
        if gain_db == 0 {
            lemma_peak_identity(freq as int, q as int, sample_rate as int);
        }
    }
    r
}

/// The three filter stages' coefficient tuples as the next `process` call
/// will use them: recomputed from the parameters when dirty, else as
/// stored.
pub open spec fn eq_coeffs_low(e: Eq) -> BiquadCoeffs {
    if e.coeffs_dirty {
        spec_calc_low_shelf(e.low_freq as int, e.low_gain as int, e.sample_rate as int)
    } else {
        e.low_coeffs
    }
}

/// The mid peak coefficients the next `process` call will use.
pub open spec fn eq_coeffs_mid(e: Eq) -> BiquadCoeffs {
    if e.coeffs_dirty {
        spec_calc_peak(e.mid_freq as int, e.mid_gain as int, e.mid_q as int, e.sample_rate as int)
    } else {
        e.mid_coeffs
    }
}

/// The high shelf coefficients the next `process` call will use.
pub open spec fn eq_coeffs_high(e: Eq) -> BiquadCoeffs {
    if e.coeffs_dirty {
        spec_calc_high_shelf(e.high_freq as int, e.high_gain as int, e.sample_rate as int)
    } else {
        e.high_coeffs
    }
}

/// One stage's output sample.
pub open spec fn biquad_step_out(s: BiquadState, c: BiquadCoeffs, input: StereoSample)
    -> StereoSample {
    StereoSample {
        left: biquad_out(c, input.left as int, s.x1_l as int, s.x2_l as int, s.y1_l as int,
            s.y2_l as int) as i64,
        right: biquad_out(c, input.right as int, s.x1_r as int, s.x2_r as int, s.y1_r as int,
            s.y2_r as int) as i64,
    }
}

/// One stage's shifted history.
pub open spec fn biquad_step_state(s: BiquadState, c: BiquadCoeffs, input: StereoSample)
    -> BiquadState {
    let o = biquad_step_out(s, c, input);
    BiquadState {
        x1_l: input.left,
        x2_l: s.x1_l,
        y1_l: o.left,
        y2_l: s.y1_l,
        x1_r: input.right,
        x2_r: s.x1_r,
        y1_r: o.right,
        y2_r: s.y1_r,
    }
}

/// What one `process` call returns: the three stages in series.
pub open spec fn eq_process_out(e: Eq, input: StereoSample) -> StereoSample {
    let o1 = biquad_step_out(e.low_state, eq_coeffs_low(e), input);
    let o2 = biquad_step_out(e.mid_state, eq_coeffs_mid(e), o1);
    biquad_step_out(e.high_state, eq_coeffs_high(e), o2)
}

/// The low stage's history after one `process` call.
pub open spec fn eq_process_low_state(e: Eq, input: StereoSample) -> BiquadState {
    biquad_step_state(e.low_state, eq_coeffs_low(e), input)
}

/// The mid stage's history after one `process` call.
pub open spec fn eq_process_mid_state(e: Eq, input: StereoSample) -> BiquadState {
    let o1 = biquad_step_out(e.low_state, eq_coeffs_low(e), input);
    biquad_step_state(e.mid_state, eq_coeffs_mid(e), o1)
}

/// The high stage's history after one `process` call.
pub open spec fn eq_process_high_state(e: Eq, input: StereoSample) -> BiquadState {
    let o1 = biquad_step_out(e.low_state, eq_coeffs_low(e), input);
    let o2 = biquad_step_out(e.mid_state, eq_coeffs_mid(e), o1);
    biquad_step_state(e.high_state, eq_coeffs_high(e), o2)
}

/// Three-band EQ: low shelf, mid peak and high shelf in series.
pub struct Eq {
    pub low_state: BiquadState,
    pub mid_state: BiquadState,
    pub high_state: BiquadState,
    pub low_coeffs: BiquadCoeffs,
    pub mid_coeffs: BiquadCoeffs,
    pub high_coeffs: BiquadCoeffs,
    pub low_freq: u32,
    pub low_gain: i64,
    pub mid_freq: u32,
    pub mid_gain: i64,
    pub mid_q: i64,
    pub high_freq: u32,
    pub high_gain: i64,
    pub sample_rate: u32,
    pub bypassed: bool,
    pub coeffs_dirty: bool,
}

/// The EQ's invariant: parameters in their documented ranges, histories
/// and coefficients in range, and clean coefficients actually derived
/// from the parameters.
pub open spec fn eq_valid(e: Eq) -> bool {
    &&& MIN_SAMPLE_RATE <= e.sample_rate <= MAX_SAMPLE_RATE
    &&& 20 <= e.low_freq <= 500
    &&& -12_000_000 <= e.low_gain <= 12_000_000
    &&& 200 <= e.mid_freq <= 8_000
    &&& -12_000_000 <= e.mid_gain <= 12_000_000
    &&& 500_000 <= e.mid_q <= 4_000_000
    &&& 2_000 <= e.high_freq <= 20_000
    &&& -12_000_000 <= e.high_gain <= 12_000_000
    &&& state_valid(e.low_state)
    &&& state_valid(e.mid_state)
    &&& state_valid(e.high_state)
    &&& coeffs_valid(e.low_coeffs)
    &&& coeffs_valid(e.mid_coeffs)
    &&& coeffs_valid(e.high_coeffs)
    &&& !e.coeffs_dirty ==> e.low_coeffs == spec_calc_low_shelf(e.low_freq as int,
        e.low_gain as int, e.sample_rate as int)
    &&& !e.coeffs_dirty ==> e.mid_coeffs == spec_calc_peak(e.mid_freq as int, e.mid_gain as int,
        e.mid_q as int, e.sample_rate as int)
    &&& !e.coeffs_dirty ==> e.high_coeffs == spec_calc_high_shelf(e.high_freq as int,
        e.high_gain as int, e.sample_rate as int)
}

impl Eq {
    /// A fresh EQ at a sample rate, flat (all gains zero) with cleared
    /// histories and coefficients already computed.
    pub fn new(sample_rate: u32) -> (r: Eq)
        requires
            MIN_SAMPLE_RATE <= sample_rate <= MAX_SAMPLE_RATE,
        ensures
            eq_valid(r),
            !r.coeffs_dirty,
            r.sample_rate == sample_rate,
            r.low_freq == 200 && r.low_gain == 0,
            r.mid_freq == 1_000 && r.mid_gain == 0 && r.mid_q == FX_ONE,
            r.high_freq == 4_000 && r.high_gain == 0,
            r.bypassed == false,
            r.low_state == (BiquadState { x1_l: 0, x2_l: 0, y1_l: 0, y2_l: 0, x1_r: 0, x2_r: 0,
                y1_r: 0, y2_r: 0 }),
            r.mid_state == r.low_state,
            r.high_state == r.low_state,
            state_settled(r.low_state),
            state_settled(r.mid_state),
            state_settled(r.high_state),
    {
        let mut eq = Eq {
            low_state: BiquadState::default(),
            mid_state: BiquadState::default(),
            high_state: BiquadState::default(),
            low_coeffs: BiquadCoeffs::default(),
            mid_coeffs: BiquadCoeffs::default(),
            high_coeffs: BiquadCoeffs::default(),
            low_freq: 200,
            low_gain: 0,
            mid_freq: 1_000,
            mid_gain: 0,
            mid_q: FX_ONE,
            high_freq: 4_000,
            high_gain: 0,
            sample_rate,
            bypassed: false,
            coeffs_dirty: true,
        };
        eq.update_coefficients();
        eq
    }

    /// Set the low shelf corner frequency, clamped to `[20, 500]` Hz.
    pub fn set_low_freq(&mut self, freq: u32)
        requires
            eq_valid(*old(self)),
        ensures
            eq_valid(*final(self)),
            ({
                let clamped = clamp_spec(freq as int, 20, 500);
                if clamped != old(self).low_freq {
                    *final(self) == (Eq { low_freq: clamped as u32, coeffs_dirty: true,
                        ..*old(self) })
                } else {
                    *final(self) == *old(self)
                }
            }),
    {
        let clamped: u32 = if freq < 20 {
            20
        } else if freq > 500 {
            500
        } else {
            freq
        };
        if clamped != self.low_freq {
            self.low_freq = clamped;
            self.coeffs_dirty = true;
        }
    }

    /// Set the low shelf gain, clamped to +/- 12 dB; changes below the
    /// epsilon are ignored.
    pub fn set_low_gain(&mut self, gain_db: i64)
        requires
            eq_valid(*old(self)),
        ensures
            eq_valid(*final(self)),
            ({
                let clamped = clamp_spec(gain_db as int, -12_000_000, 12_000_000);
                if clamped - old(self).low_gain > PARAM_EPS || old(self).low_gain - clamped
                    > PARAM_EPS {
                    *final(self) == (Eq { low_gain: clamped as i64, coeffs_dirty: true,
                        ..*old(self) })
                } else {
                    *final(self) == *old(self)
                }
            }),
    {
        let clamped = fx_clamp(gain_db, -12_000_000, 12_000_000);
        let diff = if clamped >= self.low_gain {
            clamped - self.low_gain
        } else {
            self.low_gain - clamped
        };
        if diff > PARAM_EPS {
            self.low_gain = clamped;
            self.coeffs_dirty = true;
        }
    }

    /// Set the mid peak center frequency, clamped to `[200, 8000]` Hz.
    pub fn set_mid_freq(&mut self, freq: u32)
        requires
            eq_valid(*old(self)),
        ensures
            eq_valid(*final(self)),
            ({
                let clamped = clamp_spec(freq as int, 200, 8_000);
                if clamped != old(self).mid_freq {
                    *final(self) == (Eq { mid_freq: clamped as u32, coeffs_dirty: true,
                        ..*old(self) })
                } else {
                    *final(self) == *old(self)
                }
            }),
    {
        let clamped: u32 = if freq < 200 {
            200
        } else if freq > 8_000 {
            8_000
        } else {
            freq
        };
        if clamped != self.mid_freq {
            self.mid_freq = clamped;
            self.coeffs_dirty = true;
        }
    }

    /// Set the mid peak gain, clamped to +/- 12 dB.
    pub fn set_mid_gain(&mut self, gain_db: i64)
        requires
            eq_valid(*old(self)),
        ensures
            eq_valid(*final(self)),
            ({
                let clamped = clamp_spec(gain_db as int, -12_000_000, 12_000_000);
                if clamped - old(self).mid_gain > PARAM_EPS || old(self).mid_gain - clamped
                    > PARAM_EPS {
                    *final(self) == (Eq { mid_gain: clamped as i64, coeffs_dirty: true,
                        ..*old(self) })
                } else {
                    *final(self) == *old(self)
                }
            }),
    {
        let clamped = fx_clamp(gain_db, -12_000_000, 12_000_000);
        let diff = if clamped >= self.mid_gain {
            clamped - self.mid_gain
        } else {
            self.mid_gain - clamped
        };
        if diff > PARAM_EPS {
            self.mid_gain = clamped;
            self.coeffs_dirty = true;
        }
    }

    /// Set the mid peak quality factor, clamped to `[0.5, 4]`.
    pub fn set_mid_q(&mut self, q: i64)
        requires
            eq_valid(*old(self)),
        ensures
            eq_valid(*final(self)),
            ({
                let clamped = clamp_spec(q as int, 500_000, 4_000_000);
                if clamped - old(self).mid_q > PARAM_EPS || old(self).mid_q - clamped
                    > PARAM_EPS {
                    *final(self) == (Eq { mid_q: clamped as i64, coeffs_dirty: true,
                        ..*old(self) })
                } else {
                    *final(self) == *old(self)
                }
            }),
    {
        let clamped = fx_clamp(q, 500_000, 4_000_000);
        let diff = if clamped >= self.mid_q {
            clamped - self.mid_q
        } else {
            self.mid_q - clamped
        };
        if diff > PARAM_EPS {
            self.mid_q = clamped;
            self.coeffs_dirty = true;
        }
    }

    /// Set the high shelf corner frequency, clamped to `[2000, 20000]` Hz.
    pub fn set_high_freq(&mut self, freq: u32)
        requires
            eq_valid(*old(self)),
        ensures
            eq_valid(*final(self)),
            ({
                let clamped = clamp_spec(freq as int, 2_000, 20_000);
                if clamped != old(self).high_freq {
                    *final(self) == (Eq { high_freq: clamped as u32, coeffs_dirty: true,
                        ..*old(self) })
                } else {
                    *final(self) == *old(self)
                }
            }),
    {
        let clamped: u32 = if freq < 2_000 {
            2_000
        } else if freq > 20_000 {
            20_000
        } else {
            freq
        };
        if clamped != self.high_freq {
            self.high_freq = clamped;
            self.coeffs_dirty = true;
        }
    }

    /// Set the high shelf gain, clamped to +/- 12 dB.
    pub fn set_high_gain(&mut self, gain_db: i64)
        requires
            eq_valid(*old(self)),
        ensures
            eq_valid(*final(self)),
            ({
                let clamped = clamp_spec(gain_db as int, -12_000_000, 12_000_000);
                if clamped - old(self).high_gain > PARAM_EPS || old(self).high_gain - clamped
                    > PARAM_EPS {
                    *final(self) == (Eq { high_gain: clamped as i64, coeffs_dirty: true,
                        ..*old(self) })
                } else {
                    *final(self) == *old(self)
                }
            }),
    {
        let clamped = fx_clamp(gain_db, -12_000_000, 12_000_000);
        let diff = if clamped >= self.high_gain {
            clamped - self.high_gain
        } else {
            self.high_gain - clamped
        };
        if diff > PARAM_EPS {
            self.high_gain = clamped;
            self.coeffs_dirty = true;
        }
    }

    /// Recompute the stored coefficients from the parameters when dirty.
    fn update_coefficients(&mut self)
        requires
            eq_valid(*old(self)),
        ensures
            eq_valid(*final(self)),
            !final(self).coeffs_dirty,
            final(self).low_coeffs == eq_coeffs_low(*old(self)),
            final(self).mid_coeffs == eq_coeffs_mid(*old(self)),
            final(self).high_coeffs == eq_coeffs_high(*old(self)),
            final(self).low_state == old(self).low_state,
            final(self).mid_state == old(self).mid_state,
            final(self).high_state == old(self).high_state,
            final(self).low_freq == old(self).low_freq,
            final(self).low_gain == old(self).low_gain,
            final(self).mid_freq == old(self).mid_freq,
            final(self).mid_gain == old(self).mid_gain,
            final(self).mid_q == old(self).mid_q,
            final(self).high_freq == old(self).high_freq,
            final(self).high_gain == old(self).high_gain,
            final(self).sample_rate == old(self).sample_rate,
            final(self).bypassed == old(self).bypassed,
    {
        if !self.coeffs_dirty {
            return ;
        }
        self.low_coeffs = calc_low_shelf(self.low_freq, self.low_gain, self.sample_rate);
        self.mid_coeffs = calc_peak(self.mid_freq, self.mid_gain, self.mid_q, self.sample_rate);
        self.high_coeffs = calc_high_shelf(self.high_freq, self.high_gain, self.sample_rate);
        self.coeffs_dirty = false;
    }

    /// One EQ step: recompute coefficients if needed, then run the three
    /// stages in series. The output is exactly `eq_process_out` of the
    /// state before the call, and stays in the sample range.
    pub fn process(&mut self, input: StereoSample) -> (r: StereoSample)
        requires
            eq_valid(*old(self)),
            sample_valid(input),
        ensures
            eq_valid(*final(self)),
            sample_valid(r),
            r == eq_process_out(*old(self), input),
            final(self).low_state == eq_process_low_state(*old(self), input),
            final(self).mid_state == eq_process_mid_state(*old(self), input),
            final(self).high_state == eq_process_high_state(*old(self), input),
            final(self).low_coeffs == eq_coeffs_low(*old(self)),
            final(self).mid_coeffs == eq_coeffs_mid(*old(self)),
            final(self).high_coeffs == eq_coeffs_high(*old(self)),
            !final(self).coeffs_dirty,
            final(self).low_freq == old(self).low_freq,
            final(self).low_gain == old(self).low_gain,
            final(self).mid_freq == old(self).mid_freq,
            final(self).mid_gain == old(self).mid_gain,
            final(self).mid_q == old(self).mid_q,
            final(self).high_freq == old(self).high_freq,
            final(self).high_gain == old(self).high_gain,
            final(self).sample_rate == old(self).sample_rate,
            final(self).bypassed == old(self).bypassed,
    {
        self.update_coefficients();
        let after_low = self.low_state.process(input, &self.low_coeffs);
        let after_mid = self.mid_state.process(after_low, &self.mid_coeffs);
        let out = self.high_state.process(after_mid, &self.high_coeffs);
        out
    }

    /// Identity when bypassed, one EQ step otherwise; exact per
    /// `eq_step`.
    pub fn process_with_bypass(&mut self, input: StereoSample) -> (r: StereoSample)
        requires
            eq_valid(*old(self)),
            sample_valid(input),
        ensures
            eq_valid(*final(self)),
            sample_valid(r),
            old(self).bypassed ==> r == input && *final(self) == *old(self),
            ({
                let s = eq_step(*old(self), input);
                *final(self) == s.0 && r == s.1
            }),
    {
        if self.bypassed {
            input
        } else {
            let r = self.process(input);
            proof {
                assert(*self == eq_step(*old(self), input).0);
            }
            r
        }
    }

    /// Change the sample rate; on an actual change the coefficients are
    /// marked stale and the histories are flushed.
    pub fn set_sample_rate(&mut self, rate: u32)
        requires
            eq_valid(*old(self)),
            MIN_SAMPLE_RATE <= rate <= MAX_SAMPLE_RATE,
        ensures
            eq_valid(*final(self)),
            rate == old(self).sample_rate ==> *final(self) == *old(self),
            rate != old(self).sample_rate ==> final(self).sample_rate == rate
                && final(self).coeffs_dirty && final(self).low_state == (BiquadState {
                x1_l: 0,
                x2_l: 0,
                y1_l: 0,
                y2_l: 0,
                x1_r: 0,
                x2_r: 0,
                y1_r: 0,
                y2_r: 0,
            }) && final(self).mid_state == final(self).low_state && final(self).high_state
                == final(self).low_state && final(self).low_freq == old(self).low_freq
                && final(self).low_gain == old(self).low_gain && final(self).mid_freq == old(
                self,
            ).mid_freq && final(self).mid_gain == old(self).mid_gain && final(self).mid_q == old(
                self,
            ).mid_q && final(self).high_freq == old(self).high_freq && final(self).high_gain
                == old(self).high_gain && final(self).bypassed == old(self).bypassed
                && final(self).low_coeffs == old(self).low_coeffs && final(self).mid_coeffs
                == old(self).mid_coeffs && final(self).high_coeffs == old(self).high_coeffs,
    {
        if rate != self.sample_rate {
            self.sample_rate = rate;
            self.coeffs_dirty = true;
            self.reset();
        }
    }

    /// Clear all three stages' histories; parameters and coefficients are
    /// kept.
    pub fn reset(&mut self)
        requires
            eq_valid(*old(self)),
        ensures
            eq_valid(*final(self)),
            final(self).low_state == (BiquadState { x1_l: 0, x2_l: 0, y1_l: 0, y2_l: 0, x1_r: 0,
                x2_r: 0, y1_r: 0, y2_r: 0 }),
            final(self).mid_state == final(self).low_state,
            final(self).high_state == final(self).low_state,
            state_settled(final(self).low_state),
            state_settled(final(self).mid_state),
            state_settled(final(self).high_state),
            *final(self) == (Eq {
                low_state: final(self).low_state,
                mid_state: final(self).mid_state,
                high_state: final(self).high_state,
                ..*old(self)
            }),
    {
        self.low_state.reset();
        self.mid_state.reset();
        self.high_state.reset();
    }

    /// Whether the module is bypassed.
    pub fn is_bypassed(&self) -> (r: bool)
        ensures
            r == self.bypassed,
    {
        self.bypassed
    }

    /// Set the bypass state.
    pub fn set_bypassed(&mut self, bypassed: bool)
        ensures
            *final(self) == (Eq { bypassed, ..*old(self) }),
    {
        self.bypassed = bypassed;
    }
}

/// One EQ step on the value: what `process_with_bypass` does to the
/// state, and what it returns.
pub open spec fn eq_step(e: Eq, input: StereoSample) -> (Eq, StereoSample) {
    if e.bypassed {
        (e, input)
    } else {
        let next = Eq {
            low_state: eq_process_low_state(e, input),
            mid_state: eq_process_mid_state(e, input),
            high_state: eq_process_high_state(e, input),
            low_coeffs: eq_coeffs_low(e),
            mid_coeffs: eq_coeffs_mid(e),
            high_coeffs: eq_coeffs_high(e),
            coeffs_dirty: false,
            ..e
        };
        (next, eq_process_out(e, input))
    }
}

/// With every band gain at zero decibels and settled histories, one EQ
/// step returns its input exactly, and the histories stay settled: the
/// flat EQ is an identity in the steady state.
pub proof fn lemma_eq_flat_identity(e: Eq, input: StereoSample)
    requires
        eq_valid(e),
        sample_valid(input),
        e.low_gain == 0,
        e.mid_gain == 0,
        e.high_gain == 0,
        state_settled(e.low_state),
        state_settled(e.mid_state),
        state_settled(e.high_state),
    ensures
        eq_process_out(e, input) == input,
        state_settled(eq_process_low_state(e, input)),
        state_settled(eq_process_mid_state(e, input)),
        state_settled(eq_process_high_state(e, input)),
{
    lemma_low_shelf_identity(e.low_freq as int, e.sample_rate as int);
    lemma_peak_identity(e.mid_freq as int, e.mid_q as int, e.sample_rate as int);
    lemma_high_shelf_identity(e.high_freq as int, e.sample_rate as int);
    let cl = eq_coeffs_low(e);
    let cm = eq_coeffs_mid(e);
    let ch = eq_coeffs_high(e);
    assert(coeffs_identity(cl));
    assert(coeffs_identity(cm));
    assert(coeffs_identity(ch));
    lemma_biquad_identity(cl, input.left as int, e.low_state.x1_l as int, e.low_state.x2_l as int,
        e.low_state.y1_l as int, e.low_state.y2_l as int);
    lemma_biquad_identity(cl, input.right as int, e.low_state.x1_r as int,
        e.low_state.x2_r as int, e.low_state.y1_r as int, e.low_state.y2_r as int);
    let o1 = biquad_step_out(e.low_state, cl, input);
    assert(o1 == input);
    lemma_biquad_identity(cm, input.left as int, e.mid_state.x1_l as int, e.mid_state.x2_l as int,
        e.mid_state.y1_l as int, e.mid_state.y2_l as int);
    lemma_biquad_identity(cm, input.right as int, e.mid_state.x1_r as int,
        e.mid_state.x2_r as int, e.mid_state.y1_r as int, e.mid_state.y2_r as int);
    let o2 = biquad_step_out(e.mid_state, cm, o1);
    assert(o2 == input);
    lemma_biquad_identity(ch, input.left as int, e.high_state.x1_l as int,
        e.high_state.x2_l as int, e.high_state.y1_l as int, e.high_state.y2_l as int);
    lemma_biquad_identity(ch, input.right as int, e.high_state.x1_r as int,
        e.high_state.x2_r as int, e.high_state.y1_r as int, e.high_state.y2_r as int);
    assert(eq_process_out(e, input) == input);
}

} // verus!

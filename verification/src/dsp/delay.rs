//! Stereo delay: an interpolated circular-buffer echo with filtered
//! feedback and dry/wet mix.

use vstd::prelude::*;
use crate::fixed::{clamp_spec, fx_clamp, fx_mul, fx_mul_spec, fx_sat, lemma_fx_convex_bound,
    lemma_fx_mul_one, lemma_fx_mul_zero, sat_spec, FX_ONE, SAMPLE_LIMIT};
use crate::approx::{exp_neg, spec_exp_neg, TAU_FX};
use crate::dsp::{sample_valid, StereoSample};

verus! {

/// Maximum delay time in seconds; fixes the buffer length.
pub const MAX_DELAY_SECONDS: u32 = 2;

/// Lowest sample rate the modules accept, in hertz: any positive rate.
pub const MIN_SAMPLE_RATE: u32 = 1;

/// Highest sample rate the modules accept, in hertz; a machine limit
/// that keeps buffer lengths and micro-sample offsets within the integer
/// ranges the overflow proofs admit.
pub const MAX_SAMPLE_RATE: u32 = 192_000;

/// One-pole lowpass used to darken the feedback path.
pub struct OnePole {
    pub coeff: i64,
    pub z1_left: i64,
    pub z1_right: i64,
}

/// The coefficient never reaches one and the history cells stay in range,
/// so the filter cannot amplify.
pub open spec fn one_pole_valid(p: OnePole) -> bool {
    &&& 0 <= p.coeff <= 990_000
    &&& -SAMPLE_LIMIT <= p.z1_left <= SAMPLE_LIMIT
    &&& -SAMPLE_LIMIT <= p.z1_right <= SAMPLE_LIMIT
}

/// One recurrence step: `(1 - coeff) * x + coeff * z1`.
pub open spec fn one_pole_out(coeff: int, z1: int, x: int) -> int {
    fx_mul_spec(FX_ONE - coeff, x) + fx_mul_spec(coeff, z1)
}

/// The one-pole coefficient for a cutoff: `e^(-tau * f / sr)` with the
/// frequency ratio clamped to the Nyquist half.
pub open spec fn spec_cutoff_coeff(freq: int, sr: int) -> int {
    spec_exp_neg(fx_mul_spec(TAU_FX as int, clamp_spec((freq * 1_000_000) / sr, 0, 500_000)))
}

impl OnePole {
    /// A fresh filter with a mild default coefficient and cleared history.
    pub fn new() -> (r: OnePole)
        ensures
            r.coeff == 500_000,
            r.z1_left == 0,
            r.z1_right == 0,
            one_pole_valid(r),
    {
        OnePole { coeff: 500_000, z1_left: 0, z1_right: 0 }
    }

    /// Recompute the coefficient for a cutoff frequency.
    pub fn set_cutoff(&mut self, freq: u32, sample_rate: u32)
        requires
            1 <= sample_rate,
            one_pole_valid(*old(self)),
        ensures
            final(self).coeff == spec_cutoff_coeff(freq as int, sample_rate as int),
            final(self).z1_left == old(self).z1_left,
            final(self).z1_right == old(self).z1_right,
            one_pole_valid(*final(self)),
    {
        let scaled: u64 = (freq as u64) * 1_000_000;
        let ratio_raw: u64 = scaled / (sample_rate as u64);
        let normalized: i64 = if ratio_raw > 500_000 {
            500_000
        } else {
            ratio_raw as i64
        };
        proof {
            assert(normalized == clamp_spec(
                (freq as int * 1_000_000) / (sample_rate as int),
                0,
                500_000,
            ));
        }
        let angle = fx_mul(TAU_FX, normalized);
        proof {
            assert(fx_mul_spec(TAU_FX as int, normalized as int) <= 3_200_000
                && fx_mul_spec(TAU_FX as int, normalized as int) >= 0) by {
                crate::fixed::lemma_fx_mul_abs(TAU_FX as int, normalized as int,
                    TAU_FX as int, 500_000);
            }
        }
        self.coeff = exp_neg(angle);
    }

    /// One step of the lowpass on both channels; the history takes the
    /// outputs.
    pub fn process(&mut self, input: StereoSample) -> (r: StereoSample)
        requires
            one_pole_valid(*old(self)),
            sample_valid(input),
        ensures
            r.left == one_pole_out(old(self).coeff as int, old(self).z1_left as int,
                input.left as int),
            r.right == one_pole_out(old(self).coeff as int, old(self).z1_right as int,
                input.right as int),
            final(self).coeff == old(self).coeff,
            final(self).z1_left == r.left,
            final(self).z1_right == r.right,
            one_pole_valid(*final(self)),
            sample_valid(r),
    {
        let gain: i64 = FX_ONE - self.coeff;
        proof {
            lemma_fx_convex_bound(input.left as int, self.z1_left as int, self.coeff as int,
                SAMPLE_LIMIT as int);
            lemma_fx_convex_bound(input.right as int, self.z1_right as int, self.coeff as int,
                SAMPLE_LIMIT as int);
        }
        let out_left = fx_mul(gain, input.left) + fx_mul(self.coeff, self.z1_left);
        let out_right = fx_mul(gain, input.right) + fx_mul(self.coeff, self.z1_right);
        self.z1_left = out_left;
        self.z1_right = out_right;
        StereoSample { left: out_left, right: out_right }
    }

    /// Clear the history cells.
    pub fn reset(&mut self)
        ensures
            final(self).coeff == old(self).coeff,
            final(self).z1_left == 0,
            final(self).z1_right == 0,
    {
        self.z1_left = 0;
        self.z1_right = 0;
    }
}

/// Every cell of a delay buffer is within the sample range.
pub open spec fn buf_bounded(s: Seq<i64>) -> bool {
    forall|i: int| 0 <= i < s.len() ==> -SAMPLE_LIMIT <= #[trigger] s[i] <= SAMPLE_LIMIT
}

/// A fresh buffer of `n` zero cells.
pub fn zero_buffer(n: usize) -> (r: Vec<i64>)
    ensures
        r@.len() == n,
        forall|i: int| 0 <= i < n ==> r@[i] == 0,
{
    let mut v: Vec<i64> = Vec::new();
    let mut k: usize = 0;
    while k < n
        invariant
            k <= n,
            v@.len() == k,
            forall|i: int| 0 <= i < k ==> v@[i] == 0,
        decreases n - k,
    {
        v.push(0);
        k = k + 1;
    }
    v
}

/// Stereo delay effect.
pub struct Delay {
    pub buffer_left: Vec<i64>,
    pub buffer_right: Vec<i64>,
    pub write_pos: usize,
    pub delay_fx: i64,
    pub feedback: i64,
    pub mix: i64,
    pub highcut_freq: u32,
    pub sample_rate: u32,
    pub bypassed: bool,
    pub filter: OnePole,
}

/// The delay's invariant: buffers sized to two seconds plus one cell, the
/// cursor and the read offset inside them, parameters in their documented
/// ranges, all stored samples in range.
pub open spec fn delay_valid(d: Delay) -> bool {
    &&& MIN_SAMPLE_RATE <= d.sample_rate <= MAX_SAMPLE_RATE
    &&& d.buffer_left@.len() == 2 * d.sample_rate + 1
    &&& d.buffer_right@.len() == d.buffer_left@.len()
    &&& d.write_pos < d.buffer_left@.len()
    &&& 0 <= d.delay_fx <= (d.buffer_left@.len() - 1) * 1_000_000
    &&& 0 <= d.feedback <= 950_000
    &&& 0 <= d.mix <= FX_ONE
    &&& 1_000 <= d.highcut_freq <= 20_000
    &&& one_pole_valid(d.filter)
    &&& buf_bounded(d.buffer_left@)
    &&& buf_bounded(d.buffer_right@)
}

/// A fractional circular read: the cell `delay_fx` micro-samples behind
/// the cursor, linearly interpolated between its two neighbours.
pub open spec fn interp_spec(buf: Seq<i64>, wp: int, dfx: int) -> int {
    let len = buf.len() as int;
    let total = wp * 1_000_000 - dfx;
    let t = if total < 0 {
        total + len * 1_000_000
    } else {
        total
    };
    let i0 = t / 1_000_000;
    let frac = t % 1_000_000;
    let i1 = if i0 + 1 < len {
        i0 + 1
    } else {
        0
    };
    fx_mul_spec(buf[i0] as int, 1_000_000 - frac) + fx_mul_spec(buf[i1] as int, frac)
}

/// What the delay writes at the cursor: the input plus the filtered echo
/// scaled by the feedback gain, saturated.
pub open spec fn delay_written(input: int, filtered: int, feedback: int) -> int {
    sat_spec(input + fx_mul_spec(filtered, feedback))
}

/// The delay's mathematical model: buffer contents, cursor and
/// parameters as plain values.
pub struct DelayModel {
    pub left: Seq<i64>,
    pub right: Seq<i64>,
    pub write_pos: int,
    pub delay_fx: int,
    pub feedback: int,
    pub mix: int,
    pub coeff: int,
    pub z1_left: int,
    pub z1_right: int,
    pub bypassed: bool,
}

/// The model of a delay value.
pub open spec fn delay_model(d: Delay) -> DelayModel {
    DelayModel {
        left: d.buffer_left@,
        right: d.buffer_right@,
        write_pos: d.write_pos as int,
        delay_fx: d.delay_fx as int,
        feedback: d.feedback as int,
        mix: d.mix as int,
        coeff: d.filter.coeff as int,
        z1_left: d.filter.z1_left as int,
        z1_right: d.filter.z1_right as int,
        bypassed: d.bypassed,
    }
}

/// One delay step on the model: what `process_with_bypass` does to the
/// state, and what it returns.
pub open spec fn delay_step(m: DelayModel, input: StereoSample) -> (DelayModel, StereoSample) {
    if m.bypassed {
        (m, input)
    } else {
        let dl = interp_spec(m.left, m.write_pos, m.delay_fx);
        let dr = interp_spec(m.right, m.write_pos, m.delay_fx);
        let fl = one_pole_out(m.coeff, m.z1_left, dl);
        let fr = one_pole_out(m.coeff, m.z1_right, dr);
        let next = DelayModel {
            left: m.left.update(m.write_pos, delay_written(input.left as int, fl, m.feedback) as i64),
            right: m.right.update(m.write_pos, delay_written(input.right as int, fr, m.feedback) as i64),
            write_pos: (m.write_pos + 1) % (m.left.len() as int),
            z1_left: fl,
            z1_right: fr,
            ..m
        };
        let out = StereoSample {
            left: (fx_mul_spec(input.left as int, 1_000_000 - m.mix) + fx_mul_spec(dl, m.mix)) as i64,
            right: (fx_mul_spec(input.right as int, 1_000_000 - m.mix) + fx_mul_spec(dr, m.mix)) as i64,
        };
        (next, out)
    }
}

/// An all-silent buffer.
pub open spec fn zeros(n: int) -> Seq<i64> {
    Seq::new(n as nat, |i: int| 0i64)
}

/// A silent stereo sample.
pub open spec fn silence() -> StereoSample {
    StereoSample { left: 0, right: 0 }
}

/// A sequence of silent samples.
pub open spec fn silence_seq(n: int) -> Seq<StereoSample> {
    Seq::new(n as nat, |i: int| silence())
}

/// An impulse followed by silence.
pub open spec fn impulse_input(amp: i64, n: int) -> Seq<StereoSample> {
    Seq::new(
        n as nat,
        |i: int|
            if i == 0 {
                StereoSample { left: amp, right: amp }
            } else {
                silence()
            },
    )
}

/// A fresh, fully wet, feedback-free delay model.
pub open spec fn fresh_model(len: int, dfx: int, c: int) -> DelayModel {
    DelayModel {
        left: zeros(len),
        right: zeros(len),
        write_pos: 0,
        delay_fx: dfx,
        feedback: 0,
        mix: 1_000_000,
        coeff: c,
        z1_left: 0,
        z1_right: 0,
        bypassed: false,
    }
}

/// The state `k` steps after an impulse entered a fresh delay: the
/// impulse sits at cell zero, everything else is silent, the cursor has
/// advanced to `k`, and the feedback filter history holds whatever the
/// silent reads left there.
pub open spec fn impulse_state(len: int, dfx: int, c: int, amp: i64, k: int, z1l: int, z1r: int)
    -> DelayModel {
    DelayModel {
        left: zeros(len).update(0, amp),
        right: zeros(len).update(0, amp),
        write_pos: k,
        delay_fx: dfx,
        feedback: 0,
        mix: 1_000_000,
        coeff: c,
        z1_left: z1l,
        z1_right: z1r,
        bypassed: false,
    }
}

/// Several delay steps in a row: the final state and each step's output.
pub open spec fn delay_run(m: DelayModel, ins: Seq<StereoSample>) -> (DelayModel, Seq<
    StereoSample,
>)
    decreases ins.len(),
{
    if ins.len() == 0 {
        (m, Seq::<StereoSample>::empty())
    } else {
        let s = delay_step(m, ins[0]);
        let rest = delay_run(s.0, ins.subrange(1, ins.len() as int));
        (rest.0, seq![s.1] + rest.1)
    }
}

/// A run produces one output per input.
pub proof fn lemma_delay_run_len(m: DelayModel, ins: Seq<StereoSample>)
    ensures
        delay_run(m, ins).1.len() == ins.len(),
    decreases ins.len(),
{
    if ins.len() > 0 {
        let s = delay_step(m, ins[0]);
        lemma_delay_run_len(s.0, ins.subrange(1, ins.len() as int));
    }
}

/// Exact division of a whole number of millionths.
proof fn lemma_div_mod_exact(x: int)
    requires
        x >= 0,
    ensures
        (x * 1_000_000) / 1_000_000 == x,
        (x * 1_000_000) % 1_000_000 == 0,
{
    assert((x * 1_000_000) / 1_000_000 == x && (x * 1_000_000) % 1_000_000 == 0)
        by (nonlinear_arith)
        requires
            x >= 0,
    ;
}

/// Exact division just below a whole number of millionths.
proof fn lemma_div_mod_shift(x: int, f: int)
    requires
        x >= 1,
        0 < f < 1_000_000,
    ensures
        (x * 1_000_000 - f) / 1_000_000 == x - 1,
        (x * 1_000_000 - f) % 1_000_000 == 1_000_000 - f,
{
    assert((x * 1_000_000 - f) / 1_000_000 == x - 1 && (x * 1_000_000 - f) % 1_000_000
        == 1_000_000 - f) by (nonlinear_arith)
        requires
            x >= 1,
            0 < f < 1_000_000,
    ;
}

/// One silent step with the impulse in flight. Before the echo instant
/// nothing comes out and only the cursor and the filter history move; at
/// the echo instant the impulse comes out weighted by the whole-sample
/// share of the delay, and one step later (for a fractional delay) by
/// the remaining share.
proof fn lemma_impulse_step(len: int, dfx: int, c: int, amp: i64, k: int, z1l: int, z1r: int)
    requires
        2 <= len,
        1_000_000 <= dfx <= (len - 1) * 1_000_000,
        0 <= c <= 990_000,
        -SAMPLE_LIMIT <= amp <= SAMPLE_LIMIT,
        -SAMPLE_LIMIT <= z1l <= SAMPLE_LIMIT,
        -SAMPLE_LIMIT <= z1r <= SAMPLE_LIMIT,
        1 <= k,
        dfx % 1_000_000 == 0 ==> k <= dfx / 1_000_000,
        dfx % 1_000_000 != 0 ==> k <= dfx / 1_000_000 + 1,
    ensures
        ({
            let d = dfx / 1_000_000;
            let f = dfx % 1_000_000;
            let s = delay_step(impulse_state(len, dfx, c, amp, k, z1l, z1r), silence());
            let expected: int = if k < d {
                0
            } else if k == d {
                fx_mul_spec(amp as int, 1_000_000 - f)
            } else {
                fx_mul_spec(amp as int, f)
            };
            &&& s.1.left == expected
            &&& s.1.right == expected
            &&& s.0 == (DelayModel {
                write_pos: (k + 1) % len,
                z1_left: s.0.z1_left,
                z1_right: s.0.z1_right,
                ..impulse_state(len, dfx, c, amp, 0, 0, 0)
            })
            &&& -SAMPLE_LIMIT <= s.0.z1_left <= SAMPLE_LIMIT
            &&& -SAMPLE_LIMIT <= s.0.z1_right <= SAMPLE_LIMIT
        }),
{
    let d = dfx / 1_000_000;
    let f = dfx % 1_000_000;
    vstd::arithmetic::div_mod::lemma_fundamental_div_mod(dfx, 1_000_000);
    assert(d >= 1) by (nonlinear_arith)
        requires
            dfx >= 1_000_000,
            d == dfx / 1_000_000,
    ;
    if f != 0 {
        assert(d <= len - 2) by (nonlinear_arith)
            requires
                dfx <= (len - 1) * 1_000_000,
                dfx == 1_000_000 * d + f,
                0 < f < 1_000_000,
        ;
    } else {
        assert(d <= len - 1) by (nonlinear_arith)
            requires
                dfx <= (len - 1) * 1_000_000,
                dfx == 1_000_000 * d + f,
                f == 0,
        ;
    }
    let m = impulse_state(len, dfx, c, amp, k, z1l, z1r);
    let buf = zeros(len).update(0, amp);
    let total = k * 1_000_000 - dfx;
    let dlv = interp_spec(buf, k, dfx);
    let weight: int = if k < d {
        0
    } else if k == d {
        1_000_000 - f
    } else {
        f
    };
    if total == 0 {
        assert(k == d && f == 0) by (nonlinear_arith)
            requires
                total == k * 1_000_000 - dfx,
                total == 0,
                dfx == 1_000_000 * d + f,
                0 <= f < 1_000_000,
                k >= 1,
        ;
        assert(buf[0] == amp && buf[1] == 0);
        lemma_fx_mul_zero(buf[1] as int);
        assert(dlv == fx_mul_spec(amp as int, 1_000_000));
    } else if total < 0 {
        let x = k - d + len;
        assert(k <= d) by (nonlinear_arith)
            requires
                total == k * 1_000_000 - dfx,
                total < 0,
                dfx == 1_000_000 * d + f,
                0 <= f < 1_000_000,
        ;
        if f == 0 {
            assert(k < d);
            assert(total + len * 1_000_000 == x * 1_000_000) by (nonlinear_arith)
                requires
                    total == k * 1_000_000 - dfx,
                    dfx == 1_000_000 * d + f,
                    f == 0,
                    x == k - d + len,
            ;
            lemma_div_mod_exact(x);
            assert(2 <= x <= len - 1);
            assert(buf[x] == 0);
            let i1v: int = if x + 1 < len {
                x + 1
            } else {
                0
            };
            lemma_fx_mul_zero(buf[i1v] as int);
            lemma_fx_mul_one(0);
            assert(dlv == 0);
        } else {
            assert(total + len * 1_000_000 == x * 1_000_000 - f) by (nonlinear_arith)
                requires
                    total == k * 1_000_000 - dfx,
                    dfx == 1_000_000 * d + f,
                    x == k - d + len,
            ;
            assert(3 <= x <= len);
            lemma_div_mod_shift(x, f);
            if k < d {
                assert(2 <= x - 1 <= len - 2);
                assert(buf[x - 1] == 0 && buf[x] == 0);
                lemma_fx_mul_zero(f);
                lemma_fx_mul_zero(1_000_000 - f);
                assert(dlv == 0);
            } else {
                assert(x == len && x - 1 == len - 1);
                assert(buf[len - 1] == 0 && buf[0] == amp);
                lemma_fx_mul_zero(f);
                assert(dlv == fx_mul_spec(amp as int, 1_000_000 - f));
            }
        }
    } else {
        assert(f != 0 && k == d + 1) by (nonlinear_arith)
            requires
                total == k * 1_000_000 - dfx,
                total > 0,
                dfx == 1_000_000 * d + f,
                0 <= f < 1_000_000,
                (f == 0 ==> k <= d),
                (f != 0 ==> k <= d + 1),
        ;
        assert(total == 1_000_000 - f) by (nonlinear_arith)
            requires
                total == k * 1_000_000 - dfx,
                dfx == 1_000_000 * d + f,
                k == d + 1,
        ;
        assert(total / 1_000_000 == 0 && total % 1_000_000 == total) by (nonlinear_arith)
            requires
                0 < total < 1_000_000,
        ;
        assert(buf[0] == amp && buf[1] == 0);
        lemma_fx_mul_zero(1_000_000 - f);
        assert(dlv == fx_mul_spec(amp as int, f));
    }
    assert(dlv == fx_mul_spec(amp as int, weight) || dlv == 0);
    crate::fixed::lemma_fx_mul_bound(amp as int, weight, SAMPLE_LIMIT as int);
    assert(-SAMPLE_LIMIT <= dlv <= SAMPLE_LIMIT);
    let fl = one_pole_out(c, z1l, dlv);
    let fr = one_pole_out(c, z1r, dlv);
    lemma_fx_convex_bound(dlv, z1l, c, SAMPLE_LIMIT as int);
    lemma_fx_convex_bound(dlv, z1r, c, SAMPLE_LIMIT as int);
    lemma_fx_mul_zero(fl);
    lemma_fx_mul_zero(fr);
    assert(delay_written(0, fl, 0) == 0);
    assert(delay_written(0, fr, 0) == 0);
    assert(buf.update(k, 0i64) =~= buf);
    let s = delay_step(m, silence());
    lemma_fx_mul_zero(0);
    lemma_fx_mul_one(dlv);
    if k < d {
        lemma_fx_mul_zero(weight);
    } else {
        assert(dlv == fx_mul_spec(amp as int, weight));
    }
    assert(s.1.left == dlv && s.1.right == dlv);
}

/// A silent step on an all-silent delay: silence out, silence stored.
proof fn lemma_zeros_step(len: int, dfx: int, c: int, w: int, z1l: int, z1r: int)
    requires
        2 <= len,
        1_000_000 <= dfx <= (len - 1) * 1_000_000,
        0 <= c <= 990_000,
        -SAMPLE_LIMIT <= z1l <= SAMPLE_LIMIT,
        -SAMPLE_LIMIT <= z1r <= SAMPLE_LIMIT,
        0 <= w < len,
    ensures
        ({
            let m = DelayModel {
                left: zeros(len),
                right: zeros(len),
                write_pos: w,
                delay_fx: dfx,
                feedback: 0,
                mix: 1_000_000,
                coeff: c,
                z1_left: z1l,
                z1_right: z1r,
                bypassed: false,
            };
            let s = delay_step(m, silence());
            &&& s.1 == silence()
            &&& s.0 == (DelayModel {
                write_pos: (w + 1) % len,
                z1_left: s.0.z1_left,
                z1_right: s.0.z1_right,
                ..m
            })
            &&& -SAMPLE_LIMIT <= s.0.z1_left <= SAMPLE_LIMIT
            &&& -SAMPLE_LIMIT <= s.0.z1_right <= SAMPLE_LIMIT
        }),
{
    let m = DelayModel {
        left: zeros(len),
        right: zeros(len),
        write_pos: w,
        delay_fx: dfx,
        feedback: 0,
        mix: 1_000_000,
        coeff: c,
        z1_left: z1l,
        z1_right: z1r,
        bypassed: false,
    };
    lemma_interp_bounded(zeros(len), w, dfx, 0);
    let dlv = interp_spec(zeros(len), w, dfx);
    assert(dlv == 0);
    let fl = one_pole_out(c, z1l, 0);
    let fr = one_pole_out(c, z1r, 0);
    lemma_fx_convex_bound(0, z1l, c, SAMPLE_LIMIT as int);
    lemma_fx_convex_bound(0, z1r, c, SAMPLE_LIMIT as int);
    lemma_fx_mul_zero(fl);
    lemma_fx_mul_zero(fr);
    assert(delay_written(0, fl, 0) == 0);
    assert(delay_written(0, fr, 0) == 0);
    assert(zeros(len).update(w, 0i64) =~= zeros(len));
    lemma_fx_mul_zero(0);
    lemma_fx_mul_one(0);
}

/// A silent run on an all-silent delay stays silent throughout.
proof fn lemma_zeros_run(len: int, dfx: int, c: int, w: int, z1l: int, z1r: int, j: int)
    requires
        2 <= len,
        1_000_000 <= dfx <= (len - 1) * 1_000_000,
        0 <= c <= 990_000,
        -SAMPLE_LIMIT <= z1l <= SAMPLE_LIMIT,
        -SAMPLE_LIMIT <= z1r <= SAMPLE_LIMIT,
        0 <= w < len,
        0 <= j,
    ensures
        ({
            let m = DelayModel {
                left: zeros(len),
                right: zeros(len),
                write_pos: w,
                delay_fx: dfx,
                feedback: 0,
                mix: 1_000_000,
                coeff: c,
                z1_left: z1l,
                z1_right: z1r,
                bypassed: false,
            };
            let r = delay_run(m, silence_seq(j));
            forall|i: int| 0 <= i < j ==> r.1[i] == silence()
        }),
    decreases j,
{
    if j > 0 {
        let m = DelayModel {
            left: zeros(len),
            right: zeros(len),
            write_pos: w,
            delay_fx: dfx,
            feedback: 0,
            mix: 1_000_000,
            coeff: c,
            z1_left: z1l,
            z1_right: z1r,
            bypassed: false,
        };
        let ins = silence_seq(j);
        assert(ins[0] == silence());
        assert(ins.subrange(1, j) =~= silence_seq(j - 1));
        lemma_zeros_step(len, dfx, c, w, z1l, z1r);
        let s = delay_step(m, silence());
        assert(0 <= (w + 1) % len < len) by (nonlinear_arith)
            requires
                len >= 1,
        ;
        lemma_zeros_run(len, dfx, c, (w + 1) % len, s.0.z1_left, s.0.z1_right, j - 1);
        let rest = delay_run(s.0, silence_seq(j - 1));
        lemma_delay_run_len(s.0, silence_seq(j - 1));
        assert(delay_run(m, ins).1[0] == s.1);
        assert(forall|i: int| 1 <= i < j ==> delay_run(m, ins).1[i] == rest.1[i - 1]);
    }
}

/// A silent step with the impulse still stored and the cursor strictly
/// past the echo window (not yet wrapped): silence out, the buffer kept,
/// the cursor advanced.
#[verifier::rlimit(100)]
#[verifier::spinoff_prover]
proof fn lemma_impulse_tail_step_mid(
    len: int,
    dfx: int,
    c: int,
    amp: i64,
    w: int,
    z1l: int,
    z1r: int,
)
    requires
        2 <= len,
        1_000_000 <= dfx <= (len - 1) * 1_000_000,
        0 <= c <= 990_000,
        -SAMPLE_LIMIT <= amp <= SAMPLE_LIMIT,
        -SAMPLE_LIMIT <= z1l <= SAMPLE_LIMIT,
        -SAMPLE_LIMIT <= z1r <= SAMPLE_LIMIT,
        dfx % 1_000_000 == 0 ==> dfx / 1_000_000 + 1 <= w < len,
        dfx % 1_000_000 != 0 ==> dfx / 1_000_000 + 2 <= w < len,
    ensures
        ({
            let m = impulse_state(len, dfx, c, amp, w, z1l, z1r);
            let s = delay_step(m, silence());
            &&& s.1 == silence()
            &&& s.0 == (DelayModel {
                write_pos: (w + 1) % len,
                z1_left: s.0.z1_left,
                z1_right: s.0.z1_right,
                ..m
            })
            &&& -SAMPLE_LIMIT <= s.0.z1_left <= SAMPLE_LIMIT
            &&& -SAMPLE_LIMIT <= s.0.z1_right <= SAMPLE_LIMIT
        }),
{
    let d = dfx / 1_000_000;
    let f = dfx % 1_000_000;
    vstd::arithmetic::div_mod::lemma_fundamental_div_mod(dfx, 1_000_000);
    assert(d >= 1) by (nonlinear_arith)
        requires
            dfx >= 1_000_000,
            d == dfx / 1_000_000,
    ;
    let m = impulse_state(len, dfx, c, amp, w, z1l, z1r);
    let buf = zeros(len).update(0, amp);
    let total = w * 1_000_000 - dfx;
    let dlv = interp_spec(buf, w, dfx);
    let x = w - d;
    assert(total > 0) by (nonlinear_arith)
        requires
            total == w * 1_000_000 - dfx,
            dfx == 1_000_000 * d + f,
            0 <= f < 1_000_000,
            w >= d + 1,
            f != 0 ==> w >= d + 2,
    ;
    if f == 0 {
        assert(total == x * 1_000_000) by (nonlinear_arith)
            requires
                total == w * 1_000_000 - dfx,
                dfx == 1_000_000 * d + f,
                f == 0,
                x == w - d,
        ;
        lemma_div_mod_exact(x);
        assert(1 <= x <= len - 1);
        assert(buf[x] == 0);
        let i1v: int = if x + 1 < len {
            x + 1
        } else {
            0
        };
        lemma_fx_mul_zero(buf[i1v] as int);
        lemma_fx_mul_one(0);
        assert(dlv == 0);
    } else {
        assert(total == x * 1_000_000 - f) by (nonlinear_arith)
            requires
                total == w * 1_000_000 - dfx,
                dfx == 1_000_000 * d + f,
                x == w - d,
        ;
        assert(2 <= x <= len - 1);
        lemma_div_mod_shift(x, f);
        assert(1 <= x - 1 <= len - 2);
        assert(buf[x - 1] == 0 && buf[x] == 0);
        lemma_fx_mul_zero(f);
        lemma_fx_mul_zero(1_000_000 - f);
        assert(dlv == 0);
    }
    let fl = one_pole_out(c, z1l, 0);
    let fr = one_pole_out(c, z1r, 0);
    lemma_fx_convex_bound(0, z1l, c, SAMPLE_LIMIT as int);
    lemma_fx_convex_bound(0, z1r, c, SAMPLE_LIMIT as int);
    lemma_fx_mul_zero(fl);
    lemma_fx_mul_zero(fr);
    assert(delay_written(0, fl, 0) == 0);
    assert(delay_written(0, fr, 0) == 0);
    lemma_fx_mul_zero(0);
    lemma_fx_mul_one(0);
    let s = delay_step(m, silence());
    assert(s.1 == silence());
    assert(buf.update(w, 0i64) =~= buf);
    assert(s.0.left =~= buf);
    assert(s.0.right =~= buf);
    assert(s.0 == (DelayModel {
        write_pos: (w + 1) % len,
        z1_left: s.0.z1_left,
        z1_right: s.0.z1_right,
        ..m
    }));
}

/// A silent step with the impulse still stored and the cursor wrapped
/// back to cell zero: silence out, and the impulse itself is overwritten
/// with silence, leaving the whole line silent.
#[verifier::rlimit(100)]
#[verifier::spinoff_prover]
proof fn lemma_impulse_tail_step_wrap(len: int, dfx: int, c: int, amp: i64, z1l: int, z1r: int)
    requires
        2 <= len,
        1_000_000 <= dfx <= (len - 1) * 1_000_000,
        0 <= c <= 990_000,
        -SAMPLE_LIMIT <= amp <= SAMPLE_LIMIT,
        -SAMPLE_LIMIT <= z1l <= SAMPLE_LIMIT,
        -SAMPLE_LIMIT <= z1r <= SAMPLE_LIMIT,
    ensures
        ({
            let m = impulse_state(len, dfx, c, amp, 0, z1l, z1r);
            let s = delay_step(m, silence());
            &&& s.1 == silence()
            &&& s.0 == (DelayModel {
                left: zeros(len),
                right: zeros(len),
                write_pos: 1,
                z1_left: s.0.z1_left,
                z1_right: s.0.z1_right,
                ..m
            })
            &&& -SAMPLE_LIMIT <= s.0.z1_left <= SAMPLE_LIMIT
            &&& -SAMPLE_LIMIT <= s.0.z1_right <= SAMPLE_LIMIT
        }),
{
    let d = dfx / 1_000_000;
    let f = dfx % 1_000_000;
    vstd::arithmetic::div_mod::lemma_fundamental_div_mod(dfx, 1_000_000);
    assert(d >= 1) by (nonlinear_arith)
        requires
            dfx >= 1_000_000,
            d == dfx / 1_000_000,
    ;
    if f != 0 {
        assert(d <= len - 2) by (nonlinear_arith)
            requires
                dfx <= (len - 1) * 1_000_000,
                dfx == 1_000_000 * d + f,
                0 < f < 1_000_000,
        ;
    } else {
        assert(d <= len - 1) by (nonlinear_arith)
            requires
                dfx <= (len - 1) * 1_000_000,
                dfx == 1_000_000 * d + f,
                f == 0,
        ;
    }
    let m = impulse_state(len, dfx, c, amp, 0, z1l, z1r);
    let buf = zeros(len).update(0, amp);
    let total = 0 * 1_000_000 - dfx;
    let dlv = interp_spec(buf, 0, dfx);
    let x = len - d;
    assert(total < 0);
    if f == 0 {
        assert(total + len * 1_000_000 == x * 1_000_000) by (nonlinear_arith)
            requires
                total == 0 * 1_000_000 - dfx,
                dfx == 1_000_000 * d + f,
                f == 0,
                x == len - d,
        ;
        lemma_div_mod_exact(x);
        assert(1 <= x <= len - 1);
        assert(buf[x] == 0);
        let i1v: int = if x + 1 < len {
            x + 1
        } else {
            0
        };
        lemma_fx_mul_zero(buf[i1v] as int);
        lemma_fx_mul_one(0);
        assert(dlv == 0);
    } else {
        assert(total + len * 1_000_000 == x * 1_000_000 - f) by (nonlinear_arith)
            requires
                total == 0 * 1_000_000 - dfx,
                dfx == 1_000_000 * d + f,
                x == len - d,
        ;
        assert(2 <= x <= len - 1);
        lemma_div_mod_shift(x, f);
        assert(1 <= x - 1 <= len - 2);
        assert(buf[x - 1] == 0 && buf[x] == 0);
        lemma_fx_mul_zero(f);
        lemma_fx_mul_zero(1_000_000 - f);
        assert(dlv == 0);
    }
    let fl = one_pole_out(c, z1l, 0);
    let fr = one_pole_out(c, z1r, 0);
    lemma_fx_convex_bound(0, z1l, c, SAMPLE_LIMIT as int);
    lemma_fx_convex_bound(0, z1r, c, SAMPLE_LIMIT as int);
    lemma_fx_mul_zero(fl);
    lemma_fx_mul_zero(fr);
    assert(delay_written(0, fl, 0) == 0);
    assert(delay_written(0, fr, 0) == 0);
    lemma_fx_mul_zero(0);
    lemma_fx_mul_one(0);
    let s = delay_step(m, silence());
    assert(s.1 == silence());
    assert(buf.update(0, 0i64) =~= zeros(len));
    vstd::arithmetic::div_mod::lemma_small_mod(1nat, len as nat);
    assert(s.0.left =~= zeros(len));
    assert(s.0.right =~= zeros(len));
    assert(s.0 == (DelayModel {
        left: zeros(len),
        right: zeros(len),
        write_pos: 1,
        z1_left: s.0.z1_left,
        z1_right: s.0.z1_right,
        ..m
    }));
}

/// Running silence with the impulse stored and the cursor past the echo
/// window: every output is silence, through the cursor's wrap and beyond.
proof fn lemma_impulse_tail_run(
    len: int,
    dfx: int,
    c: int,
    amp: i64,
    w: int,
    z1l: int,
    z1r: int,
    j: int,
)
    requires
        2 <= len,
        1_000_000 <= dfx <= (len - 1) * 1_000_000,
        0 <= c <= 990_000,
        -SAMPLE_LIMIT <= amp <= SAMPLE_LIMIT,
        -SAMPLE_LIMIT <= z1l <= SAMPLE_LIMIT,
        -SAMPLE_LIMIT <= z1r <= SAMPLE_LIMIT,
        w == 0 || (dfx % 1_000_000 == 0 && dfx / 1_000_000 + 1 <= w < len) || (dfx % 1_000_000
            != 0 && dfx / 1_000_000 + 2 <= w < len),
        0 <= j,
    ensures
        ({
            let r = delay_run(impulse_state(len, dfx, c, amp, w, z1l, z1r), silence_seq(j));
            forall|i: int| 0 <= i < j ==> r.1[i] == silence()
        }),
    decreases j,
{
    if j > 0 {
        let m = impulse_state(len, dfx, c, amp, w, z1l, z1r);
        let ins = silence_seq(j);
        assert(ins[0] == silence());
        assert(ins.subrange(1, j) =~= silence_seq(j - 1));
        if w == 0 {
            lemma_impulse_tail_step_wrap(len, dfx, c, amp, z1l, z1r);
        } else {
            lemma_impulse_tail_step_mid(len, dfx, c, amp, w, z1l, z1r);
        }
        let s = delay_step(m, silence());
        let rest = delay_run(s.0, silence_seq(j - 1));
        lemma_delay_run_len(s.0, silence_seq(j - 1));
        assert(delay_run(m, ins).1[0] == s.1);
        assert(forall|i: int| 1 <= i < j ==> delay_run(m, ins).1[i] == rest.1[i - 1]);
        if w == 0 {
            lemma_zeros_run(len, dfx, c, 1, s.0.z1_left, s.0.z1_right, j - 1);
        } else {
            assert(0 <= (w + 1) % len < len) by (nonlinear_arith)
                requires
                    len >= 1,
            ;
            if w + 1 < len {
                vstd::arithmetic::div_mod::lemma_small_mod((w + 1) as nat, len as nat);
            } else {
                vstd::arithmetic::div_mod::lemma_mod_self_0(len);
            }
            assert(s.0 == impulse_state(len, dfx, c, amp, (w + 1) % len, s.0.z1_left,
                s.0.z1_right));
            lemma_impulse_tail_run(len, dfx, c, amp, (w + 1) % len, s.0.z1_left, s.0.z1_right,
                j - 1);
        }
    }
}

/// Running silence into the in-flight impulse: silence comes out until
/// the echo instant, then the impulse split by its fractional weights.
proof fn lemma_impulse_run(
    len: int,
    dfx: int,
    c: int,
    amp: i64,
    k: int,
    z1l: int,
    z1r: int,
    n: int,
)
    requires
        2 <= len,
        1_000_000 <= dfx <= (len - 1) * 1_000_000,
        0 <= c <= 990_000,
        -SAMPLE_LIMIT <= amp <= SAMPLE_LIMIT,
        -SAMPLE_LIMIT <= z1l <= SAMPLE_LIMIT,
        -SAMPLE_LIMIT <= z1r <= SAMPLE_LIMIT,
        1 <= k <= dfx / 1_000_000,
        n > dfx / 1_000_000 + 1 - k,
    ensures
        ({
            let d = dfx / 1_000_000;
            let f = dfx % 1_000_000;
            let r = delay_run(impulse_state(len, dfx, c, amp, k, z1l, z1r), silence_seq(n));
            &&& forall|i: int| 0 <= i < d - k ==> r.1[i] == silence()
            &&& r.1[d - k].left == fx_mul_spec(amp as int, 1_000_000 - f)
            &&& r.1[d - k].right == fx_mul_spec(amp as int, 1_000_000 - f)
            &&& f > 0 ==> r.1[d - k + 1].left == fx_mul_spec(amp as int, f) && r.1[d - k
                + 1].right == fx_mul_spec(amp as int, f)
            &&& forall|i: int|
                0 <= i < n && i != d - k && (f == 0 || i != d - k + 1) ==> r.1[i] == silence()
        }),
    decreases dfx / 1_000_000 - k,
{
    let d = dfx / 1_000_000;
    let f = dfx % 1_000_000;
    let m = impulse_state(len, dfx, c, amp, k, z1l, z1r);
    let ins = silence_seq(n);
    assert(ins[0] == silence());
    assert(ins.subrange(1, n) =~= silence_seq(n - 1));
    lemma_impulse_step(len, dfx, c, amp, k, z1l, z1r);
    let s = delay_step(m, silence());
    let rest = delay_run(s.0, silence_seq(n - 1));
    lemma_delay_run_len(s.0, silence_seq(n - 1));
    lemma_delay_run_len(m, ins);
    assert(delay_run(m, ins).1[0] == s.1);
    assert(forall|i: int| 1 <= i < n ==> delay_run(m, ins).1[i] == rest.1[i - 1]);
    vstd::arithmetic::div_mod::lemma_fundamental_div_mod(dfx, 1_000_000);
    if f != 0 {
        assert(d <= len - 2) by (nonlinear_arith)
            requires
                dfx <= (len - 1) * 1_000_000,
                dfx == 1_000_000 * d + f,
                0 < f < 1_000_000,
        ;
    } else {
        assert(d <= len - 1) by (nonlinear_arith)
            requires
                dfx <= (len - 1) * 1_000_000,
                dfx == 1_000_000 * d + f,
                f == 0,
        ;
    }
    if k == d {
        if f > 0 {
            vstd::arithmetic::div_mod::lemma_small_mod((k + 1) as nat, len as nat);
            assert(s.0 == impulse_state(len, dfx, c, amp, k + 1, s.0.z1_left, s.0.z1_right));
            lemma_impulse_step(len, dfx, c, amp, k + 1, s.0.z1_left, s.0.z1_right);
            let ins2 = silence_seq(n - 1);
            assert(n - 1 >= 1);
            assert(ins2[0] == silence());
            assert(ins2.subrange(1, n - 1) =~= silence_seq(n - 2));
            assert(rest.1[0] == delay_step(s.0, silence()).1);
            let s2 = delay_step(s.0, silence());
            let rest2 = delay_run(s2.0, silence_seq(n - 2));
            lemma_delay_run_len(s2.0, silence_seq(n - 2));
            assert(forall|i: int| 1 <= i < n - 1 ==> rest.1[i] == rest2.1[i - 1]);
            if d + 2 < len {
                vstd::arithmetic::div_mod::lemma_small_mod((d + 2) as nat, len as nat);
            } else {
                vstd::arithmetic::div_mod::lemma_mod_self_0(len);
            }
            lemma_impulse_tail_run(len, dfx, c, amp, (d + 2) % len, s2.0.z1_left,
                s2.0.z1_right, n - 2);
            assert(s2.0 == impulse_state(len, dfx, c, amp, (d + 2) % len, s2.0.z1_left,
                s2.0.z1_right));
        } else {
            if d + 1 < len {
                vstd::arithmetic::div_mod::lemma_small_mod((d + 1) as nat, len as nat);
            } else {
                vstd::arithmetic::div_mod::lemma_mod_self_0(len);
            }
            lemma_impulse_tail_run(len, dfx, c, amp, (d + 1) % len, s.0.z1_left,
                s.0.z1_right, n - 1);
            assert(s.0 == impulse_state(len, dfx, c, amp, (d + 1) % len, s.0.z1_left,
                s.0.z1_right));
        }
    } else {
        assert(s.1 == silence());
        vstd::arithmetic::div_mod::lemma_small_mod((k + 1) as nat, len as nat);
        assert(s.0 == impulse_state(len, dfx, c, amp, k + 1, s.0.z1_left, s.0.z1_right));
        lemma_impulse_run(len, dfx, c, amp, k + 1, s.0.z1_left, s.0.z1_right, n - 1);
    }
}

/// An impulse into a fresh delay with zero feedback and a fully wet mix
/// comes back as a single reconstructed peak at the delay time: the
/// output is exactly silent at every step except the echo instant, where
/// the impulse reappears split over the two neighbouring steps with
/// weights matching the fractional part; a whole-sample delay returns it
/// in one step, unattenuated, and with zero feedback no later echo ever
/// follows.
pub proof fn lemma_delay_single_echo(len: int, dfx: int, c: int, amp: i64, n: int)
    requires
        2 <= len,
        1_000_000 <= dfx <= (len - 1) * 1_000_000,
        0 <= c <= 990_000,
        -SAMPLE_LIMIT <= amp <= SAMPLE_LIMIT,
        n > dfx / 1_000_000 + 1,
    ensures
        ({
            let d = dfx / 1_000_000;
            let f = dfx % 1_000_000;
            let r = delay_run(fresh_model(len, dfx, c), impulse_input(amp, n));
            &&& r.1.len() == n
            &&& forall|s: int|
                0 <= s < n && s != d && (f == 0 || s != d + 1) ==> r.1[s] == silence()
            &&& r.1[d].left == fx_mul_spec(amp as int, 1_000_000 - f)
            &&& r.1[d].right == fx_mul_spec(amp as int, 1_000_000 - f)
            &&& f > 0 ==> r.1[d + 1].left == fx_mul_spec(amp as int, f) && r.1[d + 1].right
                == fx_mul_spec(amp as int, f)
            &&& f == 0 ==> r.1[d].left == amp && r.1[d].right == amp
        }),
{
    let d = dfx / 1_000_000;
    let f = dfx % 1_000_000;
    let fresh = fresh_model(len, dfx, c);
    let ins = impulse_input(amp, n);
    lemma_delay_run_len(fresh, ins);
    assert(ins[0] == StereoSample { left: amp, right: amp });
    assert(ins.subrange(1, n) =~= silence_seq(n - 1));
    assert(d >= 1) by (nonlinear_arith)
        requires
            dfx >= 1_000_000,
            d == dfx / 1_000_000,
    ;
    lemma_interp_bounded(zeros(len), 0, dfx, 0);
    lemma_fx_mul_zero(1_000_000 - c);
    lemma_fx_mul_zero(c);
    lemma_fx_mul_zero(0);
    lemma_fx_mul_zero(amp as int);
    lemma_fx_mul_one(0);
    let s = delay_step(fresh, ins[0]);
    assert(delay_written(amp as int, 0, 0) == amp);
    assert(s.0.left =~= zeros(len).update(0, amp));
    assert(s.0.right =~= zeros(len).update(0, amp));
    vstd::arithmetic::div_mod::lemma_small_mod(1nat, len as nat);
    assert(s.0 == impulse_state(len, dfx, c, amp, 1, 0, 0));
    assert(s.1 == silence());
    lemma_impulse_run(len, dfx, c, amp, 1, 0, 0, n - 1);
    let rest = delay_run(s.0, silence_seq(n - 1));
    lemma_delay_run_len(s.0, silence_seq(n - 1));
    assert(delay_run(fresh, ins).1[0] == s.1);
    assert(forall|i: int| 1 <= i < n ==> delay_run(fresh, ins).1[i] == rest.1[i - 1]);
    if f == 0 {
        lemma_fx_mul_one(amp as int);
    }
}

/// Every stored sample and history cell is within the bound.
pub open spec fn model_bounded(m: DelayModel, bound: int) -> bool {
    &&& forall|i: int| 0 <= i < m.left.len() ==> -bound <= #[trigger] m.left[i] <= bound
    &&& forall|i: int| 0 <= i < m.right.len() ==> -bound <= #[trigger] m.right[i] <= bound
    &&& -bound <= m.z1_left <= bound
    &&& -bound <= m.z1_right <= bound
}

/// A well-shaped delay model: matching buffers, the cursor and the read
/// offset inside them, parameters in range, not bypassed.
pub open spec fn model_wf(m: DelayModel) -> bool {
    &&& !m.bypassed
    &&& 1 <= m.left.len()
    &&& m.right.len() == m.left.len()
    &&& 0 <= m.write_pos < m.left.len()
    &&& 0 <= m.delay_fx <= (m.left.len() - 1) * 1_000_000
    &&& 0 <= m.feedback < 1_000_000
    &&& 0 <= m.coeff <= 990_000
    &&& 0 <= m.mix <= 1_000_000
}

/// The interpolated read stays within the bound on the buffer.
proof fn lemma_interp_bounded(buf: Seq<i64>, wp: int, dfx: int, bound: int)
    requires
        1 <= buf.len(),
        0 <= wp < buf.len(),
        0 <= dfx <= (buf.len() - 1) * 1_000_000,
        bound >= 0,
        forall|i: int| 0 <= i < buf.len() ==> -bound <= #[trigger] buf[i] <= bound,
    ensures
        -bound <= interp_spec(buf, wp, dfx) <= bound,
{
    let len = buf.len() as int;
    let total = wp * 1_000_000 - dfx;
    let t = if total < 0 {
        total + len * 1_000_000
    } else {
        total
    };
    assert(0 <= t && t < len * 1_000_000) by (nonlinear_arith)
        requires
            t == (if wp * 1_000_000 - dfx < 0 {
                wp * 1_000_000 - dfx + len * 1_000_000
            } else {
                wp * 1_000_000 - dfx
            }),
            0 <= wp < len,
            0 <= dfx <= (len - 1) * 1_000_000,
    ;
    assert(0 <= t / 1_000_000 < len) by (nonlinear_arith)
        requires
            0 <= t < len * 1_000_000,
    ;
    let i0 = t / 1_000_000;
    let frac = t % 1_000_000;
    let i1 = if i0 + 1 < len {
        i0 + 1
    } else {
        0
    };
    lemma_fx_convex_bound(buf[i0] as int, buf[i1] as int, frac, bound);
}

/// One silent step under a strict feedback gain: every cell keeps its
/// bound, and the cell the cursor rewrites comes out strictly smaller.
proof fn lemma_silent_step_attenuates(m: DelayModel, bound: int)
    requires
        model_wf(m),
        model_bounded(m, bound),
        1 <= bound,
    ensures
        ({
            let s = delay_step(m, silence());
            &&& model_wf(s.0)
            &&& model_bounded(s.0, bound)
            &&& s.0.left.len() == m.left.len()
            &&& s.0.right.len() == m.right.len()
            &&& -bound < s.0.left[m.write_pos] < bound
            &&& -bound < s.0.right[m.write_pos] < bound
            &&& forall|i: int|
                0 <= i < m.left.len() && i != m.write_pos ==> #[trigger] s.0.left[i] == m.left[i]
                    && s.0.right[i] == m.right[i]
            &&& s.0.write_pos == (m.write_pos + 1) % (m.left.len() as int)
        }),
{
    let len = m.left.len() as int;
    lemma_interp_bounded(m.left, m.write_pos, m.delay_fx, bound);
    lemma_interp_bounded(m.right, m.write_pos, m.delay_fx, bound);
    let dl = interp_spec(m.left, m.write_pos, m.delay_fx);
    let dr = interp_spec(m.right, m.write_pos, m.delay_fx);
    lemma_fx_convex_bound(dl, m.z1_left, m.coeff, bound);
    lemma_fx_convex_bound(dr, m.z1_right, m.coeff, bound);
    let fl = one_pole_out(m.coeff, m.z1_left, dl);
    let fr = one_pole_out(m.coeff, m.z1_right, dr);
    crate::fixed::lemma_fx_mul_abs(fl, m.feedback, bound, m.feedback);
    crate::fixed::lemma_fx_mul_abs(fr, m.feedback, bound, m.feedback);
    assert((bound * m.feedback) / 1_000_000 < bound) by (nonlinear_arith)
        requires
            1 <= bound,
            0 <= m.feedback < 1_000_000,
    ;
    assert(0 <= (m.write_pos + 1) % len < len) by (nonlinear_arith)
        requires
            len >= 1,
    ;
}

/// One full pass of the delay line under silence, step by step: the bound
/// holds throughout, and every cell the cursor has passed over is
/// strictly below it.
proof fn lemma_silent_pass(m: DelayModel, bound: int, k: int)
    requires
        model_wf(m),
        model_bounded(m, bound),
        1 <= bound,
        0 <= k <= m.left.len(),
    ensures
        ({
            let r = delay_run(m, silence_seq(k));
            &&& model_wf(r.0)
            &&& model_bounded(r.0, bound)
            &&& r.0.left.len() == m.left.len()
            &&& r.0.right.len() == m.right.len()
            &&& forall|t: int|
                0 <= t < k ==> -bound < #[trigger] r.0.left[(m.write_pos + t) % (
                m.left.len() as int)] < bound && -bound < r.0.right[(m.write_pos + t) % (
                m.left.len() as int)] < bound
        }),
    decreases k,
{
    let len = m.left.len() as int;
    if k > 0 {
        let ins = silence_seq(k);
        assert(ins[0] == silence());
        assert(ins.subrange(1, k) =~= silence_seq(k - 1));
        lemma_silent_step_attenuates(m, bound);
        let s = delay_step(m, silence());
        assert(s.0.write_pos == (m.write_pos + 1) % len);
        lemma_silent_pass(s.0, bound, k - 1);
        let r = delay_run(s.0, silence_seq(k - 1));
        assert(delay_run(m, ins).0 == r.0);
        assert forall|t: int| 0 <= t < k implies -bound < #[trigger] r.0.left[(m.write_pos + t)
            % len] < bound && -bound < r.0.right[(m.write_pos + t) % len] < bound by {
            if t == 0 {
                vstd::arithmetic::div_mod::lemma_small_mod(m.write_pos as nat, len as nat);
                assert((m.write_pos + 0) % len == m.write_pos);
                lemma_pass_keeps_or_improves(s.0, bound, k - 1, m.write_pos);
            } else {
                assert((m.write_pos + t) % len == (s.0.write_pos + (t - 1)) % len) by {
                    let x = m.write_pos + 1;
                    let y = t - 1;
                    vstd::arithmetic::div_mod::lemma_fundamental_div_mod(x, len);
                    vstd::arithmetic::div_mod::lemma_mod_multiples_vanish(x / len, (x % len)
                        + y, len);
                    assert(len * (x / len) + ((x % len) + y) == x + y);
                }
            }
        }
    }
}

/// A cell that is already strictly below the bound stays strictly below
/// it through any number of silent steps: writes only shrink.
proof fn lemma_pass_keeps_or_improves(m: DelayModel, bound: int, k: int, p: int)
    requires
        model_wf(m),
        model_bounded(m, bound),
        1 <= bound,
        0 <= k <= m.left.len(),
        0 <= p < m.left.len(),
        -bound < m.left[p] < bound,
        -bound < m.right[p] < bound,
    ensures
        ({
            let r = delay_run(m, silence_seq(k));
            -bound < r.0.left[p] < bound && -bound < r.0.right[p] < bound
        }),
    decreases k,
{
    if k > 0 {
        let ins = silence_seq(k);
        assert(ins[0] == silence());
        assert(ins.subrange(1, k) =~= silence_seq(k - 1));
        lemma_silent_step_attenuates(m, bound);
        let s = delay_step(m, silence());
        lemma_pass_keeps_or_improves(s.0, bound, k - 1, p);
    }
}

/// Successive echoes strictly decay: a delay whose feedback gain is
/// strictly below one, fed silence for one full pass of its buffer,
/// leaves every recorded sample strictly smaller in magnitude than the
/// bound all samples satisfied before; each round of echoes is therefore
/// strictly quieter than the last.
pub proof fn lemma_echoes_decay(m: DelayModel, bound: int)
    requires
        model_wf(m),
        model_bounded(m, bound),
        1 <= bound,
    ensures
        ({
            let r = delay_run(m, silence_seq(m.left.len() as int));
            &&& r.0.left.len() == m.left.len()
            &&& forall|p: int|
                0 <= p < m.left.len() ==> -bound < #[trigger] r.0.left[p] < bound && -bound
                    < r.0.right[p] < bound
        }),
{
    let len = m.left.len() as int;
    lemma_silent_pass(m, bound, len);
    let r = delay_run(m, silence_seq(len));
    assert forall|p: int| 0 <= p < len implies -bound < #[trigger] r.0.left[p] < bound && -bound
        < r.0.right[p] < bound by {
        let t = if p >= m.write_pos {
            p - m.write_pos
        } else {
            p - m.write_pos + len
        };
        assert(0 <= t < len);
        if p >= m.write_pos {
            vstd::arithmetic::div_mod::lemma_small_mod(p as nat, len as nat);
            assert((m.write_pos + t) % len == p);
        } else {
            assert(m.write_pos + t == len * 1 + p);
            vstd::arithmetic::div_mod::lemma_mod_multiples_vanish(1, p, len);
            vstd::arithmetic::div_mod::lemma_small_mod(p as nat, len as nat);
            assert((m.write_pos + t) % len == p);
        }
    }
}

/// One feedback round trip strictly decays: while every magnitude in the
/// loop is below a bound, the sample the feedback path records next is
/// strictly below that bound, for any feedback gain strictly below one.
/// Successive echo peaks therefore strictly decrease.
pub proof fn lemma_feedback_strictly_decays(c: int, z1: int, d: int, fb: int, m: int)
    requires
        0 <= c <= 990_000,
        -m <= z1 <= m,
        -m <= d <= m,
        1 <= m <= SAMPLE_LIMIT,
        0 < fb < 1_000_000,
    ensures
        -m < delay_written(0, one_pole_out(c, z1, d), fb) < m,
{
    lemma_fx_convex_bound(d, z1, c, m);
    let f = one_pole_out(c, z1, d);
    if f == 0 {
        crate::fixed::lemma_fx_mul_zero(fb);
    } else {
        crate::fixed::lemma_fx_mul_shrinks(f, fb);
    }
}

impl Delay {
    /// A fresh delay for a sample rate, with zeroed buffers.
    pub fn new(sample_rate: u32) -> (r: Delay)
        requires
            MIN_SAMPLE_RATE <= sample_rate <= MAX_SAMPLE_RATE,
        ensures
            delay_valid(r),
            r.sample_rate == sample_rate,
            r.write_pos == 0,
            r.delay_fx == 0,
            r.feedback == 0,
            r.mix == 500_000,
            r.highcut_freq == 12_000,
            r.bypassed == false,
            r.filter.z1_left == 0,
            r.filter.z1_right == 0,
            forall|i: int| 0 <= i < r.buffer_left@.len() ==> r.buffer_left@[i] == 0,
            forall|i: int| 0 <= i < r.buffer_right@.len() ==> r.buffer_right@[i] == 0,
    {
        let buffer_size: usize = (sample_rate as usize) * 2 + 1;
        Delay {
            buffer_left: zero_buffer(buffer_size),
            buffer_right: zero_buffer(buffer_size),
            write_pos: 0,
            delay_fx: 0,
            feedback: 0,
            mix: 500_000,
            highcut_freq: 12_000,
            sample_rate,
            bypassed: false,
            filter: OnePole::new(),
        }
    }

    /// Set the delay time in fixed-point milliseconds, clamped to
    /// `[1, 2000]` ms and converted to micro-samples at the current rate.
    pub fn set_time_ms(&mut self, ms: i64)
        requires
            delay_valid(*old(self)),
        ensures
            delay_valid(*final(self)),
            final(self).delay_fx == clamp_spec(ms as int, 1_000_000, 2_000_000_000)
                * old(self).sample_rate / 1_000,
            *final(self) == (Delay { delay_fx: final(self).delay_fx, ..*old(self) }),
    {
        let clamped = fx_clamp(ms, 1_000_000, 2_000_000_000);
        proof {
            let sr = old(self).sample_rate as int;
            let c = clamped as int;
            assert(c * sr <= 2_000_000_000 * 192_000) by (nonlinear_arith)
                requires
                    1_000_000 <= c <= 2_000_000_000,
                    0 <= sr <= 192_000,
            ;
            assert((c * sr) / 1_000 <= 2_000_000 * sr) by (nonlinear_arith)
                requires
                    1_000_000 <= c <= 2_000_000_000,
                    sr >= 1,
            ;
            assert(2_000_000 * sr == (old(self).buffer_left@.len() as int - 1) * 1_000_000);
            assert((c * sr) / 1_000 >= 0) by (nonlinear_arith)
                requires
                    c >= 0,
                    sr >= 1,
            ;
        }
        let micro_samples: u64 = ((clamped as u64) * (self.sample_rate as u64)) / 1_000;
        self.delay_fx = micro_samples as i64;
    }

    /// Set the feedback amount, clamped to `[0, 0.95]`.
    pub fn set_feedback(&mut self, feedback: i64)
        requires
            delay_valid(*old(self)),
        ensures
            delay_valid(*final(self)),
            final(self).feedback == clamp_spec(feedback as int, 0, 950_000),
            *final(self) == (Delay { feedback: final(self).feedback, ..*old(self) }),
    {
        self.feedback = fx_clamp(feedback, 0, 950_000);
    }

    /// Set the dry/wet mix, clamped to `[0, 1]`.
    pub fn set_mix(&mut self, mix: i64)
        requires
            delay_valid(*old(self)),
        ensures
            delay_valid(*final(self)),
            final(self).mix == clamp_spec(mix as int, 0, FX_ONE as int),
            *final(self) == (Delay { mix: final(self).mix, ..*old(self) }),
    {
        self.mix = fx_clamp(mix, 0, FX_ONE);
    }

    /// Set the feedback high-cut frequency, clamped to `[1000, 20000]` Hz;
    /// the one-pole coefficient is recomputed at once.
    pub fn set_highcut(&mut self, freq: u32)
        requires
            delay_valid(*old(self)),
        ensures
            delay_valid(*final(self)),
            final(self).highcut_freq == clamp_spec(freq as int, 1_000, 20_000),
            final(self).filter.coeff == spec_cutoff_coeff(final(self).highcut_freq as int,
                old(self).sample_rate as int),
            final(self).filter.z1_left == old(self).filter.z1_left,
            final(self).filter.z1_right == old(self).filter.z1_right,
            *final(self) == (Delay {
                highcut_freq: final(self).highcut_freq,
                filter: final(self).filter,
                ..*old(self)
            }),
    {
        let clamped: u32 = if freq < 1_000 {
            1_000
        } else if freq > 20_000 {
            20_000
        } else {
            freq
        };
        self.highcut_freq = clamped;
        let sr = self.sample_rate;
        self.filter.set_cutoff(clamped, sr);
    }

    /// Read a channel's delayed sample with linear interpolation.
    pub fn read_interpolated(buffer: &Vec<i64>, write_pos: usize, delay_fx: i64) -> (r: i64)
        requires
            1 <= buffer@.len() <= 400_000,
            write_pos < buffer@.len(),
            0 <= delay_fx <= (buffer@.len() - 1) * 1_000_000,
            buf_bounded(buffer@),
        ensures
            r == interp_spec(buffer@, write_pos as int, delay_fx as int),
            -SAMPLE_LIMIT <= r <= SAMPLE_LIMIT,
    {
        let len: usize = buffer.len();
        let total: i64 = (write_pos as i64) * 1_000_000 - delay_fx;
        let t: i64 = if total < 0 {
            total + (len as i64) * 1_000_000
        } else {
            total
        };
        proof {
            assert(0 <= t && t < (len as int) * 1_000_000) by (nonlinear_arith)
                requires
                    t == (if (write_pos as int) * 1_000_000 - delay_fx < 0 {
                        (write_pos as int) * 1_000_000 - delay_fx + (len as int) * 1_000_000
                    } else {
                        (write_pos as int) * 1_000_000 - delay_fx
                    }),
                    0 <= (write_pos as int) && (write_pos as int) < (len as int),
                    0 <= delay_fx <= ((len as int) - 1) * 1_000_000,
            ;
            assert(t / 1_000_000 < len as int) by (nonlinear_arith)
                requires
                    0 <= t < (len as int) * 1_000_000,
            ;
        }
        let i0: usize = ((t as u64) / 1_000_000) as usize;
        let frac: i64 = ((t as u64) % 1_000_000) as i64;
        let i1: usize = if i0 + 1 < len {
            i0 + 1
        } else {
            0
        };
        proof {
            lemma_fx_convex_bound(buffer@[i0 as int] as int, buffer@[i1 as int] as int,
                frac as int, SAMPLE_LIMIT as int);
        }
        fx_mul(buffer[i0], 1_000_000 - frac) + fx_mul(buffer[i1], frac)
    }

    /// One delay step: read the echo, filter it, write the new cell,
    /// advance the cursor, and blend dry with the echo.
    pub fn process(&mut self, input: StereoSample) -> (r: StereoSample)
        requires
            delay_valid(*old(self)),
            sample_valid(input),
        ensures
            delay_valid(*final(self)),
            sample_valid(r),
            r.left == fx_mul_spec(input.left as int, FX_ONE - old(self).mix) + fx_mul_spec(
                interp_spec(old(self).buffer_left@, old(self).write_pos as int,
                    old(self).delay_fx as int),
                old(self).mix as int,
            ),
            r.right == fx_mul_spec(input.right as int, FX_ONE - old(self).mix) + fx_mul_spec(
                interp_spec(old(self).buffer_right@, old(self).write_pos as int,
                    old(self).delay_fx as int),
                old(self).mix as int,
            ),
            final(self).filter.z1_left == one_pole_out(old(self).filter.coeff as int,
                old(self).filter.z1_left as int,
                interp_spec(old(self).buffer_left@, old(self).write_pos as int,
                    old(self).delay_fx as int)),
            final(self).filter.z1_right == one_pole_out(old(self).filter.coeff as int,
                old(self).filter.z1_right as int,
                interp_spec(old(self).buffer_right@, old(self).write_pos as int,
                    old(self).delay_fx as int)),
            final(self).buffer_left@ == old(self).buffer_left@.update(
                old(self).write_pos as int,
                delay_written(input.left as int, final(self).filter.z1_left as int,
                    old(self).feedback as int) as i64,
            ),
            final(self).buffer_right@ == old(self).buffer_right@.update(
                old(self).write_pos as int,
                delay_written(input.right as int, final(self).filter.z1_right as int,
                    old(self).feedback as int) as i64,
            ),
            final(self).write_pos == (old(self).write_pos + 1) % (old(self).buffer_left@.len() as int),
            final(self).filter.coeff == old(self).filter.coeff,
            final(self).delay_fx == old(self).delay_fx,
            final(self).feedback == old(self).feedback,
            final(self).mix == old(self).mix,
            final(self).highcut_freq == old(self).highcut_freq,
            final(self).sample_rate == old(self).sample_rate,
            final(self).bypassed == old(self).bypassed,
    {
        let delayed_left = Self::read_interpolated(&self.buffer_left, self.write_pos,
            self.delay_fx);
        let delayed_right = Self::read_interpolated(&self.buffer_right, self.write_pos,
            self.delay_fx);
        let delayed = StereoSample { left: delayed_left, right: delayed_right };
        let filtered = self.filter.process(delayed);
        proof {
            crate::fixed::lemma_fx_mul_abs(filtered.left as int, old(self).feedback as int,
                SAMPLE_LIMIT as int, 950_000);
            crate::fixed::lemma_fx_mul_abs(filtered.right as int, old(self).feedback as int,
                SAMPLE_LIMIT as int, 950_000);
        }
        let write_left = fx_sat(input.left + fx_mul(filtered.left, self.feedback));
        let write_right = fx_sat(input.right + fx_mul(filtered.right, self.feedback));
        let wp = self.write_pos;
        self.buffer_left[wp] = write_left;
        self.buffer_right[wp] = write_right;
        let len = self.buffer_left.len();
        self.write_pos = if wp + 1 < len {
            wp + 1
        } else {
            0
        };
        proof {
            let w = wp as int;
            let l = len as int;
            if wp + 1 < len {
                vstd::arithmetic::div_mod::lemma_small_mod((w + 1) as nat, l as nat);
            } else {
                vstd::arithmetic::div_mod::lemma_mod_self_0(l);
            }
        }
        input.mix(delayed, self.mix)
    }

    /// Identity when bypassed, one delay step otherwise; exact per
    /// `delay_step` on the model.
    pub fn process_with_bypass(&mut self, input: StereoSample) -> (r: StereoSample)
        requires
            delay_valid(*old(self)),
            sample_valid(input),
        ensures
            delay_valid(*final(self)),
            sample_valid(r),
            old(self).bypassed ==> r == input && *final(self) == *old(self),
            ({
                let s = delay_step(delay_model(*old(self)), input);
                delay_model(*final(self)) == s.0 && r == s.1
            }),
    {
        if self.bypassed {
            input
        } else {
            let r = self.process(input);
            proof {
                assert(delay_model(*self) == delay_step(delay_model(*old(self)), input).0);
            }
            r
        }
    }

    /// Change the sample rate; on an actual change the buffers are resized
    /// and all state is flushed. A stored delay longer than the new buffer
    /// is clamped to its end so the read offset stays representable.
    pub fn set_sample_rate(&mut self, rate: u32)
        requires
            delay_valid(*old(self)),
            MIN_SAMPLE_RATE <= rate <= MAX_SAMPLE_RATE,
        ensures
            delay_valid(*final(self)),
            rate == old(self).sample_rate ==> *final(self) == *old(self),
            rate != old(self).sample_rate ==> {
                &&& final(self).sample_rate == rate
                &&& final(self).buffer_left@.len() == 2 * rate + 1
                &&& final(self).buffer_right@.len() == 2 * rate + 1
                &&& final(self).write_pos == 0
                &&& final(self).filter.z1_left == 0
                &&& final(self).filter.z1_right == 0
                &&& final(self).filter.coeff == spec_cutoff_coeff(
                    old(self).highcut_freq as int,
                    rate as int,
                )
                &&& final(self).delay_fx == (if old(self).delay_fx > 2_000_000 * rate {
                    (2_000_000 * rate) as i64
                } else {
                    old(self).delay_fx
                })
                &&& final(self).feedback == old(self).feedback
                &&& final(self).mix == old(self).mix
                &&& final(self).highcut_freq == old(self).highcut_freq
                &&& final(self).bypassed == old(self).bypassed
                &&& forall|i: int|
                    0 <= i < final(self).buffer_left@.len() ==> final(self).buffer_left@[i] == 0
                        && final(self).buffer_right@[i] == 0
            },
    {
        if rate != self.sample_rate {
            self.sample_rate = rate;
            let buffer_size: usize = (rate as usize) * 2 + 1;
            self.buffer_left = zero_buffer(buffer_size);
            self.buffer_right = zero_buffer(buffer_size);
            self.write_pos = 0;
            let max_delay: i64 = ((buffer_size as i64) - 1) * 1_000_000;
            if self.delay_fx > max_delay {
                self.delay_fx = max_delay;
            }
            let hc = self.highcut_freq;
            self.filter.set_cutoff(hc, rate);
            self.filter.reset();
        }
    }

    /// Flush all buffered audio and history; parameters are kept.
    pub fn reset(&mut self)
        requires
            delay_valid(*old(self)),
        ensures
            delay_valid(*final(self)),
            final(self).write_pos == 0,
            final(self).filter.z1_left == 0,
            final(self).filter.z1_right == 0,
            final(self).filter.coeff == old(self).filter.coeff,
            final(self).buffer_left@.len() == old(self).buffer_left@.len(),
            forall|i: int|
                0 <= i < final(self).buffer_left@.len() ==> final(self).buffer_left@[i] == 0
                    && final(self).buffer_right@[i] == 0,
            final(self).delay_fx == old(self).delay_fx,
            final(self).feedback == old(self).feedback,
            final(self).mix == old(self).mix,
            final(self).highcut_freq == old(self).highcut_freq,
            final(self).sample_rate == old(self).sample_rate,
            final(self).bypassed == old(self).bypassed,
    {
        let len = self.buffer_left.len();
        self.buffer_left = zero_buffer(len);
        self.buffer_right = zero_buffer(len);
        self.write_pos = 0;
        self.filter.reset();
    }

    /// Whether the module is bypassed.
    pub fn is_bypassed(&self) -> (r: bool)
        ensures
            r == self.bypassed,
    {
        self.bypassed
    }

    /// Set the bypass state.
    pub fn set_bypassed(&mut self, bypassed: bool)
        ensures
            *final(self) == (Delay { bypassed, ..*old(self) }),
    {
        self.bypassed = bypassed;
    }
}

} // verus!

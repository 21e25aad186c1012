//! Stereo DSP framework: the sample type, the closed set of processing
//! modules, and a chain that runs them in series.

pub mod delay;
pub mod eq;

use vstd::prelude::*;
use crate::fixed::{fx_mul, fx_mul_spec, lemma_fx_convex_bound, FX_ONE, SAMPLE_LIMIT};
use crate::dsp::delay::{delay_model, delay_step, delay_valid, Delay, MAX_SAMPLE_RATE,
    MIN_SAMPLE_RATE};
use crate::dsp::eq::{eq_step, eq_valid};

verus! {

/// One stereo audio sample, fixed-point.
#[derive(Clone, Copy, PartialEq, Eq, Structural, Debug)]
pub struct StereoSample {
    pub left: i64,
    pub right: i64,
}

/// A sample is valid when both channels are within the saturation range.
pub open spec fn sample_valid(s: StereoSample) -> bool {
    &&& -SAMPLE_LIMIT <= s.left <= SAMPLE_LIMIT
    &&& -SAMPLE_LIMIT <= s.right <= SAMPLE_LIMIT
}

impl StereoSample {
    /// A sample from explicit channel values.
    pub fn new(left: i64, right: i64) -> (r: StereoSample)
        ensures
            r.left == left,
            r.right == right,
    {
        StereoSample { left, right }
    }

    /// Both channels set to the same mono value.
    pub fn from_mono(value: i64) -> (r: StereoSample)
        ensures
            r.left == value,
            r.right == value,
    {
        StereoSample { left: value, right: value }
    }

    /// Linear dry/wet blend: `self * (1 - wet) + other * wet` per channel.
    pub fn mix(&self, other: StereoSample, wet: i64) -> (r: StereoSample)
        requires
            0 <= wet <= FX_ONE,
            sample_valid(*self),
            sample_valid(other),
        ensures
            r.left == fx_mul_spec(self.left as int, FX_ONE - wet) + fx_mul_spec(
                other.left as int,
                wet as int,
            ),
            r.right == fx_mul_spec(self.right as int, FX_ONE - wet) + fx_mul_spec(
                other.right as int,
                wet as int,
            ),
            sample_valid(r),
    {
        let dry: i64 = FX_ONE - wet;
        proof {
            lemma_fx_convex_bound(self.left as int, other.left as int, wet as int,
                SAMPLE_LIMIT as int);
            lemma_fx_convex_bound(self.right as int, other.right as int, wet as int,
                SAMPLE_LIMIT as int);
        }
        StereoSample {
            left: fx_mul(self.left, dry) + fx_mul(other.left, wet),
            right: fx_mul(self.right, dry) + fx_mul(other.right, wet),
        }
    }
}

impl Default for StereoSample {
    /// Silence.
    fn default() -> (r: StereoSample)
        ensures
            r.left == 0,
            r.right == 0,
    {
        StereoSample { left: 0, right: 0 }
    }
}

/// The closed set of stereo processing modules the router composes.
pub enum DspModule {
    Eq(crate::dsp::eq::Eq),
    Delay(Delay),
}

/// The wrapped module's own invariant.
pub open spec fn module_valid(m: DspModule) -> bool {
    match m {
        DspModule::Eq(e) => eq_valid(e),
        DspModule::Delay(d) => delay_valid(d),
    }
}

/// Whether the wrapped module is bypassed.
pub open spec fn module_bypassed(m: DspModule) -> bool {
    match m {
        DspModule::Eq(e) => e.bypassed,
        DspModule::Delay(d) => d.bypassed,
    }
}

/// One module's output for a sample, honoring its bypass switch.
pub open spec fn module_step_out(m: DspModule, x: StereoSample) -> StereoSample {
    match m {
        DspModule::Eq(e) => eq_step(e, x).1,
        DspModule::Delay(d) => delay_step(delay_model(d), x).1,
    }
}

/// The module value after one step relates to the value before as the
/// wrapped module's own step function says.
pub open spec fn module_stepped(before: DspModule, after: DspModule, x: StereoSample) -> bool {
    match (before, after) {
        (DspModule::Eq(e), DspModule::Eq(e2)) => e2 == eq_step(e, x).0,
        (DspModule::Delay(d), DspModule::Delay(d2)) => delay_model(d2) == delay_step(
            delay_model(d),
            x,
        ).0,
        _ => false,
    }
}

/// The sample entering stage `i` of a chain: the chain's input for the
/// first stage, each earlier stage's output after that. At the chain's
/// length this is the chain's output.
pub open spec fn chain_stage_in(mods: Seq<DspModule>, input: StereoSample, i: int) -> StereoSample
    decreases i,
{
    if i <= 0 {
        input
    } else {
        module_step_out(mods[i - 1], chain_stage_in(mods, input, i - 1))
    }
}

/// The module value after a reset: histories and cursors cleared, every
/// parameter kept.
pub open spec fn module_reset_to(before: DspModule, after: DspModule) -> bool {
    match (before, after) {
        (DspModule::Eq(e), DspModule::Eq(e2)) => e2 == (crate::dsp::eq::Eq {
            low_state: crate::dsp::eq::BiquadState {
                x1_l: 0,
                x2_l: 0,
                y1_l: 0,
                y2_l: 0,
                x1_r: 0,
                x2_r: 0,
                y1_r: 0,
                y2_r: 0,
            },
            mid_state: e2.low_state,
            high_state: e2.low_state,
            ..e
        }),
        (DspModule::Delay(d), DspModule::Delay(d2)) => {
            &&& d2.write_pos == 0
            &&& d2.filter.z1_left == 0
            &&& d2.filter.z1_right == 0
            &&& d2.filter.coeff == d.filter.coeff
            &&& d2.buffer_left@.len() == d.buffer_left@.len()
            &&& forall|i: int|
                0 <= i < d2.buffer_left@.len() ==> #[trigger] d2.buffer_left@[i] == 0
                    && d2.buffer_right@[i] == 0
            &&& d2.delay_fx == d.delay_fx
            &&& d2.feedback == d.feedback
            &&& d2.mix == d.mix
            &&& d2.highcut_freq == d.highcut_freq
            &&& d2.sample_rate == d.sample_rate
            &&& d2.bypassed == d.bypassed
        },
        _ => false,
    }
}

/// The module value after a sample-rate change: unchanged for the same
/// rate; for a new rate the module follows it, its histories are flushed
/// and its parameters are kept.
pub open spec fn module_rate_set(before: DspModule, after: DspModule, rate: u32) -> bool {
    match (before, after) {
        (DspModule::Eq(e), DspModule::Eq(e2)) => if rate == e.sample_rate {
            e2 == e
        } else {
            &&& e2.sample_rate == rate
            &&& e2.coeffs_dirty
            &&& e2.low_state == (crate::dsp::eq::BiquadState {
                x1_l: 0,
                x2_l: 0,
                y1_l: 0,
                y2_l: 0,
                x1_r: 0,
                x2_r: 0,
                y1_r: 0,
                y2_r: 0,
            })
            &&& e2.mid_state == e2.low_state
            &&& e2.high_state == e2.low_state
            &&& e2.low_freq == e.low_freq
            &&& e2.low_gain == e.low_gain
            &&& e2.mid_freq == e.mid_freq
            &&& e2.mid_gain == e.mid_gain
            &&& e2.mid_q == e.mid_q
            &&& e2.high_freq == e.high_freq
            &&& e2.high_gain == e.high_gain
            &&& e2.bypassed == e.bypassed
        },
        (DspModule::Delay(d), DspModule::Delay(d2)) => if rate == d.sample_rate {
            d2 == d
        } else {
            &&& d2.sample_rate == rate
            &&& d2.buffer_left@.len() == 2 * rate + 1
            &&& d2.write_pos == 0
            &&& d2.filter.z1_left == 0
            &&& d2.filter.z1_right == 0
            &&& forall|i: int|
                0 <= i < d2.buffer_left@.len() ==> #[trigger] d2.buffer_left@[i] == 0
                    && d2.buffer_right@[i] == 0
            &&& d2.feedback == d.feedback
            &&& d2.mix == d.mix
            &&& d2.highcut_freq == d.highcut_freq
            &&& d2.bypassed == d.bypassed
        },
        _ => false,
    }
}

impl DspModule {
    /// One step of the wrapped module, honoring its bypass switch; exact
    /// per the module's own step function.
    pub fn process_with_bypass(&mut self, input: StereoSample) -> (r: StereoSample)
        requires
            module_valid(*old(self)),
            sample_valid(input),
        ensures
            module_valid(*final(self)),
            sample_valid(r),
            module_bypassed(*old(self)) ==> r == input && *final(self) == *old(self),
            (*old(self)) matches DspModule::Eq(e) ==> (*final(self)) matches DspModule::Eq(e2)
                && (e2, r) == eq_step(e, input),
            (*old(self)) matches DspModule::Delay(d) ==> (*final(self)) matches DspModule::Delay(
                d2,
            ) && (delay_model(d2), r) == delay_step(delay_model(d), input),
    {
        match self {
            DspModule::Eq(e) => e.process_with_bypass(input),
            DspModule::Delay(d) => d.process_with_bypass(input),
        }
    }

    /// Pass a sample-rate change to the wrapped module; exact per
    /// `module_rate_set`.
    pub fn set_sample_rate(&mut self, rate: u32)
        requires
            module_valid(*old(self)),
            MIN_SAMPLE_RATE <= rate <= MAX_SAMPLE_RATE,
        ensures
            module_valid(*final(self)),
            module_rate_set(*old(self), *final(self), rate),
    {
        match self {
            DspModule::Eq(e) => e.set_sample_rate(rate),
            DspModule::Delay(d) => d.set_sample_rate(rate),
        }
    }

    /// Clear the wrapped module's internal state, keeping its parameters;
    /// exact per `module_reset_to`.
    pub fn reset(&mut self)
        requires
            module_valid(*old(self)),
        ensures
            module_valid(*final(self)),
            module_reset_to(*old(self), *final(self)),
    {
        match self {
            DspModule::Eq(e) => e.reset(),
            DspModule::Delay(d) => d.reset(),
        }
    }

    /// Whether the wrapped module is bypassed.
    pub fn is_bypassed(&self) -> (r: bool)
        ensures
            r == module_bypassed(*self),
    {
        match self {
            DspModule::Eq(e) => e.is_bypassed(),
            DspModule::Delay(d) => d.is_bypassed(),
        }
    }

    /// Set the wrapped module's bypass switch.
    pub fn set_bypassed(&mut self, bypassed: bool)
        requires
            module_valid(*old(self)),
        ensures
            module_valid(*final(self)),
            module_bypassed(*final(self)) == bypassed,
    {
        match self {
            DspModule::Eq(e) => e.set_bypassed(bypassed),
            DspModule::Delay(d) => d.set_bypassed(bypassed),
        }
    }
}

/// A chain of modules processed in series.
pub struct ModuleChain {
    pub modules: Vec<DspModule>,
}

/// Every module of the chain satisfies its invariant.
pub open spec fn chain_valid(c: ModuleChain) -> bool {
    forall|i: int| 0 <= i < c.modules@.len() ==> module_valid(#[trigger] c.modules@[i])
}

impl ModuleChain {
    /// An empty chain.
    pub fn new() -> (r: ModuleChain)
        ensures
            chain_valid(r),
            r.modules@.len() == 0,
    {
        ModuleChain { modules: Vec::new() }
    }

    /// Append a module to the end of the chain.
    pub fn add(&mut self, module: DspModule)
        requires
            chain_valid(*old(self)),
            module_valid(module),
        ensures
            chain_valid(*final(self)),
            final(self).modules@ == old(self).modules@.push(module),
    {
        self.modules.push(module);
    }

    /// Run the sample through every module in order: the result is the
    /// left-to-right fold of the modules' step functions over the input,
    /// and each module advances by exactly one step on its stage's
    /// sample. A chain whose modules are all bypassed is an exact
    /// identity and is left exactly as it was.
    pub fn process(&mut self, input: StereoSample) -> (r: StereoSample)
        requires
            chain_valid(*old(self)),
            sample_valid(input),
        ensures
            chain_valid(*final(self)),
            sample_valid(r),
            final(self).modules@.len() == old(self).modules@.len(),
            r == chain_stage_in(old(self).modules@, input, old(self).modules@.len() as int),
            forall|i: int|
                0 <= i < old(self).modules@.len() ==> module_stepped(
                    #[trigger] old(self).modules@[i],
                    final(self).modules@[i],
                    chain_stage_in(old(self).modules@, input, i),
                ),
            (forall|i: int|
                0 <= i < old(self).modules@.len() ==> module_bypassed(
                    #[trigger] old(self).modules@[i],
                )) ==> r == input && final(self).modules@ == old(self).modules@,
    {
        let mut sample = input;
        let mut i: usize = 0;
        let n = self.modules.len();
        while i < n
            invariant
                chain_valid(*self),
                sample_valid(sample),
                i <= n,
                n == self.modules@.len(),
                self.modules@.len() == old(self).modules@.len(),
                sample == chain_stage_in(old(self).modules@, input, i as int),
                forall|j: int|
                    0 <= j < i ==> module_stepped(#[trigger] old(self).modules@[j],
                    self.modules@[j], chain_stage_in(old(self).modules@, input, j)),
                forall|j: int| i <= j < n ==> self.modules@[j] == old(self).modules@[j],
                (forall|j: int|
                    0 <= j < old(self).modules@.len() ==> module_bypassed(
                        #[trigger] old(self).modules@[j],
                    )) ==> sample == input && self.modules@ =~= old(self).modules@,
            decreases n - i,
        {
            let m = &mut self.modules[i];
            sample = m.process_with_bypass(sample);
            i = i + 1;
        }
        sample
    }

    /// Pass a sample-rate change to every module; each follows the new
    /// rate per `module_rate_set`, and the list itself is kept.
    pub fn set_sample_rate(&mut self, rate: u32)
        requires
            chain_valid(*old(self)),
            MIN_SAMPLE_RATE <= rate <= MAX_SAMPLE_RATE,
        ensures
            chain_valid(*final(self)),
            final(self).modules@.len() == old(self).modules@.len(),
            forall|i: int|
                0 <= i < old(self).modules@.len() ==> module_rate_set(
                    #[trigger] old(self).modules@[i],
                    final(self).modules@[i],
                    rate,
                ),
    {
        let mut i: usize = 0;
        let n = self.modules.len();
        while i < n
            invariant
                chain_valid(*self),
                i <= n,
                n == self.modules@.len(),
                self.modules@.len() == old(self).modules@.len(),
                MIN_SAMPLE_RATE <= rate <= MAX_SAMPLE_RATE,
                forall|j: int|
                    0 <= j < i ==> module_rate_set(#[trigger] old(self).modules@[j],
                    self.modules@[j], rate),
                forall|j: int| i <= j < n ==> self.modules@[j] == old(self).modules@[j],
            decreases n - i,
        {
            let m = &mut self.modules[i];
            m.set_sample_rate(rate);
            i = i + 1;
        }
    }

    /// Clear every module's internal state, keeping the list and each
    /// module's parameters; exact per `module_reset_to`.
    pub fn reset(&mut self)
        requires
            chain_valid(*old(self)),
        ensures
            chain_valid(*final(self)),
            final(self).modules@.len() == old(self).modules@.len(),
            forall|i: int|
                0 <= i < old(self).modules@.len() ==> module_reset_to(
                    #[trigger] old(self).modules@[i],
                    final(self).modules@[i],
                ),
    {
        let mut i: usize = 0;
        let n = self.modules.len();
        while i < n
            invariant
                chain_valid(*self),
                i <= n,
                n == self.modules@.len(),
                self.modules@.len() == old(self).modules@.len(),
                forall|j: int|
                    0 <= j < i ==> module_reset_to(#[trigger] old(self).modules@[j],
                    self.modules@[j]),
                forall|j: int| i <= j < n ==> self.modules@[j] == old(self).modules@[j],
            decreases n - i,
        {
            let m = &mut self.modules[i];
            m.reset();
            i = i + 1;
        }
    }
}

impl Default for ModuleChain {
    /// An empty chain.
    fn default() -> (r: ModuleChain)
        ensures
            chain_valid(r),
            r.modules@.len() == 0,
    {
        ModuleChain::new()
    }
}

} // verus!

//! The top-level signal router: per-block orchestration of gain staging,
//! EQ, the block bridge, the delay, dry/wet mixing, and the cross-thread
//! script hot-swap protocol.
//!
//! The external engine runs between the two per-block phases: the input
//! phase fills the bridge with EQ-processed mono samples, the caller runs
//! the engine on every full block the bridge offers, and the output phase
//! drains the engine's stereo output through the delay and the dry/wet
//! mix. Script updates arrive over the lossy control channel; one that
//! the engine rejects leaves the active script untouched.

use vstd::prelude::*;
use crate::channel::{code_channel, try_recv_code, CODE_CHANNEL_CAPACITY};
use crate::dsp::delay::{delay_model, delay_step, delay_valid, spec_cutoff_coeff, Delay,
    DelayModel, MAX_SAMPLE_RATE, MIN_SAMPLE_RATE};
use crate::dsp::eq::{eq_step, eq_valid, gain_changed, BiquadState};
use crate::dsp::StereoSample;
use crate::engine::buffer_bridge::{bridge_valid, lemma_push_all_snoc, ring_after_pop,
    ring_after_push_all, wrap_inc32, BufferBridge, RING_BUFFER_SIZE, UNDERRUN_LOG_INTERVAL};
use crate::engine::param_injector::{spec_inject, spec_param_value, ParamInjector};
use crate::engine::ring::ring_contents;
use crate::engine::GLICOL_BLOCK_SIZE;
use crate::fixed::{clamp_spec, fx_mul, fx_mul_spec, fx_sat, lemma_fx_convex_bound,
    lemma_fx_mul_abs, sat_spec, FX_ONE, SAMPLE_LIMIT};
use crate::messages::CodeMessage;

verus! {

/// Largest host buffer the router processes in one call.
pub const MAX_BUFFER_SIZE: usize = 4_096;

/// Largest gain factor the gain stages accept: thirty-two times,
/// comfortably above the +30 dB the host's gain controls reach.
pub const GAIN_MAX: i64 = 32_000_000;

/// The smoothed control values mirrored from the parameter store once per
/// block.
pub struct ControlValues {
    pub input_gain: i64,
    pub output_gain: i64,
    pub dry_wet: i64,
    pub knob1: i64,
    pub knob2: i64,
    pub knob3: i64,
    pub knob4: i64,
    pub drive: i64,
    pub feedback: i64,
    pub mix: i64,
    pub rate: i64,
    pub delay_bypass: bool,
    pub delay_time_ms: i64,
    pub delay_feedback: i64,
    pub delay_mix: i64,
    pub delay_highcut: u32,
    pub eq_bypass: bool,
    pub eq_low_freq: u32,
    pub eq_low_gain: i64,
    pub eq_mid_freq: u32,
    pub eq_mid_gain: i64,
    pub eq_mid_q: i64,
    pub eq_high_freq: u32,
    pub eq_high_gain: i64,
}

/// The gains and injectable values are in range; the filter parameters
/// need no bound, their setters clamp.
pub open spec fn control_values_valid(c: ControlValues) -> bool {
    &&& 0 <= c.input_gain <= GAIN_MAX
    &&& 0 <= c.output_gain <= GAIN_MAX
    &&& 0 <= c.dry_wet <= FX_ONE
    &&& -1_000_000_000_000 <= c.knob1 <= 1_000_000_000_000
    &&& -1_000_000_000_000 <= c.knob2 <= 1_000_000_000_000
    &&& -1_000_000_000_000 <= c.knob3 <= 1_000_000_000_000
    &&& -1_000_000_000_000 <= c.knob4 <= 1_000_000_000_000
    &&& -1_000_000_000_000 <= c.drive <= 1_000_000_000_000
    &&& -1_000_000_000_000 <= c.feedback <= 1_000_000_000_000
    &&& -1_000_000_000_000 <= c.mix <= 1_000_000_000_000
    &&& -1_000_000_000_000 <= c.rate <= 1_000_000_000_000
}

/// The top-level processor: owns the DSP modules, the bridge, the active
/// script text and the control-channel endpoints.
pub struct GlicolVerb {
    pub eq: crate::dsp::eq::Eq,
    pub delay: Delay,
    pub buffer_bridge: BufferBridge,
    pub code_receiver: crossbeam_channel::Receiver<CodeMessage>,
    pub code_sender: Option<crossbeam_channel::Sender<CodeMessage>>,
    pub user_code: String,
    pub param_injector: ParamInjector,
    pub sample_rate: u32,
    pub dry_buffer: Vec<i64>,
}

/// The router's invariant: modules and bridge valid, the dry-signal
/// scratch sized and bounded, injector values sane.
pub open spec fn router_valid(r: GlicolVerb) -> bool {
    &&& eq_valid(r.eq)
    &&& delay_valid(r.delay)
    &&& bridge_valid(r.buffer_bridge)
    &&& r.dry_buffer@.len() == MAX_BUFFER_SIZE
    &&& crate::dsp::delay::buf_bounded(r.dry_buffer@)
    &&& MIN_SAMPLE_RATE <= r.sample_rate <= MAX_SAMPLE_RATE
    &&& forall|k: int|
        0 <= k < 8 ==> -1_000_000_000_000 <= #[trigger] spec_param_value(r.param_injector, k)
            <= 1_000_000_000_000
}

/// The mono sample the input phase hands to the EQ: the channels averaged
/// when the host is stereo, then the input gain, saturated.
pub open spec fn spec_mono_in(left: Seq<i64>, right: Seq<i64>, stereo: bool, gain: int, i: int)
    -> int {
    let raw = if stereo {
        fx_mul_spec(left[i] + right[i], 500_000)
    } else {
        left[i] as int
    };
    sat_spec(fx_mul_spec(raw, gain))
}

/// The input phase after `n` samples: the EQ state reached, and the dry
/// mono samples captured, in order.
pub open spec fn input_phase_spec(
    e: crate::dsp::eq::Eq,
    left: Seq<i64>,
    right: Seq<i64>,
    stereo: bool,
    gain: int,
    n: int,
) -> (crate::dsp::eq::Eq, Seq<i64>)
    decreases n,
{
    if n <= 0 {
        (e, Seq::<i64>::empty())
    } else {
        let prev = input_phase_spec(e, left, right, stereo, gain, n - 1);
        let x = spec_mono_in(left, right, stereo, gain, n - 1);
        let stepped = eq_step(prev.0, StereoSample { left: x as i64, right: x as i64 });
        (stepped.0, prev.1.push(stepped.1.left))
    }
}

/// The output phase's state: the delay, the two output queues, what has
/// been written to the host so far, and the underrun diagnostics.
pub struct OutputPhaseModel {
    pub delay: DelayModel,
    pub left_queue: Seq<i64>,
    pub right_queue: Seq<i64>,
    pub out_left: Seq<i64>,
    pub out_right: Seq<i64>,
    pub underrun_count: u32,
    pub log_counter: u32,
}

/// One output sample: pop both queues (silence and a counted underrun if
/// either is empty), run the delay, blend with the captured dry sample,
/// apply the output gain.
pub open spec fn output_step(m: OutputPhaseModel, dry: int, gain: int, dw: int)
    -> OutputPhaseModel {
    let both = m.left_queue.len() > 0 && m.right_queue.len() > 0;
    let wl = if both {
        m.left_queue[0] as int
    } else {
        0
    };
    let wr = if both {
        m.right_queue[0] as int
    } else {
        0
    };
    let wet = StereoSample { left: sat_spec(wl) as i64, right: sat_spec(wr) as i64 };
    let stepped = delay_step(m.delay, wet);
    let mix_l = fx_mul_spec(dry, 1_000_000 - dw) + fx_mul_spec(stepped.1.left as int, dw);
    let mix_r = fx_mul_spec(dry, 1_000_000 - dw) + fx_mul_spec(stepped.1.right as int, dw);
    OutputPhaseModel {
        delay: stepped.0,
        left_queue: ring_after_pop(m.left_queue),
        right_queue: ring_after_pop(m.right_queue),
        out_left: m.out_left.push(sat_spec(fx_mul_spec(mix_l, gain)) as i64),
        out_right: m.out_right.push(sat_spec(fx_mul_spec(mix_r, gain)) as i64),
        underrun_count: if both {
            m.underrun_count
        } else {
            wrap_inc32(m.underrun_count)
        },
        log_counter: if both {
            m.log_counter
        } else {
            if m.log_counter + 1 >= UNDERRUN_LOG_INTERVAL {
                0u32
            } else {
                (m.log_counter + 1) as u32
            }
        },
    }
}

/// The output phase after `n` samples.
pub open spec fn output_phase_spec(m: OutputPhaseModel, dry: Seq<i64>, gain: int, dw: int, n: int)
    -> OutputPhaseModel
    decreases n,
{
    if n <= 0 {
        m
    } else {
        output_step(output_phase_spec(m, dry, gain, dw, n - 1), dry[n - 1] as int, gain, dw)
    }
}

impl GlicolVerb {
    /// Mirror the injectable control values into the parameter injector.
    pub fn update_param_injector(&mut self, c: &ControlValues)
        requires
            router_valid(*old(self)),
            control_values_valid(*c),
        ensures
            router_valid(*final(self)),
            final(self).param_injector.knob1 == c.knob1,
            final(self).param_injector.knob2 == c.knob2,
            final(self).param_injector.knob3 == c.knob3,
            final(self).param_injector.knob4 == c.knob4,
            final(self).param_injector.drive == c.drive,
            final(self).param_injector.feedback == c.feedback,
            final(self).param_injector.mix == c.mix,
            final(self).param_injector.rate == c.rate,
            *final(self) == (GlicolVerb { param_injector: final(self).param_injector, ..*old(self) }),
    {
        self.param_injector.knob1 = c.knob1;
        self.param_injector.knob2 = c.knob2;
        self.param_injector.knob3 = c.knob3;
        self.param_injector.knob4 = c.knob4;
        self.param_injector.drive = c.drive;
        self.param_injector.feedback = c.feedback;
        self.param_injector.mix = c.mix;
        self.param_injector.rate = c.rate;
    }

    /// Mirror the delay control values into the delay module, through its
    /// clamping setters: time, feedback, mix and high-cut land clamped,
    /// the one-pole coefficient is recomputed, and the buffered audio is
    /// untouched.
    pub fn update_delay_params(&mut self, c: &ControlValues)
        requires
            router_valid(*old(self)),
        ensures
            router_valid(*final(self)),
            final(self).delay.bypassed == c.delay_bypass,
            final(self).delay.delay_fx == clamp_spec(c.delay_time_ms as int, 1_000_000,
                2_000_000_000) * old(self).delay.sample_rate / 1_000,
            final(self).delay.feedback == clamp_spec(c.delay_feedback as int, 0, 950_000),
            final(self).delay.mix == clamp_spec(c.delay_mix as int, 0, 1_000_000),
            final(self).delay.highcut_freq == clamp_spec(c.delay_highcut as int, 1_000, 20_000),
            final(self).delay.filter.coeff == spec_cutoff_coeff(
                clamp_spec(c.delay_highcut as int, 1_000, 20_000),
                old(self).delay.sample_rate as int,
            ),
            final(self).delay.sample_rate == old(self).delay.sample_rate,
            final(self).delay.buffer_left@ == old(self).delay.buffer_left@,
            final(self).delay.buffer_right@ == old(self).delay.buffer_right@,
            final(self).delay.write_pos == old(self).delay.write_pos,
            final(self).delay.filter.z1_left == old(self).delay.filter.z1_left,
            final(self).delay.filter.z1_right == old(self).delay.filter.z1_right,
            *final(self) == (GlicolVerb { delay: final(self).delay, ..*old(self) }),
    {
        self.delay.set_bypassed(c.delay_bypass);
        self.delay.set_time_ms(c.delay_time_ms);
        self.delay.set_feedback(c.delay_feedback);
        self.delay.set_mix(c.delay_mix);
        self.delay.set_highcut(c.delay_highcut);
    }

    /// Mirror the EQ control values into the EQ module, through its
    /// clamping setters: frequencies land clamped, gains and the quality
    /// factor land clamped when they moved beyond the epsilon, the
    /// coefficients are marked stale exactly when something changed, and
    /// the histories are untouched.
    pub fn update_eq_params(&mut self, c: &ControlValues)
        requires
            router_valid(*old(self)),
        ensures
            router_valid(*final(self)),
            final(self).eq.bypassed == c.eq_bypass,
            final(self).eq.low_freq == clamp_spec(c.eq_low_freq as int, 20, 500),
            final(self).eq.mid_freq == clamp_spec(c.eq_mid_freq as int, 200, 8_000),
            final(self).eq.high_freq == clamp_spec(c.eq_high_freq as int, 2_000, 20_000),
            final(self).eq.low_gain == (if gain_changed(old(self).eq.low_gain, clamp_spec(
                c.eq_low_gain as int, -12_000_000, 12_000_000)) {
                clamp_spec(c.eq_low_gain as int, -12_000_000, 12_000_000) as i64
            } else {
                old(self).eq.low_gain
            }),
            final(self).eq.mid_gain == (if gain_changed(old(self).eq.mid_gain, clamp_spec(
                c.eq_mid_gain as int, -12_000_000, 12_000_000)) {
                clamp_spec(c.eq_mid_gain as int, -12_000_000, 12_000_000) as i64
            } else {
                old(self).eq.mid_gain
            }),
            final(self).eq.mid_q == (if gain_changed(old(self).eq.mid_q, clamp_spec(
                c.eq_mid_q as int, 500_000, 4_000_000)) {
                clamp_spec(c.eq_mid_q as int, 500_000, 4_000_000) as i64
            } else {
                old(self).eq.mid_q
            }),
            final(self).eq.high_gain == (if gain_changed(old(self).eq.high_gain, clamp_spec(
                c.eq_high_gain as int, -12_000_000, 12_000_000)) {
                clamp_spec(c.eq_high_gain as int, -12_000_000, 12_000_000) as i64
            } else {
                old(self).eq.high_gain
            }),
            final(self).eq.coeffs_dirty == (old(self).eq.coeffs_dirty || clamp_spec(
                c.eq_low_freq as int, 20, 500) != old(self).eq.low_freq || gain_changed(
                old(self).eq.low_gain, clamp_spec(c.eq_low_gain as int, -12_000_000, 12_000_000))
                || clamp_spec(c.eq_mid_freq as int, 200, 8_000) != old(self).eq.mid_freq
                || gain_changed(old(self).eq.mid_gain, clamp_spec(c.eq_mid_gain as int,
                -12_000_000, 12_000_000)) || gain_changed(old(self).eq.mid_q, clamp_spec(
                c.eq_mid_q as int, 500_000, 4_000_000)) || clamp_spec(c.eq_high_freq as int,
                2_000, 20_000) != old(self).eq.high_freq || gain_changed(old(self).eq.high_gain,
                clamp_spec(c.eq_high_gain as int, -12_000_000, 12_000_000))),
            final(self).eq.low_state == old(self).eq.low_state,
            final(self).eq.mid_state == old(self).eq.mid_state,
            final(self).eq.high_state == old(self).eq.high_state,
            final(self).eq.low_coeffs == old(self).eq.low_coeffs,
            final(self).eq.mid_coeffs == old(self).eq.mid_coeffs,
            final(self).eq.high_coeffs == old(self).eq.high_coeffs,
            final(self).eq.sample_rate == old(self).eq.sample_rate,
            *final(self) == (GlicolVerb { eq: final(self).eq, ..*old(self) }),
    {
        self.eq.set_bypassed(c.eq_bypass);
        self.eq.set_low_freq(c.eq_low_freq);
        self.eq.set_low_gain(c.eq_low_gain);
        self.eq.set_mid_freq(c.eq_mid_freq);
        self.eq.set_mid_gain(c.eq_mid_gain);
        self.eq.set_mid_q(c.eq_mid_q);
        self.eq.set_high_freq(c.eq_high_freq);
        self.eq.set_high_gain(c.eq_high_gain);
    }

    /// Adopt the host's sample rate, reconfigure the modules (a changed
    /// rate flushes their histories), mirror the control values, and seed
    /// the active script from the persisted text.
    pub fn initialize(&mut self, sample_rate: u32, persisted_code: String, c: &ControlValues)
        -> (r: bool)
        requires
            router_valid(*old(self)),
            control_values_valid(*c),
            MIN_SAMPLE_RATE <= sample_rate <= MAX_SAMPLE_RATE,
        ensures
            router_valid(*final(self)),
            final(self).sample_rate == sample_rate,
            final(self).user_code == persisted_code,
            final(self).eq.sample_rate == sample_rate,
            final(self).delay.sample_rate == sample_rate,
            final(self).eq.bypassed == c.eq_bypass,
            final(self).eq.low_freq == clamp_spec(c.eq_low_freq as int, 20, 500),
            final(self).eq.mid_freq == clamp_spec(c.eq_mid_freq as int, 200, 8_000),
            final(self).eq.high_freq == clamp_spec(c.eq_high_freq as int, 2_000, 20_000),
            final(self).delay.bypassed == c.delay_bypass,
            final(self).delay.delay_fx == clamp_spec(c.delay_time_ms as int, 1_000_000,
                2_000_000_000) * sample_rate / 1_000,
            final(self).delay.feedback == clamp_spec(c.delay_feedback as int, 0, 950_000),
            final(self).delay.mix == clamp_spec(c.delay_mix as int, 0, 1_000_000),
            final(self).delay.highcut_freq == clamp_spec(c.delay_highcut as int, 1_000, 20_000),
            final(self).delay.filter.coeff == spec_cutoff_coeff(
                clamp_spec(c.delay_highcut as int, 1_000, 20_000),
                sample_rate as int,
            ),
            final(self).param_injector == (ParamInjector {
                knob1: c.knob1,
                knob2: c.knob2,
                knob3: c.knob3,
                knob4: c.knob4,
                drive: c.drive,
                feedback: c.feedback,
                mix: c.mix,
                rate: c.rate,
            }),
            sample_rate != old(self).eq.sample_rate ==> final(self).eq.low_state == (BiquadState {
                x1_l: 0,
                x2_l: 0,
                y1_l: 0,
                y2_l: 0,
                x1_r: 0,
                x2_r: 0,
                y1_r: 0,
                y2_r: 0,
            }) && final(self).eq.mid_state == final(self).eq.low_state
                && final(self).eq.high_state == final(self).eq.low_state,
            sample_rate != old(self).delay.sample_rate ==> final(self).delay.write_pos == 0
                && final(self).delay.filter.z1_left == 0 && final(self).delay.filter.z1_right
                == 0 && (forall|i: int|
                0 <= i < final(self).delay.buffer_left@.len()
                    ==> final(self).delay.buffer_left@[i] == 0
                    && final(self).delay.buffer_right@[i] == 0),
            r == true,
    {
        self.sample_rate = sample_rate;
        self.eq.set_sample_rate(sample_rate);
        self.update_eq_params(c);
        self.delay.set_sample_rate(sample_rate);
        self.update_delay_params(c);
        self.user_code = persisted_code;
        self.update_param_injector(c);
        true
    }

    /// Flush all buffered audio: the bridge's queues and scratch block,
    /// the EQ histories, and the delay line with its cursor and feedback
    /// filter history. The active script, the parameters and the
    /// cumulative underrun diagnostic are kept.
    pub fn reset(&mut self)
        requires
            router_valid(*old(self)),
        ensures
            router_valid(*final(self)),
            ring_contents(final(self).buffer_bridge.input) == Seq::<i64>::empty(),
            ring_contents(final(self).buffer_bridge.output_left) == Seq::<i64>::empty(),
            ring_contents(final(self).buffer_bridge.output_right) == Seq::<i64>::empty(),
            forall|i: int|
                0 <= i < GLICOL_BLOCK_SIZE ==> final(self).buffer_bridge.input_block@[i] == 0,
            final(self).buffer_bridge.underrun_count == old(self).buffer_bridge.underrun_count,
            final(self).eq == (crate::dsp::eq::Eq {
                low_state: final(self).eq.low_state,
                mid_state: final(self).eq.mid_state,
                high_state: final(self).eq.high_state,
                ..old(self).eq
            }),
            final(self).eq.low_state == (BiquadState {
                x1_l: 0,
                x2_l: 0,
                y1_l: 0,
                y2_l: 0,
                x1_r: 0,
                x2_r: 0,
                y1_r: 0,
                y2_r: 0,
            }),
            final(self).eq.mid_state == final(self).eq.low_state,
            final(self).eq.high_state == final(self).eq.low_state,
            final(self).delay.write_pos == 0,
            final(self).delay.filter.z1_left == 0,
            final(self).delay.filter.z1_right == 0,
            final(self).delay.buffer_left@.len() == old(self).delay.buffer_left@.len(),
            forall|i: int|
                0 <= i < final(self).delay.buffer_left@.len()
                    ==> final(self).delay.buffer_left@[i] == 0
                    && final(self).delay.buffer_right@[i] == 0,
            final(self).delay.delay_fx == old(self).delay.delay_fx,
            final(self).delay.feedback == old(self).delay.feedback,
            final(self).delay.mix == old(self).delay.mix,
            final(self).delay.highcut_freq == old(self).delay.highcut_freq,
            final(self).delay.filter.coeff == old(self).delay.filter.coeff,
            final(self).delay.sample_rate == old(self).delay.sample_rate,
            final(self).delay.bypassed == old(self).delay.bypassed,
            final(self).user_code == old(self).user_code,
            final(self).param_injector == old(self).param_injector,
            final(self).sample_rate == old(self).sample_rate,
    {
        self.buffer_bridge.clear();
        self.eq.reset();
        self.delay.reset();
    }

    /// Drain pending script updates from the control channel without
    /// blocking, oldest first. What arrives depends on the editor thread,
    /// so nothing is promised of the payloads; the router state is
    /// untouched. At most the channel's capacity is returned in one poll
    /// -- the bounded channel never holds more at once, so only an editor
    /// refilling it mid-callback waits for the next block -- which keeps
    /// the audio callback's work bounded.
    pub fn poll_code_updates(&self) -> (r: Vec<String>)
        ensures
            r@.len() <= CODE_CHANNEL_CAPACITY,
    {
        let mut updates: Vec<String> = Vec::new();
        let mut i: usize = 0;
        while i < CODE_CHANNEL_CAPACITY
            invariant
                i <= CODE_CHANNEL_CAPACITY,
                updates@.len() <= i,
            decreases CODE_CHANNEL_CAPACITY - i,
        {
            let msg = try_recv_code(&self.code_receiver);
            match msg {
                Some(CodeMessage::UpdateCode(text)) => {
                    updates.push(text);
                },
                None => {
                    return updates;
                },
            }
            i = i + 1;
        }
        updates
    }

    /// The script as it would be handed to the engine now: the current
    /// control bindings injected in front of the given text.
    pub fn inject_current(&self, code: &str) -> (r: String)
        requires
            router_valid(*self),
        ensures
            r@ == spec_inject(self.param_injector, code@),
    {
        self.param_injector.inject(code)
    }

    /// Commit or drop one script update, as the engine accepted it or
    /// not: on acceptance the new text becomes the active script, on
    /// rejection the previously active script stays, unchanged, as is
    /// the whole router state.
    pub fn apply_code_update(&mut self, new_code: String, accepted: bool)
        requires
            router_valid(*old(self)),
        ensures
            router_valid(*final(self)),
            accepted ==> final(self).user_code == new_code,
            !accepted ==> *final(self) == *old(self),
            *final(self) == (GlicolVerb { user_code: final(self).user_code, ..*old(self) }),
    {
        if accepted {
            self.user_code = new_code;
        }
    }

    /// The input phase: per host sample, apply the input gain, run the
    /// EQ, downmix to mono, capture the dry signal, and feed the bridge.
    /// Exact per `input_phase_spec`.
    #[verifier::rlimit(100)]
    pub fn process_input_phase(
        &mut self,
        left: &Vec<i64>,
        right: &Vec<i64>,
        stereo: bool,
        input_gain: i64,
        n: usize,
    )
        requires
            router_valid(*old(self)),
            n <= left@.len(),
            stereo ==> n <= right@.len(),
            n <= MAX_BUFFER_SIZE,
            0 <= input_gain <= GAIN_MAX,
            forall|i: int| 0 <= i < n ==> -SAMPLE_LIMIT <= #[trigger] left@[i] <= SAMPLE_LIMIT,
            stereo ==> forall|i: int|
                0 <= i < n ==> -SAMPLE_LIMIT <= #[trigger] right@[i] <= SAMPLE_LIMIT,
        ensures
            router_valid(*final(self)),
            ({
                let phase = input_phase_spec(old(self).eq, left@, right@, stereo,
                    input_gain as int, n as int);
                &&& final(self).eq == phase.0
                &&& phase.1.len() == n
                &&& forall|i: int| 0 <= i < n ==> final(self).dry_buffer@[i] == phase.1[i]
                &&& forall|i: int|
                    n <= i < MAX_BUFFER_SIZE ==> final(self).dry_buffer@[i] == old(
                        self,
                    ).dry_buffer@[i]
                &&& ring_contents(final(self).buffer_bridge.input) == ring_after_push_all(
                    ring_contents(old(self).buffer_bridge.input),
                    RING_BUFFER_SIZE as nat,
                    phase.1,
                )
            }),
            ring_contents(final(self).buffer_bridge.output_left) == ring_contents(
                old(self).buffer_bridge.output_left),
            ring_contents(final(self).buffer_bridge.output_right) == ring_contents(
                old(self).buffer_bridge.output_right),
            final(self).buffer_bridge.underrun_count == old(self).buffer_bridge.underrun_count,
            final(self).delay == old(self).delay,
            final(self).user_code == old(self).user_code,
            final(self).param_injector == old(self).param_injector,
            final(self).sample_rate == old(self).sample_rate,
    {
        let mut i: usize = 0;
        while i < n
            invariant
                eq_valid(self.eq),
                delay_valid(self.delay),
                bridge_valid(self.buffer_bridge),
                self.dry_buffer@.len() == MAX_BUFFER_SIZE,
                crate::dsp::delay::buf_bounded(self.dry_buffer@),
                MIN_SAMPLE_RATE <= self.sample_rate <= MAX_SAMPLE_RATE,
                forall|k: int|
                    0 <= k < 8 ==> -1_000_000_000_000 <= #[trigger] spec_param_value(
                        self.param_injector, k) <= 1_000_000_000_000,
                i <= n,
                n <= left@.len(),
                stereo ==> n <= right@.len(),
                n <= MAX_BUFFER_SIZE,
                0 <= input_gain <= GAIN_MAX,
                forall|j: int| 0 <= j < n ==> -SAMPLE_LIMIT <= #[trigger] left@[j] <= SAMPLE_LIMIT,
                stereo ==> forall|j: int|
                    0 <= j < n ==> -SAMPLE_LIMIT <= #[trigger] right@[j] <= SAMPLE_LIMIT,
                ({
                    let phase = input_phase_spec(old(self).eq, left@, right@, stereo,
                        input_gain as int, i as int);
                    &&& self.eq == phase.0
                    &&& phase.1.len() == i
                    &&& forall|j: int| 0 <= j < i ==> self.dry_buffer@[j] == phase.1[j]
                    &&& forall|j: int|
                        i <= j < MAX_BUFFER_SIZE ==> self.dry_buffer@[j] == old(
                            self,
                        ).dry_buffer@[j]
                    &&& ring_contents(self.buffer_bridge.input) == ring_after_push_all(
                        ring_contents(old(self).buffer_bridge.input),
                        RING_BUFFER_SIZE as nat,
                        phase.1,
                    )
                }),
                ring_contents(self.buffer_bridge.output_left) == ring_contents(
                    old(self).buffer_bridge.output_left),
                ring_contents(self.buffer_bridge.output_right) == ring_contents(
                    old(self).buffer_bridge.output_right),
                self.buffer_bridge.underrun_count == old(self).buffer_bridge.underrun_count,
                self.delay == old(self).delay,
                self.user_code == old(self).user_code,
                self.param_injector == old(self).param_injector,
                self.sample_rate == old(self).sample_rate,
            decreases n - i,
        {
            let ghost phase_before = input_phase_spec(old(self).eq, left@, right@, stereo,
                input_gain as int, i as int);
            let raw: i64 = if stereo {
                proof {
                    lemma_fx_mul_abs((left@[i as int] + right@[i as int]) as int, 500_000,
                        2 * SAMPLE_LIMIT as int, 500_000);
                }
                fx_mul(left[i] + right[i], 500_000)
            } else {
                left[i]
            };
            proof {
                lemma_fx_mul_abs(raw as int, input_gain as int, SAMPLE_LIMIT as int,
                    GAIN_MAX as int);
            }
            let with_gain = fx_sat(fx_mul(raw, input_gain));
            let eq_in = StereoSample::from_mono(with_gain);
            let eq_out = self.eq.process_with_bypass(eq_in);
            let mono = eq_out.left;
            self.dry_buffer[i] = mono;
            let ghost contents_before = ring_contents(self.buffer_bridge.input);
            self.buffer_bridge.push_input(mono);
            proof {
                lemma_push_all_snoc(ring_contents(old(self).buffer_bridge.input),
                    RING_BUFFER_SIZE as nat, phase_before.1, mono);
                let phase_after = input_phase_spec(old(self).eq, left@, right@, stereo,
                    input_gain as int, i as int + 1);
                assert(phase_after.1 =~= phase_before.1.push(mono));
            }
            i = i + 1;
        }
    }

    /// The output phase: per host sample, pop the engine's stereo output
    /// (silence on underrun), run the delay, blend with the captured dry
    /// signal, and apply the output gain. Exact per `output_phase_spec`.
    #[verifier::rlimit(100)]
    pub fn process_output_phase(&mut self, n: usize, output_gain: i64, dry_wet: i64)
        -> (r: (Vec<i64>, Vec<i64>))
        requires
            router_valid(*old(self)),
            n <= MAX_BUFFER_SIZE,
            0 <= output_gain <= GAIN_MAX,
            0 <= dry_wet <= FX_ONE,
        ensures
            router_valid(*final(self)),
            ({
                let m0 = OutputPhaseModel {
                    delay: delay_model(old(self).delay),
                    left_queue: ring_contents(old(self).buffer_bridge.output_left),
                    right_queue: ring_contents(old(self).buffer_bridge.output_right),
                    out_left: Seq::<i64>::empty(),
                    out_right: Seq::<i64>::empty(),
                    underrun_count: old(self).buffer_bridge.underrun_count,
                    log_counter: old(self).buffer_bridge.samples_since_underrun_log,
                };
                let mf = output_phase_spec(m0, old(self).dry_buffer@, output_gain as int,
                    dry_wet as int, n as int);
                &&& delay_model(final(self).delay) == mf.delay
                &&& ring_contents(final(self).buffer_bridge.output_left) == mf.left_queue
                &&& ring_contents(final(self).buffer_bridge.output_right) == mf.right_queue
                &&& r.0@ == mf.out_left
                &&& r.1@ == mf.out_right
                &&& r.0@.len() == n
                &&& r.1@.len() == n
                &&& final(self).buffer_bridge.underrun_count == mf.underrun_count
                &&& final(self).buffer_bridge.samples_since_underrun_log == mf.log_counter
            }),
            ring_contents(final(self).buffer_bridge.input) == ring_contents(
                old(self).buffer_bridge.input),
            final(self).eq == old(self).eq,
            final(self).dry_buffer == old(self).dry_buffer,
            final(self).user_code == old(self).user_code,
            final(self).param_injector == old(self).param_injector,
            final(self).sample_rate == old(self).sample_rate,
    {
        let ghost m0 = OutputPhaseModel {
            delay: delay_model(old(self).delay),
            left_queue: ring_contents(old(self).buffer_bridge.output_left),
            right_queue: ring_contents(old(self).buffer_bridge.output_right),
            out_left: Seq::<i64>::empty(),
            out_right: Seq::<i64>::empty(),
            underrun_count: old(self).buffer_bridge.underrun_count,
            log_counter: old(self).buffer_bridge.samples_since_underrun_log,
        };
        let mut out_left: Vec<i64> = Vec::new();
        let mut out_right: Vec<i64> = Vec::new();
        let mut i: usize = 0;
        while i < n
            invariant
                eq_valid(self.eq),
                delay_valid(self.delay),
                bridge_valid(self.buffer_bridge),
                self.dry_buffer@.len() == MAX_BUFFER_SIZE,
                crate::dsp::delay::buf_bounded(self.dry_buffer@),
                MIN_SAMPLE_RATE <= self.sample_rate <= MAX_SAMPLE_RATE,
                forall|k: int|
                    0 <= k < 8 ==> -1_000_000_000_000 <= #[trigger] spec_param_value(
                        self.param_injector, k) <= 1_000_000_000_000,
                i <= n,
                n <= MAX_BUFFER_SIZE,
                0 <= output_gain <= GAIN_MAX,
                0 <= dry_wet <= FX_ONE,
                m0 == (OutputPhaseModel {
                    delay: delay_model(old(self).delay),
                    left_queue: ring_contents(old(self).buffer_bridge.output_left),
                    right_queue: ring_contents(old(self).buffer_bridge.output_right),
                    out_left: Seq::<i64>::empty(),
                    out_right: Seq::<i64>::empty(),
                    underrun_count: old(self).buffer_bridge.underrun_count,
                    log_counter: old(self).buffer_bridge.samples_since_underrun_log,
                }),
                ({
                    let mi = output_phase_spec(m0, old(self).dry_buffer@, output_gain as int,
                        dry_wet as int, i as int);
                    &&& delay_model(self.delay) == mi.delay
                    &&& ring_contents(self.buffer_bridge.output_left) == mi.left_queue
                    &&& ring_contents(self.buffer_bridge.output_right) == mi.right_queue
                    &&& out_left@ == mi.out_left
                    &&& out_right@ == mi.out_right
                    &&& out_left@.len() == i
                    &&& out_right@.len() == i
                    &&& self.buffer_bridge.underrun_count == mi.underrun_count
                    &&& self.buffer_bridge.samples_since_underrun_log == mi.log_counter
                }),
                ring_contents(self.buffer_bridge.input) == ring_contents(
                    old(self).buffer_bridge.input),
                self.eq == old(self).eq,
                self.dry_buffer == old(self).dry_buffer,
                self.user_code == old(self).user_code,
                self.param_injector == old(self).param_injector,
                self.sample_rate == old(self).sample_rate,
            decreases n - i,
        {
            let popped = self.buffer_bridge.pop_output();
            let wet = StereoSample::new(fx_sat(popped.0), fx_sat(popped.1));
            let delayed = self.delay.process_with_bypass(wet);
            let dry = self.dry_buffer[i];
            proof {
                lemma_fx_convex_bound(dry as int, delayed.left as int, dry_wet as int,
                    SAMPLE_LIMIT as int);
                lemma_fx_convex_bound(dry as int, delayed.right as int, dry_wet as int,
                    SAMPLE_LIMIT as int);
            }
            let mix_l = fx_mul(dry, FX_ONE - dry_wet) + fx_mul(delayed.left, dry_wet);
            let mix_r = fx_mul(dry, FX_ONE - dry_wet) + fx_mul(delayed.right, dry_wet);
            proof {
                lemma_fx_mul_abs(mix_l as int, output_gain as int, SAMPLE_LIMIT as int,
                    GAIN_MAX as int);
                lemma_fx_mul_abs(mix_r as int, output_gain as int, SAMPLE_LIMIT as int,
                    GAIN_MAX as int);
            }
            out_left.push(fx_sat(fx_mul(mix_l, output_gain)));
            out_right.push(fx_sat(fx_mul(mix_r, output_gain)));
            i = i + 1;
        }
        (out_left, out_right)
    }
}

impl Default for GlicolVerb {
    /// A fresh router at the default sample rate: flat EQ, silent delay,
    /// empty bridge, the pass-through script active, and a fresh control
    /// channel whose sender is handed to the editor.
    fn default() -> (r: GlicolVerb)
        ensures
            router_valid(r),
            r.sample_rate == 44_100,
            r.user_code@ == "out: ~input"@,
            r.code_sender is Some,
    {
        let (sender, receiver) = code_channel();
        GlicolVerb {
            eq: crate::dsp::eq::Eq::new(44_100),
            delay: Delay::new(44_100),
            buffer_bridge: BufferBridge::new(),
            code_receiver: receiver,
            code_sender: Some(sender),
            user_code: default_code(),
            param_injector: ParamInjector::new(),
            sample_rate: 44_100,
            dry_buffer: crate::dsp::delay::zero_buffer(MAX_BUFFER_SIZE),
        }
    }
}

/// The pass-through script a fresh router starts with.
fn default_code() -> (r: String)
    ensures
        r@ == "out: ~input"@,
{
    let r = "out: ~input".to_owned();
    r
}

} // verus!

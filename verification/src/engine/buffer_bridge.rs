//! Bridges variable-size host buffers to the engine's fixed-size blocks.
//!
//! Hosts send unpredictable buffer lengths; the engine consumes fixed
//! blocks of `GLICOL_BLOCK_SIZE` samples. This structure accumulates mono
//! input until full blocks are available and queues the engine's stereo
//! output until the host drains it, never blocking: input overflow drops
//! the sample, output underrun substitutes silence and is counted.

use vstd::prelude::*;
use crate::engine::ring::{ring_capacity, ring_contents, SampleRing};
use crate::engine::GLICOL_BLOCK_SIZE;
use crate::dsp::delay::zero_buffer;

verus! {

/// Capacity of each internal queue: enough for the largest host buffers
/// with margin.
pub const RING_BUFFER_SIZE: usize = 2_048;

/// Threshold of the underrun diagnostic counter: about one second of
/// audio.
pub const UNDERRUN_LOG_INTERVAL: u32 = 44_100;

/// The queue contents after appending each of `xs` in order, dropping
/// those that arrive while the queue is full.
pub open spec fn ring_after_push_all(contents: Seq<i64>, cap: nat, xs: Seq<i64>) -> Seq<i64>
    decreases xs.len(),
{
    if xs.len() == 0 {
        contents
    } else {
        let c1 = if contents.len() < cap {
            contents.push(xs[0])
        } else {
            contents
        };
        ring_after_push_all(c1, cap, xs.subrange(1, xs.len() as int))
    }
}

/// The queue contents after one pop: the oldest sample leaves, an empty
/// queue stays empty.
pub open spec fn ring_after_pop(contents: Seq<i64>) -> Seq<i64> {
    if contents.len() > 0 {
        contents.subrange(1, contents.len() as int)
    } else {
        contents
    }
}

/// A 32-bit counter increment that wraps instead of overflowing.
pub open spec fn wrap_inc32(x: u32) -> u32 {
    (((x as int) + 1) % 0x1_0000_0000) as u32
}

/// Adapter between host-sized buffers and engine-sized blocks.
pub struct BufferBridge {
    pub input: SampleRing,
    pub output_left: SampleRing,
    pub output_right: SampleRing,
    pub input_block: Vec<i64>,
    pub underrun_count: u32,
    pub samples_since_underrun_log: u32,
}

/// The bridge's invariant: all three queues carry the fixed capacity and
/// the scratch block has the engine's block length.
pub open spec fn bridge_valid(b: BufferBridge) -> bool {
    &&& ring_capacity(b.input) == RING_BUFFER_SIZE
    &&& ring_capacity(b.output_left) == RING_BUFFER_SIZE
    &&& ring_capacity(b.output_right) == RING_BUFFER_SIZE
    &&& b.input_block@.len() == GLICOL_BLOCK_SIZE
}

impl BufferBridge {
    /// A fresh bridge with empty queues and a zeroed scratch block.
    pub fn new() -> (r: BufferBridge)
        ensures
            bridge_valid(r),
            ring_contents(r.input) == Seq::<i64>::empty(),
            ring_contents(r.output_left) == Seq::<i64>::empty(),
            ring_contents(r.output_right) == Seq::<i64>::empty(),
            forall|i: int| 0 <= i < GLICOL_BLOCK_SIZE ==> r.input_block@[i] == 0,
            r.underrun_count == 0,
            r.samples_since_underrun_log == 0,
    {
        BufferBridge {
            input: SampleRing::new(RING_BUFFER_SIZE),
            output_left: SampleRing::new(RING_BUFFER_SIZE),
            output_right: SampleRing::new(RING_BUFFER_SIZE),
            input_block: zero_buffer(GLICOL_BLOCK_SIZE),
            underrun_count: 0,
            samples_since_underrun_log: 0,
        }
    }

    /// Enqueue one mono input sample; a full queue drops it silently
    /// rather than block the audio thread.
    pub fn push_input(&mut self, sample: i64)
        requires
            bridge_valid(*old(self)),
        ensures
            bridge_valid(*final(self)),
            ring_contents(old(self).input).len() < RING_BUFFER_SIZE ==> ring_contents(
                final(self).input) == ring_contents(old(self).input).push(sample),
            ring_contents(old(self).input).len() >= RING_BUFFER_SIZE ==> ring_contents(
                final(self).input) == ring_contents(old(self).input),
            ring_contents(final(self).output_left) == ring_contents(old(self).output_left),
            ring_contents(final(self).output_right) == ring_contents(old(self).output_right),
            final(self).input_block == old(self).input_block,
            final(self).underrun_count == old(self).underrun_count,
            final(self).samples_since_underrun_log == old(self).samples_since_underrun_log,
    {
        let _ = self.input.try_push(sample);
    }

    /// Whether a full engine block of input has accumulated.
    pub fn has_block(&self) -> (r: bool)
        ensures
            r == (ring_contents(self.input).len() >= GLICOL_BLOCK_SIZE),
    {
        self.input.occupied_len() >= GLICOL_BLOCK_SIZE
    }

    /// Pop exactly one engine block of input. If the queue runs short the
    /// remainder is zero-filled, a defensive path that a caller honoring
    /// `has_block` never takes.
    pub fn pop_input_block(&mut self) -> (r: Vec<i64>)
        requires
            bridge_valid(*old(self)),
        ensures
            bridge_valid(*final(self)),
            r@.len() == GLICOL_BLOCK_SIZE,
            final(self).input_block@ == r@,
            ({
                let had = ring_contents(old(self).input);
                let taken = if had.len() < GLICOL_BLOCK_SIZE {
                    had.len() as int
                } else {
                    GLICOL_BLOCK_SIZE as int
                };
                &&& ring_contents(final(self).input) == had.subrange(taken, had.len() as int)
                &&& forall|i: int| 0 <= i < taken ==> r@[i] == had[i]
                &&& forall|i: int| taken <= i < GLICOL_BLOCK_SIZE ==> r@[i] == 0
            }),
            ring_contents(final(self).output_left) == ring_contents(old(self).output_left),
            ring_contents(final(self).output_right) == ring_contents(old(self).output_right),
            final(self).underrun_count == old(self).underrun_count,
            final(self).samples_since_underrun_log == old(self).samples_since_underrun_log,
    {
        let ghost had = ring_contents(old(self).input);
        let ghost taken: int = if had.len() < GLICOL_BLOCK_SIZE {
            had.len() as int
        } else {
            GLICOL_BLOCK_SIZE as int
        };
        let mut block: Vec<i64> = Vec::new();
        let mut i: usize = 0;
        while i < GLICOL_BLOCK_SIZE
            invariant
                bridge_valid(*self),
                i <= GLICOL_BLOCK_SIZE,
                block@.len() == i,
                taken == (if had.len() < GLICOL_BLOCK_SIZE {
                    had.len() as int
                } else {
                    GLICOL_BLOCK_SIZE as int
                }),
                ring_contents(self.input) == had.subrange(
                    (if i as int <= taken {
                        i as int
                    } else {
                        taken
                    }),
                    had.len() as int,
                ),
                forall|j: int| 0 <= j < i && j < taken ==> block@[j] == had[j],
                forall|j: int| taken <= j < i ==> block@[j] == 0,
                ring_contents(self.output_left) == ring_contents(old(self).output_left),
                ring_contents(self.output_right) == ring_contents(old(self).output_right),
                self.input_block == old(self).input_block,
                self.underrun_count == old(self).underrun_count,
                self.samples_since_underrun_log == old(self).samples_since_underrun_log,
            decreases GLICOL_BLOCK_SIZE - i,
        {
            let popped = self.input.try_pop();
            let value = match popped {
                Some(v) => v,
                None => 0,
            };
            proof {
                let rem = had.subrange(
                    (if i as int <= taken {
                        i as int
                    } else {
                        taken
                    }),
                    had.len() as int,
                );
                if rem.len() > 0 {
                    assert(rem[0] == had[i as int]);
                    assert(rem.subrange(1, rem.len() as int) =~= had.subrange(
                        (if i + 1 <= taken {
                            (i + 1) as int
                        } else {
                            taken
                        }),
                        had.len() as int,
                    ));
                } else {
                    assert(i as int >= taken);
                }
            }
            block.push(value);
            i = i + 1;
        }
        self.input_block = block;
        let r = copy_block(&self.input_block);
        proof {
            assert(r@ =~= self.input_block@);
        }
        r
    }

    /// Enqueue an engine block's worth of stereo output; samples that
    /// arrive while a queue is full are dropped.
    pub fn push_output(&mut self, left: &Vec<i64>, right: &Vec<i64>)
        requires
            bridge_valid(*old(self)),
        ensures
            bridge_valid(*final(self)),
            ring_contents(final(self).output_left) == ring_after_push_all(
                ring_contents(old(self).output_left),
                RING_BUFFER_SIZE as nat,
                left@,
            ),
            ring_contents(final(self).output_right) == ring_after_push_all(
                ring_contents(old(self).output_right),
                RING_BUFFER_SIZE as nat,
                right@,
            ),
            ring_contents(final(self).input) == ring_contents(old(self).input),
            final(self).input_block == old(self).input_block,
            final(self).underrun_count == old(self).underrun_count,
            final(self).samples_since_underrun_log == old(self).samples_since_underrun_log,
    {
        push_all(&mut self.output_left, left);
        push_all(&mut self.output_right, right);
    }

    /// Enqueue a mono engine block, duplicated to both output channels.
    pub fn push_output_mono(&mut self, samples: &Vec<i64>)
        requires
            bridge_valid(*old(self)),
        ensures
            bridge_valid(*final(self)),
            ring_contents(final(self).output_left) == ring_after_push_all(
                ring_contents(old(self).output_left),
                RING_BUFFER_SIZE as nat,
                samples@,
            ),
            ring_contents(final(self).output_right) == ring_after_push_all(
                ring_contents(old(self).output_right),
                RING_BUFFER_SIZE as nat,
                samples@,
            ),
            ring_contents(final(self).input) == ring_contents(old(self).input),
            final(self).input_block == old(self).input_block,
            final(self).underrun_count == old(self).underrun_count,
            final(self).samples_since_underrun_log == old(self).samples_since_underrun_log,
    {
        push_all(&mut self.output_left, samples);
        push_all(&mut self.output_right, samples);
    }

    /// Pop one stereo sample pair for the host. Both channels are popped
    /// eagerly; if either was empty the result is silence and the
    /// underrun diagnostics advance, rate-limited by a sample counter.
    pub fn pop_output(&mut self) -> (r: (i64, i64))
        requires
            bridge_valid(*old(self)),
        ensures
            bridge_valid(*final(self)),
            ring_contents(final(self).output_left) == ring_after_pop(
                ring_contents(old(self).output_left)),
            ring_contents(final(self).output_right) == ring_after_pop(
                ring_contents(old(self).output_right)),
            ring_contents(final(self).input) == ring_contents(old(self).input),
            final(self).input_block == old(self).input_block,
            ({
                let lc = ring_contents(old(self).output_left);
                let rc = ring_contents(old(self).output_right);
                if lc.len() > 0 && rc.len() > 0 {
                    &&& r == (lc[0], rc[0])
                    &&& final(self).underrun_count == old(self).underrun_count
                    &&& final(self).samples_since_underrun_log == old(
                        self,
                    ).samples_since_underrun_log
                } else {
                    &&& r == (0i64, 0i64)
                    &&& final(self).underrun_count == wrap_inc32(old(self).underrun_count)
                    &&& final(self).samples_since_underrun_log == (if old(
                        self,
                    ).samples_since_underrun_log + 1 >= UNDERRUN_LOG_INTERVAL {
                        0u32
                    } else {
                        (old(self).samples_since_underrun_log + 1) as u32
                    })
                }
            }),
    {
        let left = self.output_left.try_pop();
        let right = self.output_right.try_pop();
        match (left, right) {
            (Some(l), Some(r)) => (l, r),
            _ => {
                self.underrun_count = self.underrun_count.wrapping_add(1);
                if self.samples_since_underrun_log >= UNDERRUN_LOG_INTERVAL - 1 {
                    self.samples_since_underrun_log = 0;
                } else {
                    self.samples_since_underrun_log = self.samples_since_underrun_log + 1;
                }
                (0, 0)
            },
        }
    }

    /// The cumulative number of underrun samples.
    pub fn underrun_count(&self) -> (r: u32)
        ensures
            r == self.underrun_count,
    {
        self.underrun_count
    }

    /// Reset the cumulative underrun counter.
    pub fn reset_underrun_count(&mut self)
        ensures
            *final(self) == (BufferBridge { underrun_count: 0, ..*old(self) }),
    {
        self.underrun_count = 0;
    }

    /// How many stereo output samples can be popped before an underrun.
    pub fn output_available(&self) -> (r: usize)
        ensures
            r == (if ring_contents(self.output_left).len() <= ring_contents(
                self.output_right,
            ).len() {
                ring_contents(self.output_left).len()
            } else {
                ring_contents(self.output_right).len()
            }),
    {
        let l = self.output_left.occupied_len();
        let r = self.output_right.occupied_len();
        if l <= r {
            l
        } else {
            r
        }
    }

    /// Drain all three queues and zero the scratch block. The cumulative
    /// underrun counter is kept: it is a session-wide diagnostic.
    pub fn clear(&mut self)
        requires
            bridge_valid(*old(self)),
        ensures
            bridge_valid(*final(self)),
            ring_contents(final(self).input) == Seq::<i64>::empty(),
            ring_contents(final(self).output_left) == Seq::<i64>::empty(),
            ring_contents(final(self).output_right) == Seq::<i64>::empty(),
            forall|i: int| 0 <= i < GLICOL_BLOCK_SIZE ==> final(self).input_block@[i] == 0,
            final(self).underrun_count == old(self).underrun_count,
            final(self).samples_since_underrun_log == 0,
    {
        drain(&mut self.input);
        drain(&mut self.output_left);
        drain(&mut self.output_right);
        self.input_block = zero_buffer(GLICOL_BLOCK_SIZE);
        self.samples_since_underrun_log = 0;
    }
}

impl Default for BufferBridge {
    /// Same as `new`.
    fn default() -> (r: BufferBridge)
        ensures
            bridge_valid(r),
            ring_contents(r.input) == Seq::<i64>::empty(),
            ring_contents(r.output_left) == Seq::<i64>::empty(),
            ring_contents(r.output_right) == Seq::<i64>::empty(),
            r.underrun_count == 0,
    {
        BufferBridge::new()
    }
}

/// Append every sample of `xs` to the ring in order, dropping what
/// arrives while it is full.
fn push_all(ring: &mut SampleRing, xs: &Vec<i64>)
    ensures
        ring_capacity(*final(ring)) == ring_capacity(*old(ring)),
        ring_contents(*final(ring)) == ring_after_push_all(ring_contents(*old(ring)),
            ring_capacity(*old(ring)), xs@),
{
    proof {
        assert(xs@.subrange(0, xs@.len() as int) =~= xs@);
    }
    let mut i: usize = 0;
    while i < xs.len()
        invariant
            i <= xs@.len(),
            ring_capacity(*ring) == ring_capacity(*old(ring)),
            ring_after_push_all(ring_contents(*old(ring)), ring_capacity(*old(ring)), xs@)
                == ring_after_push_all(ring_contents(*ring), ring_capacity(*ring),
                xs@.subrange(i as int, xs@.len() as int)),
        decreases xs@.len() - i,
    {
        proof {
            let rest = xs@.subrange(i as int, xs@.len() as int);
            assert(rest[0] == xs@[i as int]);
            assert(rest.subrange(1, rest.len() as int) =~= xs@.subrange(i as int + 1,
                xs@.len() as int));
        }
        let _ = ring.try_push(xs[i]);
        i = i + 1;
    }
    proof {
        assert(xs@.subrange(xs@.len() as int, xs@.len() as int) =~= Seq::<i64>::empty());
    }
}

/// Pop until empty.
fn drain(ring: &mut SampleRing)
    ensures
        ring_capacity(*final(ring)) == ring_capacity(*old(ring)),
        ring_contents(*final(ring)) == Seq::<i64>::empty(),
{
    let n = ring.occupied_len();
    let mut i: usize = 0;
    while i < n
        invariant
            i <= n,
            ring_capacity(*ring) == ring_capacity(*old(ring)),
            ring_contents(*ring).len() == n - i,
        decreases n - i,
    {
        let _ = ring.try_pop();
        i = i + 1;
    }
    proof {
        assert(ring_contents(*ring) =~= Seq::<i64>::empty());
    }
}

/// A fresh copy of a block.
fn copy_block(xs: &Vec<i64>) -> (r: Vec<i64>)
    ensures
        r@ == xs@,
{
    let mut r: Vec<i64> = Vec::new();
    let mut i: usize = 0;
    while i < xs.len()
        invariant
            i <= xs@.len(),
            r@ == xs@.subrange(0, i as int),
        decreases xs@.len() - i,
    {
        proof {
            assert(xs@.subrange(0, i as int).push(xs@[i as int]) =~= xs@.subrange(0,
                i as int + 1));
        }
        r.push(xs[i]);
        i = i + 1;
    }
    proof {
        assert(xs@.subrange(0, xs@.len() as int) =~= xs@);
    }
    r
}

/// Appending one more sample to a batch push appends it to the result,
/// or drops it if the queue has filled.
pub proof fn lemma_push_all_snoc(contents: Seq<i64>, cap: nat, xs: Seq<i64>, x: i64)
    ensures
        ring_after_push_all(contents, cap, xs.push(x)) == ({
            let c1 = ring_after_push_all(contents, cap, xs);
            if c1.len() < cap {
                c1.push(x)
            } else {
                c1
            }
        }),
    decreases xs.len(),
{
    let pushed = xs.push(x);
    if xs.len() == 0 {
        assert(pushed[0] == x);
        assert(pushed.subrange(1, pushed.len() as int) =~= Seq::<i64>::empty());
        assert(ring_after_push_all(contents, cap, xs) == contents);
        let c1 = if contents.len() < cap {
            contents.push(x)
        } else {
            contents
        };
        assert(ring_after_push_all(contents, cap, pushed) == ring_after_push_all(c1, cap,
            pushed.subrange(1, pushed.len() as int)));
        assert(ring_after_push_all(c1, cap, Seq::<i64>::empty()) == c1);
    } else {
        assert(pushed[0] == xs[0]);
        assert(pushed.subrange(1, pushed.len() as int) =~= xs.subrange(1,
            xs.len() as int).push(x));
        let c1 = if contents.len() < cap {
            contents.push(xs[0])
        } else {
            contents
        };
        lemma_push_all_snoc(c1, cap, xs.subrange(1, xs.len() as int), x);
        assert(ring_after_push_all(contents, cap, pushed) == ring_after_push_all(c1, cap,
            pushed.subrange(1, pushed.len() as int)));
        assert(ring_after_push_all(contents, cap, xs) == ring_after_push_all(c1, cap,
            xs.subrange(1, xs.len() as int)));
    }
}

/// While the queue has room, a batch push appends everything in order.
pub proof fn lemma_push_all_fits(contents: Seq<i64>, cap: nat, xs: Seq<i64>)
    requires
        contents.len() + xs.len() <= cap,
    ensures
        ring_after_push_all(contents, cap, xs) == contents + xs,
    decreases xs.len(),
{
    if xs.len() == 0 {
        assert(contents + xs =~= contents);
    } else {
        lemma_push_all_fits(contents.push(xs[0]), cap, xs.subrange(1, xs.len() as int));
        assert(contents.push(xs[0]) + xs.subrange(1, xs.len() as int) =~= contents + xs);
    }
}

/// Feeding `k` whole blocks plus `r` spare samples into an empty bridge
/// queues exactly those samples: a block is then available exactly when
/// `k` is positive, and taking one block leaves `k - 1` whole blocks and
/// the same spare buffered.
pub proof fn lemma_bridge_collects_blocks(xs: Seq<i64>, k: nat, r: nat)
    requires
        xs.len() == k * GLICOL_BLOCK_SIZE + r,
        r < GLICOL_BLOCK_SIZE,
        xs.len() <= RING_BUFFER_SIZE,
    ensures
        ({
            let q = ring_after_push_all(Seq::<i64>::empty(), RING_BUFFER_SIZE as nat, xs);
            &&& q == xs
            &&& (q.len() >= GLICOL_BLOCK_SIZE) == (k >= 1)
            &&& k >= 1 ==> q.subrange(GLICOL_BLOCK_SIZE as int, q.len() as int).len() == (k - 1)
                * GLICOL_BLOCK_SIZE + r
        }),
{
    lemma_push_all_fits(Seq::<i64>::empty(), RING_BUFFER_SIZE as nat, xs);
    assert(Seq::<i64>::empty() + xs =~= xs);
    lemma_block_accounting(xs.len(), k, r);
}

/// Block accounting: a queue holding `k` full blocks and `r` spare
/// samples has a block available exactly when `k` is positive, and taking
/// one block leaves `k - 1` full blocks and the same spare.
pub proof fn lemma_block_accounting(len: nat, k: nat, r: nat)
    requires
        len == k * GLICOL_BLOCK_SIZE + r,
        r < GLICOL_BLOCK_SIZE,
    ensures
        (len >= GLICOL_BLOCK_SIZE) == (k >= 1),
        k >= 1 ==> len - GLICOL_BLOCK_SIZE == (k - 1) * GLICOL_BLOCK_SIZE + r,
{
    assert((len >= 128) == (k >= 1) && (k >= 1 ==> len - 128 == (k - 1) * 128 + r))
        by (nonlinear_arith)
        requires
            len == k * 128 + r,
            r < 128,
    ;
}

} // verus!

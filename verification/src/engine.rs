//! The stereo delay engine.
//!
//! Two independent delay lines, one per channel, share a single delay-time
//! parameter. Once per block the engine re-derives the delay in samples from
//! the parameter and, only if it changed, applies it to both lines together,
//! so the channels can never drift apart; then every frame of the block runs
//! through both lines. The engine returns the delayed sample streams; the
//! host mixes each channel as dry input plus delayed signal, an addition on
//! the concrete sample type that stays with the host adapter.

use vstd::prelude::*;

verus! {

use crate::controller::DelayController;
use crate::controller::DelayStrategy;
use crate::controller::apply_delay_spec;
use crate::mapping::MAX_SAMPLE_RATE;
use crate::mapping::MIN_SAMPLE_RATE;
use crate::mapping::PARAM_SCALE;
use crate::mapping::lemma_samples_for_fits;
use crate::mapping::samples_for;
use crate::mapping::samples_for_spec;
use crate::model::LineModel;
use crate::model::lemma_run_outputs;
use crate::model::lemma_run_push;
use crate::model::run_outputs;
use crate::model::run_state;
use crate::parameter::Parameter;

/// What a block-boundary update does to one line's model: nothing when the
/// freshly derived delay already equals the applied one, otherwise the
/// strategy's way of taking on the new delay.
pub open spec fn block_line_spec<T>(
    m: LineModel<T>,
    applied: int,
    derived: int,
    strategy: DelayStrategy,
) -> LineModel<T> {
    if derived == applied {
        m
    } else {
        apply_delay_spec(m, derived, strategy)
    }
}

/// The stereo engine: two delay controllers of the same strategy, the delay
/// currently applied to both, the sample rate, and the shared parameter.
pub struct StereoDelay<T> {
    pub parameter: Parameter,
    pub delay_x: DelayController<T>,
    pub delay_y: DelayController<T>,
    pub sample_delay: usize,
    pub sample_rate: u32,
    pub fill: T,
}

impl<T: Copy> StereoDelay<T> {
    /// Both controllers are valid, share one strategy, one fill value and —
    /// the stereo coupling — one delay length, namely the applied one; the
    /// parameter and the sample rate are in range; offset-strategy rings are
    /// oversized to two seconds so any delay the curve yields fits.
    pub open spec fn inv(&self) -> bool {
        &&& self.delay_x.wf()
        &&& self.delay_y.wf()
        &&& self.delay_x.strategy() == self.delay_y.strategy()
        &&& self.delay_x@.delay == self.sample_delay as int
        &&& self.delay_y@.delay == self.sample_delay as int
        &&& 1 <= self.sample_delay
        &&& self.delay_x@.fill == self.fill
        &&& self.delay_y@.fill == self.fill
        &&& self.parameter.value <= PARAM_SCALE
        &&& MIN_SAMPLE_RATE <= self.sample_rate
        &&& self.sample_rate <= MAX_SAMPLE_RATE
        &&& (self.delay_x.strategy() == DelayStrategy::Offset ==> self.delay_x@.capacity() == 2
            * self.sample_rate as int && self.delay_y@.capacity() == 2 * self.sample_rate as int)
    }

    /// The delay in samples that the current parameter and sample rate ask
    /// for; re-derived once per block.
    pub open spec fn block_samples(&self) -> int {
        samples_for_spec(self.parameter.value as int, self.sample_rate as int)
    }

    /// The left line's model right after the block-boundary update.
    pub open spec fn block_start_x(&self) -> LineModel<T> {
        block_line_spec(
            self.delay_x@,
            self.sample_delay as int,
            self.block_samples(),
            self.delay_x.strategy(),
        )
    }

    /// The right line's model right after the block-boundary update.
    pub open spec fn block_start_y(&self) -> LineModel<T> {
        block_line_spec(
            self.delay_y@,
            self.sample_delay as int,
            self.block_samples(),
            self.delay_y.strategy(),
        )
    }

    /// An engine for the given sample rate, delaying both channels by the
    /// parameter's default (zero: the 100 ms end of the curve), with silent
    /// rings of the chosen strategy.
    pub fn new(sample_rate: u32, strategy: DelayStrategy, fill: T) -> (r: StereoDelay<T>)
        requires
            MIN_SAMPLE_RATE <= sample_rate <= MAX_SAMPLE_RATE,
        ensures
            r.inv(),
            r.sample_rate == sample_rate,
            r.fill == fill,
            r.parameter.value == 0,
            r.delay_x.strategy() == strategy,
            r.delay_y.strategy() == strategy,
            r.sample_delay as int == samples_for_spec(0, sample_rate as int),
            r.delay_x@.is_silent(),
            r.delay_y@.is_silent(),
            r.delay_x@.position == 0,
            r.delay_y@.position == 0,
    {
        let samples = samples_for(0, sample_rate);
        proof {
            lemma_samples_for_fits(0, sample_rate as int);
        }
        let (delay_x, delay_y) = match strategy {
            DelayStrategy::Reallocating => (
                DelayController::new_reallocating(samples, fill),
                DelayController::new_reallocating(samples, fill),
            ),
            DelayStrategy::Offset => {
                let capacity = (sample_rate as usize) * 2;
                (
                    DelayController::new_offset(capacity, samples, fill),
                    DelayController::new_offset(capacity, samples, fill),
                )
            },
        };
        let parameter = Parameter {
            name: "Delay Time".to_owned(),
            label: "ms".to_owned(),
            value: 0,
            automatable: true,
        };
        StereoDelay { parameter, delay_x, delay_y, sample_delay: samples, sample_rate, fill }
    }

    /// Stores a new normalised parameter value, in thousandths, clamped into
    /// range rather than rejected; it takes effect at the next block
    /// boundary.
    pub fn set_parameter(&mut self, value: u32)
        requires
            old(self).inv(),
        ensures
            final(self).inv(),
            final(self).parameter.value == (if value <= PARAM_SCALE {
                value
            } else {
                PARAM_SCALE
            }),
            final(self).parameter.name == old(self).parameter.name,
            final(self).parameter.label == old(self).parameter.label,
            final(self).parameter.automatable == old(self).parameter.automatable,
            final(self).delay_x == old(self).delay_x,
            final(self).delay_y == old(self).delay_y,
            final(self).sample_delay == old(self).sample_delay,
            final(self).sample_rate == old(self).sample_rate,
            final(self).fill == old(self).fill,
    {
        self.parameter.value = if value <= PARAM_SCALE {
            value
        } else {
            PARAM_SCALE
        };
    }

    /// The current parameter value, in thousandths.
    pub fn get_parameter(&self) -> (r: u32)
        ensures
            r == self.parameter.value,
    {
        self.parameter.value
    }

    /// Rebuilds both lines for a new sample rate — silent, sized for the
    /// rate, under the same strategy — and reapplies the current parameter
    /// to the rebuilt lines.
    pub fn set_sample_rate(&mut self, sample_rate: u32)
        requires
            old(self).inv(),
            MIN_SAMPLE_RATE <= sample_rate <= MAX_SAMPLE_RATE,
        ensures
            final(self).inv(),
            final(self).sample_rate == sample_rate,
            final(self).parameter == old(self).parameter,
            final(self).fill == old(self).fill,
            final(self).delay_x.strategy() == old(self).delay_x.strategy(),
            final(self).delay_y.strategy() == old(self).delay_y.strategy(),
            final(self).sample_delay as int == samples_for_spec(
                old(self).parameter.value as int,
                sample_rate as int,
            ),
            final(self).delay_x@.is_silent(),
            final(self).delay_y@.is_silent(),
            final(self).delay_x@.position == 0,
            final(self).delay_y@.position == 0,
    {
        let samples = samples_for(self.parameter.value, sample_rate);
        proof {
            lemma_samples_for_fits(self.parameter.value as int, sample_rate as int);
        }
        let fill = self.fill;
        let (delay_x, delay_y) = match &self.delay_x {
            DelayController::Reallocating(_) => (
                DelayController::new_reallocating(samples, fill),
                DelayController::new_reallocating(samples, fill),
            ),
            DelayController::Offset(_) => {
                let capacity = (sample_rate as usize) * 2;
                (
                    DelayController::new_offset(capacity, samples, fill),
                    DelayController::new_offset(capacity, samples, fill),
                )
            },
        };
        self.delay_x = delay_x;
        self.delay_y = delay_y;
        self.sample_delay = samples;
        self.sample_rate = sample_rate;
    }

    /// The block-boundary update: re-derives the delay in samples from the
    /// parameter and, only if it differs from the applied one, applies it to
    /// both lines together. Afterwards both lines realise the derived delay
    /// — the channels never drift apart.
    pub fn refresh_delay(&mut self)
        requires
            old(self).inv(),
        ensures
            final(self).inv(),
            final(self).sample_delay as int == old(self).block_samples(),
            final(self).delay_x@ == old(self).block_start_x(),
            final(self).delay_y@ == old(self).block_start_y(),
            final(self).delay_x@.delay == final(self).sample_delay as int,
            final(self).delay_y@.delay == final(self).sample_delay as int,
            final(self).parameter == old(self).parameter,
            final(self).sample_rate == old(self).sample_rate,
            final(self).fill == old(self).fill,
            final(self).delay_x.strategy() == old(self).delay_x.strategy(),
            final(self).delay_y.strategy() == old(self).delay_y.strategy(),
    {
        let samples = samples_for(self.parameter.value, self.sample_rate);
        proof {
            lemma_samples_for_fits(self.parameter.value as int, self.sample_rate as int);
        }
        if samples != self.sample_delay {
            self.delay_x.set_delay_length(samples);
            self.delay_y.set_delay_length(samples);
            self.sample_delay = samples;
        }
    }

    /// The delay, in samples, each channel's line currently realises; the
    /// two are always equal.
    pub fn delay_lengths(&self) -> (r: (usize, usize))
        requires
            self.inv(),
        ensures
            r.0 as int == self.delay_x@.delay,
            r.1 as int == self.delay_y@.delay,
            r.0 == r.1,
    {
        (self.delay_x.delay_length(), self.delay_y.delay_length())
    }

    /// One block: after the block-boundary update, each frame of each
    /// channel runs through that channel's line, and the delayed streams
    /// come back. Call `j` of the block returns what the line held `delay`
    /// calls ahead of its cursor — input `j - delay` of this block once the
    /// delay has filled.
    pub fn process(&mut self, input_x: &Vec<T>, input_y: &Vec<T>) -> (out: (Vec<T>, Vec<T>))
        requires
            old(self).inv(),
            input_x@.len() == input_y@.len(),
        ensures
            final(self).inv(),
            final(self).sample_delay as int == old(self).block_samples(),
            out.0@ == run_outputs(old(self).block_start_x(), input_x@),
            out.1@ == run_outputs(old(self).block_start_y(), input_y@),
            final(self).delay_x@ == run_state(old(self).block_start_x(), input_x@),
            final(self).delay_y@ == run_state(old(self).block_start_y(), input_y@),
            out.0@.len() == input_x@.len(),
            out.1@.len() == input_y@.len(),
            forall|j: int|
                0 <= j < input_x@.len() ==> #[trigger] out.0@[j] == (if j
                    < old(self).block_samples() {
                    old(self).block_start_x().storage[(old(self).block_start_x().position + j)
                        % old(self).block_start_x().capacity()]
                } else {
                    input_x@[j - old(self).block_samples()]
                }),
            forall|j: int|
                0 <= j < input_y@.len() ==> #[trigger] out.1@[j] == (if j
                    < old(self).block_samples() {
                    old(self).block_start_y().storage[(old(self).block_start_y().position + j)
                        % old(self).block_start_y().capacity()]
                } else {
                    input_y@[j - old(self).block_samples()]
                }),
            final(self).parameter == old(self).parameter,
            final(self).sample_rate == old(self).sample_rate,
            final(self).fill == old(self).fill,
            final(self).delay_x.strategy() == old(self).delay_x.strategy(),
            final(self).delay_y.strategy() == old(self).delay_y.strategy(),
    {
        self.refresh_delay();
        let ghost mx = self.delay_x@;
        let ghost my = self.delay_y@;
        let ghost param0 = self.parameter;
        let ghost rate0 = self.sample_rate;
        let ghost fill0 = self.fill;
        let ghost sd0 = self.sample_delay;
        let ghost strat0 = self.delay_x.strategy();
        let n = input_x.len();
        let mut out_x: Vec<T> = Vec::new();
        let mut out_y: Vec<T> = Vec::new();
        let mut i: usize = 0;
        while i < n
            invariant
                i <= n,
                n == input_x@.len(),
                n == input_y@.len(),
                self.inv(),
                self.parameter == param0,
                self.sample_rate == rate0,
                self.fill == fill0,
                self.sample_delay == sd0,
                self.delay_x.strategy() == strat0,
                self.delay_y.strategy() == strat0,
                self.delay_x@ == run_state(mx, input_x@.take(i as int)),
                self.delay_y@ == run_state(my, input_y@.take(i as int)),
                out_x@ == run_outputs(mx, input_x@.take(i as int)),
                out_y@ == run_outputs(my, input_y@.take(i as int)),
            decreases n - i,
        {
            let vx = input_x[i];
            let vy = input_y[i];
            proof {
                lemma_run_push(mx, input_x@.take(i as int), input_x@[i as int]);
                lemma_run_push(my, input_y@.take(i as int), input_y@[i as int]);
                assert(input_x@.take(i as int).push(input_x@[i as int]) =~= input_x@.take(
                    i as int + 1,
                ));
                assert(input_y@.take(i as int).push(input_y@[i as int]) =~= input_y@.take(
                    i as int + 1,
                ));
            }
            let dx = self.delay_x.read_write(vx);
            let dy = self.delay_y.read_write(vy);
            out_x.push(dx);
            out_y.push(dy);
            i = i + 1;
        }
        proof {
            assert(input_x@.take(n as int) =~= input_x@);
            assert(input_y@.take(n as int) =~= input_y@);
            lemma_run_outputs(mx, input_x@);
            lemma_run_outputs(my, input_y@);
        }
        (out_x, out_y)
    }
}

} // verus!

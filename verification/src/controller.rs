//! The delay controller: one capability, two strategies.
//!
//! Changing the delay length at runtime is a genuine trade-off. The
//! reallocating strategy ties the delay to the buffer capacity and rebuilds
//! the storage on every change — sample-accurate, but with an O(capacity)
//! control-rate cost. The offset strategy keeps an oversized buffer and only
//! moves the write offset — constant time and real-time safe, but a shrink
//! may let the next few reads return freshly cleared (silent) slots. Both
//! are variants of one controller chosen at construction.

use vstd::prelude::*;

verus! {

use crate::delay_line::DelayLine;
use crate::model::LineModel;
use crate::model::resize_spec;
use crate::ring::CircularBuffer;

/// How a controller changes its delay length while audio keeps flowing.
#[derive(Clone, Copy, PartialEq, Eq, Structural)]
pub enum DelayStrategy {
    /// The delay is the buffer capacity; changing it rebuilds the storage.
    Reallocating,
    /// The capacity is fixed and oversized; changing the delay moves the
    /// write offset.
    Offset,
}

/// What applying a new delay length does to a controller's model: a
/// reallocating controller is rebuilt to the new length (a ring needs at
/// least one slot, so zero is clamped to one), an offset controller just
/// moves its offset, clamped to at most one full turn of its ring.
pub open spec fn apply_delay_spec<T>(m: LineModel<T>, delay: int, strategy: DelayStrategy) -> LineModel<
    T,
> {
    if strategy == DelayStrategy::Reallocating {
        resize_spec(
            m,
            if 1 <= delay {
                delay
            } else {
                1
            },
            m.fill,
        )
    } else {
        LineModel {
            storage: m.storage,
            position: m.position,
            delay: if delay <= m.capacity() {
                delay
            } else {
                m.capacity()
            },
            fill: m.fill,
        }
    }
}

/// One channel's delay controller, wrapping the storage of whichever
/// strategy it was built with.
pub enum DelayController<T> {
    Reallocating(CircularBuffer<T>),
    Offset(DelayLine<T>),
}

impl<T: Copy> View for DelayController<T> {
    type V = LineModel<T>;

    closed spec fn view(&self) -> LineModel<T> {
        match self {
            DelayController::Reallocating(buffer) => buffer@,
            DelayController::Offset(line) => line@,
        }
    }
}

impl<T: Copy> DelayController<T> {
    /// The strategy this controller was built with.
    pub open spec fn strategy(&self) -> DelayStrategy {
        match self {
            DelayController::Reallocating(_) => DelayStrategy::Reallocating,
            DelayController::Offset(_) => DelayStrategy::Offset,
        }
    }

    /// A valid controller is a valid ring; under the reallocating strategy
    /// the delay is moreover always one full turn of the ring.
    pub open spec fn wf(&self) -> bool {
        &&& self@.wf()
        &&& (self.strategy() == DelayStrategy::Reallocating ==> self@.delay == self@.capacity())
    }

    /// A reallocating controller delaying by `delay` samples: a ring of
    /// exactly that many slots, all holding `fill`.
    pub fn new_reallocating(delay: usize, fill: T) -> (r: DelayController<T>)
        requires
            1 <= delay,
        ensures
            r.wf(),
            r.strategy() == DelayStrategy::Reallocating,
            r@.storage == Seq::new(delay as nat, |i: int| fill),
            r@.position == 0,
            r@.delay == delay as int,
            r@.fill == fill,
    {
        DelayController::Reallocating(CircularBuffer::new(delay, fill))
    }

    /// An offset controller: a ring of `capacity` slots holding `fill`, with
    /// the write offset at `delay` (clamped to the capacity).
    pub fn new_offset(capacity: usize, delay: usize, fill: T) -> (r: DelayController<T>)
        requires
            1 <= capacity,
        ensures
            r.wf(),
            r.strategy() == DelayStrategy::Offset,
            r@.storage == Seq::new(capacity as nat, |i: int| fill),
            r@.position == 0,
            r@.delay == (if delay as int <= capacity as int {
                delay as int
            } else {
                capacity as int
            }),
            r@.fill == fill,
    {
        DelayController::Offset(DelayLine::new(capacity, delay, fill))
    }

    /// One sample through the controller: write the new sample, return the
    /// delayed one.
    pub fn read_write(&mut self, value: T) -> (out: T)
        requires
            old(self).wf(),
        ensures
            final(self).wf(),
            final(self).strategy() == old(self).strategy(),
            final(self)@ == old(self)@.step(value),
            out == old(self)@.step_out(),
    {
        match self {
            DelayController::Reallocating(buffer) => buffer.push_pop(value),
            DelayController::Offset(line) => line.add_and_read(value),
        }
    }

    /// Applies a new delay length by whichever strategy is in effect.
    pub fn set_delay_length(&mut self, delay: usize)
        requires
            old(self).wf(),
        ensures
            final(self).wf(),
            final(self).strategy() == old(self).strategy(),
            final(self)@ == apply_delay_spec(old(self)@, delay as int, old(self).strategy()),
    {
        match self {
            DelayController::Reallocating(buffer) => {
                let fill = buffer.fill_value();
                let clamped = if delay >= 1 {
                    delay
                } else {
                    1
                };
                buffer.resize(clamped, fill);
            },
            DelayController::Offset(line) => {
                line.set_sample_delay(delay);
            },
        }
    }

    /// The delay, in samples, currently realised by this controller.
    pub fn delay_length(&self) -> (r: usize)
        requires
            self.wf(),
        ensures
            r as int == self@.delay,
    {
        match self {
            DelayController::Reallocating(buffer) => buffer.capacity(),
            DelayController::Offset(line) => line.delay_length(),
        }
    }
}

} // verus!

//! The offset-strategy delay line.
//!
//! Capacity is fixed (typically oversized) and the delay is a second cursor
//! offset from the read cursor: each call reads at the cursor, writes
//! `sample_delay` slots ahead, and advances. Changing the delay just moves
//! the offset — no rebuild, constant time — at the cost of the next few
//! reads returning freshly cleared slots after a shrink.

use vstd::prelude::*;

verus! {

use crate::model::LineModel;
use crate::model::lemma_mod_in_window;

/// A fixed-capacity ring whose write position runs `sample_delay` slots
/// ahead of the read position.
pub struct DelayLine<T> {
    line: Vec<T>,
    position: usize,
    sample_delay: usize,
    fill: T,
}

impl<T: Copy> View for DelayLine<T> {
    type V = LineModel<T>;

    closed spec fn view(&self) -> LineModel<T> {
        LineModel {
            storage: self.line@,
            position: self.position as int,
            delay: self.sample_delay as int,
            fill: self.fill,
        }
    }
}

impl<T: Copy> DelayLine<T> {
    /// The line's storage, cursor and delay form a valid ring.
    pub open spec fn wf(&self) -> bool {
        self@.wf()
    }

    /// A line of `size` slots, all holding `fill`, with the cursor at the
    /// start. A requested delay longer than the ring is clamped to one full
    /// turn; a ring needs at least one slot to have a read position at all.
    pub fn new(size: usize, sample_delay: usize, fill: T) -> (r: DelayLine<T>)
        requires
            1 <= size,
        ensures
            r.wf(),
            r@.storage == Seq::new(size as nat, |i: int| fill),
            r@.position == 0,
            r@.delay == (if sample_delay as int <= size as int {
                sample_delay as int
            } else {
                size as int
            }),
            r@.fill == fill,
    {
        let mut v_line: Vec<T> = Vec::new();
        let mut i: usize = 0;
        while i < size
            invariant
                i <= size,
                v_line@.len() == i as int,
                forall|k: int| 0 <= k < i as int ==> v_line@[k] == fill,
            decreases size - i,
        {
            v_line.push(fill);
            i = i + 1;
        }
        proof {
            assert(v_line@ =~= Seq::new(size as nat, |k: int| fill));
        }
        let delay = if sample_delay <= size {
            sample_delay
        } else {
            size
        };
        DelayLine { line: v_line, position: 0, sample_delay: delay, fill }
    }

    /// One sample through the line: returns the sample at the read position,
    /// resets that slot to the fill value so stale data cannot be re-read
    /// after a delay shrink, writes `value` at the write position, and
    /// advances the cursor by one modulo the capacity.
    pub fn add_and_read(&mut self, value: T) -> (out: T)
        requires
            old(self).wf(),
        ensures
            final(self).wf(),
            final(self)@ == old(self)@.step(value),
            out == old(self)@.step_out(),
    {
        let size = self.line.len();
        let read_pos = self.position;
        let rem = size - read_pos;
        let write_pos = if self.sample_delay >= rem {
            self.sample_delay - rem
        } else {
            read_pos + self.sample_delay
        };
        proof {
            lemma_mod_in_window(old(self).position + old(self).sample_delay, size as int);
            lemma_mod_in_window(old(self).position + 1, size as int);
        }
        let out = self.line[read_pos];
        let fill = self.fill;
        self.line.set(read_pos, fill);
        self.line.set(write_pos, value);
        self.position = if read_pos + 1 == size {
            0
        } else {
            read_pos + 1
        };
        out
    }

    /// Moves the write offset in place; takes effect on the next call. A
    /// delay longer than the ring is clamped to one full turn.
    pub fn set_sample_delay(&mut self, sample_delay: usize)
        requires
            old(self).wf(),
        ensures
            final(self).wf(),
            final(self)@.storage == old(self)@.storage,
            final(self)@.position == old(self)@.position,
            final(self)@.fill == old(self)@.fill,
            final(self)@.delay == (if sample_delay as int <= old(self)@.capacity() {
                sample_delay as int
            } else {
                old(self)@.capacity()
            }),
    {
        let cap = self.line.len();
        self.sample_delay = if sample_delay <= cap {
            sample_delay
        } else {
            cap
        };
    }

    /// Number of slots in the ring.
    pub fn capacity(&self) -> (r: usize)
        ensures
            r as int == self@.capacity(),
    {
        self.line.len()
    }

    /// The delay currently separating write position from read position.
    pub fn delay_length(&self) -> (r: usize)
        ensures
            r as int == self@.delay,
    {
        self.sample_delay
    }
}

impl<T: Copy + Default> Default for DelayLine<T> {
    /// A minimal line: a single slot holding the sample type's default
    /// value, with one sample of delay.
    fn default() -> (r: DelayLine<T>)
        ensures
            r.wf(),
            r@.position == 0,
            r@.delay == 1,
            r@.storage == seq![r@.fill],
    {
        let fill = T::default();
        let r = DelayLine::new(1, 1, fill);
        proof {
            assert(r@.storage =~= seq![r@.fill]);
        }
        r
    }
}

} // verus!

//! The circular sample buffer, which is also the reallocating delay
//! strategy.
//!
//! A single cursor both reads and writes: each call returns the sample that
//! falls out of the window, overwrites its slot with the new sample, and
//! advances. The buffer therefore delays by exactly one full turn of the
//! ring — its capacity is the delay length — and changing the delay means
//! rebuilding the storage while keeping the live samples in order.

use vstd::prelude::*;

verus! {

use crate::model::LineModel;
use crate::model::lemma_mod_advance;
use crate::model::lemma_mod_in_window;
use crate::model::lemma_window_index;
use crate::model::resize_spec;

/// Fixed-length ring storage with one read/write cursor. Its model is a
/// delay line whose delay always equals its capacity.
pub struct CircularBuffer<T> {
    storage: Vec<T>,
    cursor: usize,
    fill: T,
}

impl<T: Copy> View for CircularBuffer<T> {
    type V = LineModel<T>;

    closed spec fn view(&self) -> LineModel<T> {
        LineModel {
            storage: self.storage@,
            position: self.cursor as int,
            delay: self.storage@.len() as int,
            fill: self.fill,
        }
    }
}

impl<T: Copy> CircularBuffer<T> {
    /// The storage and cursor form a valid ring.
    pub open spec fn wf(&self) -> bool {
        self@.wf()
    }

    /// A buffer of `capacity` slots, all holding `fill`, with the cursor at
    /// the start. A ring needs at least one slot to have a read position.
    pub fn new(capacity: usize, fill: T) -> (r: CircularBuffer<T>)
        requires
            1 <= capacity,
        ensures
            r.wf(),
            r@.storage == Seq::new(capacity as nat, |i: int| fill),
            r@.position == 0,
            r@.delay == capacity as int,
            r@.fill == fill,
    {
        let mut storage: Vec<T> = Vec::new();
        let mut i: usize = 0;
        while i < capacity
            invariant
                i <= capacity,
                storage@.len() == i as int,
                forall|k: int| 0 <= k < i as int ==> storage@[k] == fill,
            decreases capacity - i,
        {
            storage.push(fill);
            i = i + 1;
        }
        proof {
            assert(storage@ =~= Seq::new(capacity as nat, |k: int| fill));
        }
        CircularBuffer { storage, cursor: 0, fill }
    }

    /// Writes `value` at the cursor, advances, and returns the sample that
    /// the write pushed out of the window: the one stored `capacity` calls
    /// ago (or the fill value while the ring is still young).
    pub fn push_pop(&mut self, value: T) -> (out: T)
        requires
            old(self).wf(),
        ensures
            final(self).wf(),
            final(self)@ == old(self)@.step(value),
            out == old(self)@.step_out(),
    {
        let len = self.storage.len();
        let out = self.storage[self.cursor];
        self.storage.set(self.cursor, value);
        self.cursor = if self.cursor + 1 == len {
            0
        } else {
            self.cursor + 1
        };
        proof {
            let m = old(self)@;
            lemma_mod_in_window(m.position + m.delay, m.capacity());
            lemma_mod_in_window(m.position + 1, m.capacity());
            assert(m.storage.update(m.position, m.fill).update(m.position, value)
                =~= m.storage.update(m.position, value));
        }
        out
    }

    /// Rebuilds the ring with `new_capacity` slots. The live samples are
    /// kept in oldest-to-newest order; when the ring shrinks, the oldest
    /// samples are dropped first, and when it grows, the new trailing slots
    /// are filled with `fill` so they add nothing but silence. The cursor
    /// returns to the start of the new ring.
    pub fn resize(&mut self, new_capacity: usize, fill: T)
        requires
            old(self).wf(),
            1 <= new_capacity,
        ensures
            final(self).wf(),
            final(self)@ == resize_spec(old(self)@, new_capacity as int, fill),
    {
        let old_cap = self.storage.len();
        let skip = if old_cap > new_capacity {
            old_cap - new_capacity
        } else {
            0
        };
        let keep = old_cap - skip;
        let rem = old_cap - self.cursor;
        let mut src = if skip >= rem {
            skip - rem
        } else {
            self.cursor + skip
        };
        proof {
            lemma_mod_in_window(self@.position + skip as int, old_cap as int);
        }
        let mut next: Vec<T> = Vec::new();
        let mut i: usize = 0;
        while i < keep
            invariant
                i <= keep,
                keep <= old_cap,
                old_cap == self@.capacity(),
                skip as int == old_cap as int - keep as int,
                self.wf(),
                0 <= src < old_cap,
                src as int == (self@.position + skip as int + i as int) % old_cap as int,
                next@.len() == i as int,
                forall|k: int|
                    0 <= k < i as int ==> #[trigger] next@[k] == self@.storage[(self@.position
                        + skip as int + k) % old_cap as int],
            decreases keep - i,
        {
            let v = self.storage[src];
            next.push(v);
            proof {
                lemma_mod_advance(self@.position + skip as int + i as int, old_cap as int);
            }
            src = if src + 1 == old_cap {
                0
            } else {
                src + 1
            };
            i = i + 1;
        }
        while next.len() < new_capacity
            invariant
                keep <= new_capacity,
                old_cap == self@.capacity(),
                skip as int == old_cap as int - keep as int,
                self.wf(),
                keep as int <= next@.len() <= new_capacity as int,
                forall|k: int|
                    0 <= k < keep as int ==> #[trigger] next@[k] == self@.storage[(self@.position
                        + skip as int + k) % old_cap as int],
                forall|k: int| keep as int <= k < next@.len() ==> #[trigger] next@[k] == fill,
            decreases new_capacity - next.len(),
        {
            next.push(fill);
        }
        proof {
            let m = old(self)@;
            let target = resize_spec(m, new_capacity as int, fill).storage;
            assert forall|k: int| 0 <= k < new_capacity as int implies next@[k] == target[k] by {
                if k < keep as int {
                    lemma_window_index(m, m.capacity() - keep as int + k);
                }
            }
            assert(next@ =~= target);
        }
        self.storage = next;
        self.cursor = 0;
        self.fill = fill;
    }

    /// Number of slots in the ring, which is also its delay length.
    pub fn capacity(&self) -> (r: usize)
        ensures
            r as int == self@.capacity(),
    {
        self.storage.len()
    }

    /// The value used to pad newly created slots on the last rebuild.
    pub fn fill_value(&self) -> (r: T)
        ensures
            r == self@.fill,
    {
        self.fill
    }
}

} // verus!
